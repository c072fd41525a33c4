//! Storage of the registered instances in the orchestrator's own memory.
use vstd::prelude::*;

use crate::ids::{key_ids_view, RoomId};
use crate::service_instance::registration::ServiceRegistration;
use crate::shared::register::RegisterType;
use crate::shared::services::recorder::RecorderResource;
use crate::shared::services::service_resource::resource_text;
use crate::shared::services::transcription::TranscriptionResource;
use crate::shared::services::{InstanceData, InstanceDataView, ResourceType, ServiceResource};
use crate::shared::{Metrics, OrchestratorMetrics, ServiceKind};
use crate::storage::table::{
    entries_wf, table_get, table_insert, table_lookup, table_remove, table_remove_resource, table_select,
    table_set_metrics, EntryView, ServiceTable,
};
use crate::storage::{AddInstanceError, StorageError};
use crate::url_model::{UrlView, WebUrl};

verus! {

/// The instance data a registration is stored with.
pub open spec fn registration_data(registration: ServiceRegistration) -> InstanceDataView {
    InstanceDataView {
        metrics: registration.metrics,
        api_key_ids: key_ids_view(registration.api_key_ids@),
    }
}

/// A table outcome as the outcome of adding an instance.
pub open spec fn add_outcome(r: Result<(), crate::shared::error::RegistrationError>) -> Result<(), AddInstanceError> {
    match r {
        Ok(()) => Ok(()),
        Err(e) => Err(AddInstanceError::RegistrationError(e)),
    }
}

/// The registered instances of all service kinds.
pub struct LocalStorage {
    recorder_services: ServiceTable<RecorderResource>,
    roomserver_services: ServiceTable<RoomId>,
    transcription_services: ServiceTable<TranscriptionResource>,
}

impl LocalStorage {
    /// The registered recorders.
    pub closed spec fn recorders(&self) -> Seq<EntryView<RecorderResource>> {
        self.recorder_services@
    }

    /// The registered roomservers.
    pub closed spec fn roomservers(&self) -> Seq<EntryView<RoomId>> {
        self.roomserver_services@
    }

    /// The registered transcription services.
    pub closed spec fn transcriptions(&self) -> Seq<EntryView<TranscriptionResource>> {
        self.transcription_services@
    }

    /// Every table is well formed.
    pub closed spec fn wf(&self) -> bool {
        &&& self.recorder_services.wf()
        &&& self.roomserver_services.wf()
        &&& self.transcription_services.wf()
    }

    /// The table of each kind in a well formed storage is well formed, so
    /// the laws of the registry apply to it.
    pub proof fn lemma_wf_tables(&self)
        requires
            self.wf(),
        ensures
            entries_wf(self.recorders()),
            entries_wf(self.roomservers()),
            entries_wf(self.transcriptions()),
    {
    }

    /// An empty storage.
    pub fn new() -> (s: LocalStorage)
        ensures
            s.wf(),
            s.recorders().len() == 0,
            s.roomservers().len() == 0,
            s.transcriptions().len() == 0,
    {
        LocalStorage {
            recorder_services: ServiceTable::new(),
            roomserver_services: ServiceTable::new(),
            transcription_services: ServiceTable::new(),
        }
    }

    /// All registered instances with their state.
    pub fn get_orchestrator_metrics(&self) -> (m: OrchestratorMetrics)
        ensures
            m.roomservers@.len() == self.roomservers().len(),
            forall|i: int| 0 <= i < m.roomservers@.len() ==> (#[trigger] m.roomservers@[i]).0@ == self.roomservers()[i].url
                && m.roomservers@[i].1.instance_data@ == self.roomservers()[i].instance_data
                && m.roomservers@[i].1.managed_resources@ == self.roomservers()[i].resources,
            m.recorders@.len() == self.recorders().len(),
            forall|i: int| 0 <= i < m.recorders@.len() ==> (#[trigger] m.recorders@[i]).0@ == self.recorders()[i].url
                && m.recorders@[i].1.instance_data@ == self.recorders()[i].instance_data
                && m.recorders@[i].1.managed_resources@ == self.recorders()[i].resources,
            m.transcription@.len() == self.transcriptions().len(),
            forall|i: int| 0 <= i < m.transcription@.len() ==> (#[trigger] m.transcription@[i]).0@ == self.transcriptions()[i].url
                && m.transcription@[i].1.instance_data@ == self.transcriptions()[i].instance_data
                && m.transcription@[i].1.managed_resources@ == self.transcriptions()[i].resources,
    {
        OrchestratorMetrics {
            roomservers: self.roomserver_services.snapshot(),
            recorders: self.recorder_services.snapshot(),
            transcription: self.transcription_services.snapshot(),
        }
    }

    /// Replaces the metrics of the instance of `kind` under `url`; fails when
    /// no such instance is registered. The other kinds are untouched.
    pub fn set_service_metrics(&mut self, url: &WebUrl, kind: ServiceKind, metrics: Metrics) -> (r: Result<(), StorageError>)
        requires
            old(self).wf(),
        ensures
            final(self).wf(),
            set_metrics_effect(*old(self), url@.serialization, kind, metrics, *final(self), r),
    {
        let found = match kind {
            ServiceKind::Recorder => self.recorder_services.set_metrics(url, metrics),
            ServiceKind::Roomserver => self.roomserver_services.set_metrics(url, metrics),
            ServiceKind::Transcription => self.transcription_services.set_metrics(url, metrics),
        };
        if found {
            Ok(())
        } else {
            Err(StorageError::UnknownService(kind))
        }
    }

    /// Adds a registered instance to the table of its kind (see
    /// [`table_insert`]); the other kinds are untouched.
    pub fn add_instance(&mut self, registration: ServiceRegistration) -> (r: Result<(), AddInstanceError>)
        requires
            old(self).wf(),
        ensures
            final(self).wf(),
            add_instance_effect(*old(self), registration, *final(self), r),
    {
        let ghost reg_view = registration_data(registration);
        let ServiceRegistration { address, register_type, api_key_ids, metrics } = registration;
        let instance_data = InstanceData { metrics, api_key_ids };
        assert(instance_data@ == reg_view);
        let out = match register_type {
            RegisterType::Recorder(rr) => self.recorder_services.insert(address, instance_data, rr.rooms),
            RegisterType::Roomserver(rr) => self.roomserver_services.insert(address, instance_data, rr.rooms),
            RegisterType::Transcription(rt) => self.transcription_services.insert(address, instance_data, rt.rooms),
        };
        match out {
            Ok(()) => Ok(()),
            Err(e) => Err(AddInstanceError::RegistrationError(e)),
        }
    }

    /// The instance data of the instance of `kind` under `url`.
    pub fn get_instance(&self, url: &WebUrl, kind: ServiceKind) -> (r: Option<InstanceData>)
        requires
            self.wf(),
        ensures
            ({
                let expected = match kind {
                    ServiceKind::Recorder => table_get(self.recorders(), url@.serialization),
                    ServiceKind::Roomserver => table_get(self.roomservers(), url@.serialization),
                    ServiceKind::Transcription => table_get(self.transcriptions(), url@.serialization),
                };
                match r {
                    Some(d) => expected == Some(d@),
                    None => expected is None,
                }
            }),
    {
        match kind {
            ServiceKind::Recorder => self.recorder_services.get(url),
            ServiceKind::Roomserver => self.roomserver_services.get(url),
            ServiceKind::Transcription => self.transcription_services.get(url),
        }
    }

    /// The address and data of the instance that manages `resource`.
    pub fn get_instances_for_resource(&self, resource: &ServiceResource) -> (r: Option<(WebUrl, InstanceData)>)
        requires
            self.wf(),
        ensures
            ({
                let expected = match *resource {
                    ServiceResource::Roomserver(x) => table_lookup(self.roomservers(), x),
                    ServiceResource::Recorder(x) => table_lookup(self.recorders(), x),
                    ServiceResource::Transcription(x) => table_lookup(self.transcriptions(), x),
                };
                match r {
                    Some(p) => expected == Some((p.0@, p.1@)),
                    None => expected is None,
                }
            }),
    {
        match resource {
            ServiceResource::Roomserver(room_id) => self.roomserver_services.lookup(room_id),
            ServiceResource::Recorder(recorder_resource) => self.recorder_services.lookup(recorder_resource),
            ServiceResource::Transcription(transcription_resource) => self.transcription_services.lookup(transcription_resource),
        }
    }

    /// Removes the instance of `kind` under `url`, with the resources it
    /// manages; the other kinds are untouched.
    pub fn remove_instance(&mut self, url: &WebUrl, kind: ServiceKind)
        requires
            old(self).wf(),
        ensures
            final(self).wf(),
            final(self).recorders() == (if kind == ServiceKind::Recorder {
                table_remove(old(self).recorders(), url@.serialization)
            } else {
                old(self).recorders()
            }),
            final(self).roomservers() == (if kind == ServiceKind::Roomserver {
                table_remove(old(self).roomservers(), url@.serialization)
            } else {
                old(self).roomservers()
            }),
            final(self).transcriptions() == (if kind == ServiceKind::Transcription {
                table_remove(old(self).transcriptions(), url@.serialization)
            } else {
                old(self).transcriptions()
            }),
    {
        match kind {
            ServiceKind::Recorder => self.recorder_services.remove(url),
            ServiceKind::Roomserver => self.roomserver_services.remove(url),
            ServiceKind::Transcription => self.transcription_services.remove(url),
        }
    }

    /// The instance under `url` no longer manages `resource`; the tables of
    /// the other kinds are untouched.
    pub fn remove_service_resource(&mut self, url: &WebUrl, resource: ServiceResource)
        requires
            old(self).wf(),
        ensures
            final(self).wf(),
            remove_resource_effect(*old(self), url@.serialization, resource, *final(self)),
    {
        match resource {
            ServiceResource::Roomserver(room_id) => self.roomserver_services.remove_resource(url, &room_id),
            ServiceResource::Recorder(r) => self.recorder_services.remove_resource(url, &r),
            ServiceResource::Transcription(t) => self.transcription_services.remove_resource(url, &t),
        }
    }

    /// Selects the instance for `resource` (see [`table_select`]): the
    /// instance that manages it, or else the least loaded eligible instance
    /// of its kind, which then manages it. Fails when no instance of the
    /// kind can take it.
    pub fn select_instance_for_resource(&mut self, resource: ServiceResource) -> (r: Result<(WebUrl, InstanceData), StorageError>)
        requires
            old(self).wf(),
        ensures
            final(self).wf(),
            select_effect(*old(self), resource, *final(self), r),
    {
        let selection = match resource {
            ServiceResource::Roomserver(room_id) => self.roomserver_services.select(room_id),
            ServiceResource::Recorder(rr) => self.recorder_services.select(rr),
            ServiceResource::Transcription(t) => self.transcription_services.select(t),
        };
        match selection {
            Some(p) => Ok(p),
            None => Err(StorageError::NoInstanceAvailable),
        }
    }

    /// No instance of any kind is registered.
    pub fn is_empty(&self) -> (b: bool)
        ensures
            b == (self.recorders().len() == 0 && self.roomservers().len() == 0 && self.transcriptions().len() == 0),
    {
        self.recorder_services.len() == 0 && self.roomserver_services.len() == 0
            && self.transcription_services.len() == 0
    }

    /// The text form of every managed resource: roomservers first, then
    /// recorders, then transcription services.
    pub fn get_all_resources(&self) -> (r: Vec<String>)
        ensures
            r@.map_values(|s: String| s@) == resource_texts(self.roomservers()) + resource_texts(self.recorders())
                + resource_texts(self.transcriptions()),
    {
        let mut out: Vec<String> = Vec::new();
        append_resource_texts(&mut out, &self.roomserver_services);
        append_resource_texts(&mut out, &self.recorder_services);
        append_resource_texts(&mut out, &self.transcription_services);
        out
    }

    /// The address of every registered instance: roomservers first, then
    /// recorders, then transcription services.
    pub fn get_all_services(&self) -> (r: Vec<String>)
        ensures
            r@.map_values(|s: String| s@) == address_texts(self.roomservers()) + address_texts(self.recorders())
                + address_texts(self.transcriptions()),
    {
        let mut out: Vec<String> = Vec::new();
        append_addresses(&mut out, &self.roomserver_services);
        append_addresses(&mut out, &self.recorder_services);
        append_addresses(&mut out, &self.transcription_services);
        out
    }
}

/// The effect of adding the instance of `registration`: the table of its
/// kind as [`table_insert`] says, with the data it registered with; the
/// other kinds untouched.
pub open spec fn add_instance_effect(
    before: LocalStorage,
    registration: ServiceRegistration,
    after: LocalStorage,
    r: Result<(), AddInstanceError>,
) -> bool {
    match registration.register_type {
        RegisterType::Recorder(rr) => {
            let (nv, out) = table_insert(before.recorders(), registration.address@, registration_data(registration), rr.rooms@);
            &&& after.recorders() == nv
            &&& r == add_outcome(out)
            &&& after.roomservers() == before.roomservers()
            &&& after.transcriptions() == before.transcriptions()
        },
        RegisterType::Roomserver(rr) => {
            let (nv, out) = table_insert(before.roomservers(), registration.address@, registration_data(registration), rr.rooms@);
            &&& after.roomservers() == nv
            &&& r == add_outcome(out)
            &&& after.recorders() == before.recorders()
            &&& after.transcriptions() == before.transcriptions()
        },
        RegisterType::Transcription(rt) => {
            let (nv, out) = table_insert(before.transcriptions(), registration.address@, registration_data(registration), rt.rooms@);
            &&& after.transcriptions() == nv
            &&& r == add_outcome(out)
            &&& after.recorders() == before.recorders()
            &&& after.roomservers() == before.roomservers()
        },
    }
}

/// The effect of setting the metrics of the instance of `kind` under
/// address `a`: the table of that kind as [`table_set_metrics`] says, or an
/// unknown service; the other kinds untouched.
pub open spec fn set_metrics_effect(
    before: LocalStorage,
    a: Seq<char>,
    kind: ServiceKind,
    metrics: Metrics,
    after: LocalStorage,
    r: Result<(), StorageError>,
) -> bool {
    match kind {
        ServiceKind::Recorder => {
            &&& after.roomservers() == before.roomservers()
            &&& after.transcriptions() == before.transcriptions()
            &&& match table_set_metrics(before.recorders(), a, metrics) {
                Some(nv) => r is Ok && after.recorders() == nv,
                None => r == Err::<(), StorageError>(StorageError::UnknownService(kind))
                    && after.recorders() == before.recorders(),
            }
        },
        ServiceKind::Roomserver => {
            &&& after.recorders() == before.recorders()
            &&& after.transcriptions() == before.transcriptions()
            &&& match table_set_metrics(before.roomservers(), a, metrics) {
                Some(nv) => r is Ok && after.roomservers() == nv,
                None => r == Err::<(), StorageError>(StorageError::UnknownService(kind))
                    && after.roomservers() == before.roomservers(),
            }
        },
        ServiceKind::Transcription => {
            &&& after.recorders() == before.recorders()
            &&& after.roomservers() == before.roomservers()
            &&& match table_set_metrics(before.transcriptions(), a, metrics) {
                Some(nv) => r is Ok && after.transcriptions() == nv,
                None => r == Err::<(), StorageError>(StorageError::UnknownService(kind))
                    && after.transcriptions() == before.transcriptions(),
            }
        },
    }
}

/// The effect of the instance under address `a` giving up `resource`: the
/// table of the resource's kind as [`table_remove_resource`] says; the
/// other kinds untouched.
pub open spec fn remove_resource_effect(
    before: LocalStorage,
    a: Seq<char>,
    resource: ServiceResource,
    after: LocalStorage,
) -> bool {
    match resource {
        ServiceResource::Roomserver(x) => after.roomservers() == table_remove_resource(before.roomservers(), a, x)
            && after.recorders() == before.recorders()
            && after.transcriptions() == before.transcriptions(),
        ServiceResource::Recorder(x) => after.recorders() == table_remove_resource(before.recorders(), a, x)
            && after.roomservers() == before.roomservers()
            && after.transcriptions() == before.transcriptions(),
        ServiceResource::Transcription(x) => after.transcriptions() == table_remove_resource(before.transcriptions(), a, x)
            && after.recorders() == before.recorders()
            && after.roomservers() == before.roomservers(),
    }
}

/// The effect of selecting the instance for `resource`: the table of its
/// kind and the result as [`selected`] says; the other kinds untouched.
pub open spec fn select_effect(
    before: LocalStorage,
    resource: ServiceResource,
    after: LocalStorage,
    sel: Result<(WebUrl, InstanceData), StorageError>,
) -> bool {
    match resource {
        ServiceResource::Roomserver(x) => {
            &&& after.recorders() == before.recorders()
            &&& after.transcriptions() == before.transcriptions()
            &&& selected(before.roomservers(), x, after.roomservers(), sel)
        },
        ServiceResource::Recorder(x) => {
            &&& after.roomservers() == before.roomservers()
            &&& after.transcriptions() == before.transcriptions()
            &&& selected(before.recorders(), x, after.recorders(), sel)
        },
        ServiceResource::Transcription(x) => {
            &&& after.recorders() == before.recorders()
            &&& after.roomservers() == before.roomservers()
            &&& selected(before.transcriptions(), x, after.transcriptions(), sel)
        },
    }
}

/// The outcome of a selection on a table: as [`table_select`] says.
pub open spec fn selected<T>(
    old_v: Seq<EntryView<T>>,
    x: T,
    new_v: Seq<EntryView<T>>,
    r: Result<(WebUrl, InstanceData), StorageError>,
) -> bool {
    match table_select(old_v, x) {
        Some((nv, c)) => new_v == nv && (r matches Ok(p) && p.0@ == old_v[c].url && p.1@ == old_v[c].instance_data),
        None => new_v == old_v && r == Err::<(WebUrl, InstanceData), StorageError>(StorageError::NoInstanceAvailable),
    }
}

/// The text form of every resource managed in `v`, entry by entry.
pub open spec fn resource_texts<T: ResourceType>(v: Seq<EntryView<T>>) -> Seq<Seq<char>>
    decreases v.len(),
{
    if v.len() == 0 {
        Seq::empty()
    } else {
        resource_texts(v.drop_last()) + v.last().resources.map_values(
            |x: T| resource_text(x.spec_into_service_resource()),
        )
    }
}

/// The address of every entry of `v`.
pub open spec fn address_texts<T>(v: Seq<EntryView<T>>) -> Seq<Seq<char>> {
    v.map_values(|e: EntryView<T>| e.url.serialization)
}

/// Appends the text form of every resource that `table` manages.
fn append_resource_texts<T: ResourceType>(out: &mut Vec<String>, table: &ServiceTable<T>)
    ensures
        final(out)@.map_values(|s: String| s@) == old(out)@.map_values(|s: String| s@) + resource_texts(table@),
{
    let ghost start = out@.map_values(|s: String| s@);
    let snapshot = table.snapshot();
    let mut i: usize = 0;
    while i < snapshot.len()
        invariant
            i <= snapshot@.len(),
            snapshot@.len() == table@.len(),
            forall|j: int| 0 <= j < snapshot@.len() ==> (#[trigger] snapshot@[j]).1.managed_resources@ == table@[j].resources,
            out@.map_values(|s: String| s@) == start + resource_texts(table@.subrange(0, i as int)),
        decreases snapshot.len() - i,
    {
        let resources = &snapshot[i].1.managed_resources;
        let ghost before = out@.map_values(|s: String| s@);
        let ghost added = resources@.map_values(|x: T| resource_text(x.spec_into_service_resource()));
        let mut k: usize = 0;
        while k < resources.len()
            invariant
                k <= resources@.len(),
                added == resources@.map_values(|x: T| resource_text(x.spec_into_service_resource())),
                out@.map_values(|s: String| s@) == before + added.subrange(0, k as int),
            decreases resources.len() - k,
        {
            let text = resources[k].into_service_resource().to_text();
            let ghost prev = out@;
            out.push(text);
            proof {
                assert(out@ == prev.push(text));
                assert(out@.map_values(|s: String| s@) =~= prev.map_values(|s: String| s@).push(text@));
                assert(added.subrange(0, k as int + 1) =~= added.subrange(0, k as int).push(added[k as int]));
            }
            k = k + 1;
        }
        proof {
            assert(added.subrange(0, resources@.len() as int) =~= added);
            let p = table@.subrange(0, i as int + 1);
            assert(p.drop_last() =~= table@.subrange(0, i as int));
            assert(p.last() == table@[i as int]);
            assert(resource_texts(p) == resource_texts(p.drop_last()) + added);
        }
        i = i + 1;
    }
    assert(table@.subrange(0, table@.len() as int) =~= table@);
}

/// Appends the address of every entry of `table`.
fn append_addresses<T: ResourceType>(out: &mut Vec<String>, table: &ServiceTable<T>)
    ensures
        final(out)@.map_values(|s: String| s@) == old(out)@.map_values(|s: String| s@) + address_texts(table@),
{
    let ghost start = out@.map_values(|s: String| s@);
    let snapshot = table.snapshot();
    let mut i: usize = 0;
    while i < snapshot.len()
        invariant
            i <= snapshot@.len(),
            snapshot@.len() == table@.len(),
            forall|j: int| 0 <= j < snapshot@.len() ==> (#[trigger] snapshot@[j]).0@ == table@[j].url,
            out@.map_values(|s: String| s@) == start + address_texts(table@).subrange(0, i as int),
        decreases snapshot.len() - i,
    {
        let text = snapshot[i].0.as_str().to_owned();
        let ghost prev = out@;
        out.push(text);
        proof {
            assert(out@.map_values(|s: String| s@) =~= prev.map_values(|s: String| s@).push(text@));
            assert(address_texts(table@).subrange(0, i as int + 1) =~= address_texts(table@).subrange(0, i as int).push(
                table@[i as int].url.serialization,
            ));
        }
        i = i + 1;
    }
    assert(address_texts(table@).subrange(0, table@.len() as int) =~= address_texts(table@));
}

} // verus!
