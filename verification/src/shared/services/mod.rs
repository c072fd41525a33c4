//! Resources that service instances manage, and the state that the
//! orchestrator keeps per instance.
use vstd::prelude::*;

use crate::ids::{duplicate_key_ids, key_ids_view, ApiKeyId, RoomId};
use crate::shared::{Metrics, ServiceKind};

pub mod recorder;
pub mod roomserver;
pub mod service_resource;
pub mod transcription;

pub use service_resource::{ServiceResource, ServiceResourceParseError};

verus! {

/// Types that can be used as managed resources within a [`ServiceState`].
pub trait ResourceType: Sized + Copy {
    /// The kind of service that manages this resource type.
    spec fn spec_kind() -> ServiceKind;

    /// The resource of this type inside a [`ServiceResource`], if the variant matches.
    spec fn spec_from_service_resource(resource: ServiceResource) -> Option<Self>;

    /// This resource as a [`ServiceResource`].
    spec fn spec_into_service_resource(self) -> ServiceResource;

    /// Returns the [`ServiceKind`] this resource type belongs to.
    fn kind() -> (k: ServiceKind)
        ensures
            k == Self::spec_kind(),
    ;

    /// Extracts `Self` from a [`ServiceResource`] variant, returning `None` if the variant
    /// does not match this resource type.
    fn from_service_resource(resource: ServiceResource) -> (r: Option<Self>)
        ensures
            r == Self::spec_from_service_resource(resource),
    ;

    /// This resource as a [`ServiceResource`].
    fn into_service_resource(self) -> (r: ServiceResource)
        ensures
            r == self.spec_into_service_resource(),
    ;

    /// Whether two resources are the same.
    fn same(&self, other: &Self) -> (b: bool)
        ensures
            b == (*self == *other),
    ;
}

impl ResourceType for RoomId {
    open spec fn spec_kind() -> ServiceKind {
        ServiceKind::Roomserver
    }

    open spec fn spec_from_service_resource(resource: ServiceResource) -> Option<RoomId> {
        match resource {
            ServiceResource::Roomserver(room_id) => Some(room_id),
            _ => None,
        }
    }

    open spec fn spec_into_service_resource(self) -> ServiceResource {
        ServiceResource::Roomserver(self)
    }

    fn kind() -> (k: ServiceKind) {
        ServiceKind::Roomserver
    }

    fn from_service_resource(resource: ServiceResource) -> (r: Option<RoomId>) {
        match resource {
            ServiceResource::Roomserver(room_id) => Some(room_id),
            _ => None,
        }
    }

    fn into_service_resource(self) -> (r: ServiceResource) {
        ServiceResource::Roomserver(self)
    }

    fn same(&self, other: &RoomId) -> (b: bool) {
        self.0 == other.0
    }
}

/// The view of [`InstanceData`].
pub struct InstanceDataView {
    pub metrics: Metrics,
    pub api_key_ids: Seq<Seq<char>>,
}

/// The general data that is held by each instance.
#[derive(Clone, Debug, PartialEq, Eq)]
pub struct InstanceData {
    /// The current metrics of the instance
    pub metrics: Metrics,
    /// Possible key ids for requests towards the service
    pub api_key_ids: Vec<ApiKeyId>,
}

impl View for InstanceData {
    type V = InstanceDataView;

    open spec fn view(&self) -> InstanceDataView {
        InstanceDataView { metrics: self.metrics, api_key_ids: key_ids_view(self.api_key_ids@) }
    }
}

impl Default for InstanceData {
    fn default() -> (d: InstanceData)
        ensures
            d.metrics.load == 0,
            !d.metrics.accepting_jobs,
            d.api_key_ids@.len() == 0,
    {
        InstanceData { metrics: Metrics { load: 0, accepting_jobs: false }, api_key_ids: Vec::new() }
    }
}

impl InstanceData {
    /// A copy of this data.
    pub fn duplicate(&self) -> (r: InstanceData)
        ensures
            r@ == self@,
    {
        InstanceData { metrics: self.metrics, api_key_ids: duplicate_key_ids(&self.api_key_ids) }
    }
}

#[verifier::reject_recursive_types(T)]
/// The view of a [`ServiceState`].
pub struct ServiceStateView<T> {
    pub instance_data: InstanceDataView,
    pub managed_resources: Set<T>,
}

/// The state of a registered service instance: its data and the resources it manages.
pub struct ServiceState<T: ResourceType> {
    pub instance_data: InstanceData,
    /// The managed resources; no resource occurs twice
    pub managed_resources: Vec<T>,
}

impl<T: ResourceType> View for ServiceState<T> {
    type V = ServiceStateView<T>;

    open spec fn view(&self) -> ServiceStateView<T> {
        ServiceStateView {
            instance_data: self.instance_data@,
            managed_resources: self.managed_resources@.to_set(),
        }
    }
}

impl<T: ResourceType> ServiceState<T> {
    /// No managed resource occurs twice.
    pub open spec fn wf(&self) -> bool {
        self.managed_resources@.no_duplicates()
    }

    /// Replaces the metrics of the instance.
    pub fn set_metrics(&mut self, metrics: Metrics)
        ensures
            final(self).instance_data.metrics == metrics,
            final(self).instance_data.api_key_ids == old(self).instance_data.api_key_ids,
            final(self).managed_resources == old(self).managed_resources,
    {
        self.instance_data.metrics = metrics;
    }

    /// Whether the instance manages `resource`.
    pub fn manages(&self, resource: &T) -> (r: bool)
        ensures
            r == self.managed_resources@.contains(*resource),
    {
        let mut i: usize = 0;
        while i < self.managed_resources.len()
            invariant
                i <= self.managed_resources.len(),
                forall|j: int| 0 <= j < i ==> self.managed_resources@[j] != *resource,
            decreases self.managed_resources.len() - i,
        {
            if self.managed_resources[i].same(resource) {
                return true;
            }
            i = i + 1;
        }
        false
    }

    /// A copy of this state.
    pub fn duplicate(&self) -> (r: ServiceState<T>)
        ensures
            r.instance_data@ == self.instance_data@,
            r.managed_resources@ == self.managed_resources@,
    {
        let mut resources: Vec<T> = Vec::new();
        let mut i: usize = 0;
        while i < self.managed_resources.len()
            invariant
                i <= self.managed_resources.len(),
                resources@ == self.managed_resources@.subrange(0, i as int),
            decreases self.managed_resources.len() - i,
        {
            resources.push(self.managed_resources[i]);
            i = i + 1;
        }
        assert(resources@ =~= self.managed_resources@);
        ServiceState { instance_data: self.instance_data.duplicate(), managed_resources: resources }
    }
}

} // verus!
