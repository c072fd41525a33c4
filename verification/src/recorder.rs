//! The forwarding of recording requests to a recorder.
use vstd::prelude::*;

use crate::api::{is_failure, ApiErrorKind, ApiFailure, ForwardFailure};
use crate::shared::services::recorder::{RecorderEvent, RecorderResource};
use crate::shared::services::{InstanceData, InstanceDataView};
use crate::storage::table::{dedup, dedup_vec, lemma_dedup};
use crate::url_model::{url_join, UrlView, WebUrl};

verus! {

/// A recorder as an orchestrated instance: the recordings it runs and its
/// data.
pub struct RecorderInstance {
    rooms: Vec<RecorderResource>,
    data: InstanceData,
}

impl RecorderInstance {
    /// The recordings the recorder runs.
    pub closed spec fn recordings(&self) -> Set<RecorderResource> {
        self.rooms@.to_set()
    }

    /// The recorder's data.
    pub closed spec fn data(&self) -> InstanceDataView {
        self.data@
    }

    /// No recording is listed twice.
    pub closed spec fn wf(&self) -> bool {
        self.rooms@.no_duplicates()
    }

    /// A recorder that runs the given recordings, with default data.
    pub fn new(resources: Vec<RecorderResource>) -> (r: RecorderInstance)
        ensures
            r.wf(),
            r.recordings() == resources@.to_set(),
            r.data().metrics.load == 0,
            !r.data().metrics.accepting_jobs,
            r.data().api_key_ids.len() == 0,
    {
        let rooms = dedup_vec(&resources);
        proof {
            lemma_dedup(resources@);
            assert(rooms@.to_set() =~= resources@.to_set());
        }
        let data = InstanceData::default();
        assert(data@.api_key_ids =~= Seq::<Seq<char>>::empty());
        RecorderInstance { rooms, data }
    }

    /// Whether the recorder runs `resource`.
    pub fn manages(&self, resource: &RecorderResource) -> (b: bool)
        ensures
            b == self.recordings().contains(*resource),
    {
        let mut i: usize = 0;
        while i < self.rooms.len()
            invariant
                i <= self.rooms@.len(),
                forall|k: int| 0 <= k < i ==> self.rooms@[k] != *resource,
            decreases self.rooms.len() - i,
        {
            if self.rooms[i] == *resource {
                assert(self.rooms@.contains(*resource));
                return true;
            }
            i = i + 1;
        }
        false
    }

    /// The recorder runs `resource` too.
    pub fn add_managed_resource(&mut self, resource: RecorderResource)
        requires
            old(self).wf(),
        ensures
            final(self).wf(),
            final(self).recordings() == old(self).recordings().insert(resource),
            final(self).data() == old(self).data(),
    {
        if !self.manages(&resource) {
            let ghost before = self.rooms@;
            self.rooms.push(resource);
            proof {
                broadcast use vstd::seq_lib::lemma_seq_contains_after_push;

                assert(self.rooms@ == before.push(resource));
                assert(self.rooms@.to_set() =~= before.to_set().insert(resource));
                assert forall|i: int, j: int| 0 <= i < self.rooms@.len() && 0 <= j < self.rooms@.len() && i != j implies self.rooms@[i]
                    != self.rooms@[j] by {
                    if i == before.len() as int {
                        assert(!before.contains(resource));
                        assert(before[j] == self.rooms@[j]);
                    } else if j == before.len() as int {
                        assert(!before.contains(resource));
                        assert(before[i] == self.rooms@[i]);
                    }
                }
            }
        } else {
            assert(self.recordings().insert(resource) =~= self.recordings());
        }
    }

    /// Handles an event of the recorder: a removed recording is no longer
    /// run.
    pub fn handle_event(&mut self, event: RecorderEvent)
        requires
            old(self).wf(),
        ensures
            final(self).wf(),
            match event {
                RecorderEvent::RemoveRecording(r) => final(self).recordings() == old(self).recordings().remove(r),
            },
            final(self).data() == old(self).data(),
    {
        match event {
            RecorderEvent::RemoveRecording(resource) => {
                let ghost before = self.rooms@;
                let mut kept: Vec<RecorderResource> = Vec::new();
                let mut i: usize = 0;
                while i < self.rooms.len()
                    invariant
                        i <= self.rooms@.len(),
                        self.rooms@ == before,
                        before.no_duplicates(),
                        kept@.no_duplicates(),
                        forall|x: RecorderResource| kept@.contains(x) <==> (before.subrange(0, i as int).contains(x) && x != resource),
                    decreases self.rooms.len() - i,
                {
                    let x = self.rooms[i];
                    let ghost old_kept = kept@;
                    if x != resource {
                        kept.push(x);
                    }
                    proof {
                        broadcast use vstd::seq_lib::lemma_seq_contains_after_push;

                        let p = before.subrange(0, i as int + 1);
                        assert(p =~= before.subrange(0, i as int).push(x));
                        assert forall|y: RecorderResource| p.contains(y) <==> (before.subrange(0, i as int).contains(y) || y == x) by {
                            if p.contains(y) {
                                let k = choose|k: int| 0 <= k < p.len() && p[k] == y;
                                if k < i {
                                    assert(before.subrange(0, i as int)[k] == y);
                                }
                            }
                            if before.subrange(0, i as int).contains(y) {
                                let k = choose|k: int| 0 <= k < i && before.subrange(0, i as int)[k] == y;
                                assert(p[k] == y);
                            }
                            if y == x {
                                assert(p[i as int] == y);
                            }
                        }
                        if x != resource {
                            assert(!old_kept.contains(x)) by {
                                if old_kept.contains(x) {
                                    let k = choose|k: int| 0 <= k < i && before.subrange(0, i as int)[k] == x;
                                    assert(before[k] == before[i as int]);
                                }
                            }
                            assert forall|y: RecorderResource| kept@.contains(y) <==> (old_kept.contains(y) || y == x) by {
                                if kept@.contains(y) {
                                    let k = choose|k: int| 0 <= k < kept@.len() && kept@[k] == y;
                                    if k < old_kept.len() {
                                        assert(old_kept[k] == y);
                                    }
                                }
                                if old_kept.contains(y) {
                                    let k = choose|k: int| 0 <= k < old_kept.len() && old_kept[k] == y;
                                    assert(kept@[k] == y);
                                }
                                if y == x {
                                    assert(kept@[old_kept.len() as int] == y);
                                }
                            }
                            assert forall|a: int, b: int| 0 <= a < kept@.len() && 0 <= b < kept@.len() && a != b implies kept@[a]
                                != kept@[b] by {
                                if a == old_kept.len() as int {
                                    assert(old_kept.contains(kept@[b]));
                                } else if b == old_kept.len() as int {
                                    assert(old_kept.contains(kept@[a]));
                                }
                            }
                        }
                    }
                    i = i + 1;
                }
                proof {
                    assert(before.subrange(0, before.len() as int) =~= before);
                    assert(kept@.to_set() =~= before.to_set().remove(resource));
                }
                self.rooms = kept;
            },
        }
    }

    /// The recorder's data.
    pub fn instance_data(&self) -> (d: &InstanceData)
        ensures
            d@ == self.data(),
    {
        &self.data
    }
}

/// What starting a recording did.
#[derive(Clone, Copy, Debug, PartialEq, Eq, Structural)]
pub enum RecordingAction {
    /// A recording was started
    Created,
    /// The recording was running already
    AlreadyRunning,
}

/// The URL of a recorder's init endpoint: `v1/init` joined onto its
/// address.
pub fn recorder_init_url(address: &WebUrl) -> (r: Result<WebUrl, ApiFailure>)
    ensures
        match url_join(address@, "v1/init"@) {
            Ok(u) => r matches Ok(v) && v@ == u,
            Err(_) => r matches Err(f) && is_failure(f, ApiErrorKind::Internal, seq!["Failed to construct recorder URL"@]),
        },
{
    match address.join("v1/init") {
        Ok(u) => Ok(u),
        Err(_) => Err(ApiFailure::with_message(ApiErrorKind::Internal, "Failed to construct recorder URL")),
    }
}

/// What the recorder's answer to an init request means: 200 a new
/// recording, 204 a running one, 401 a failed authorization; any other
/// status is the recorder's error, passed on with the error body it sent,
/// or an internal error where the body is no error body (`body` is the
/// parsed body, `None` where it does not parse).
pub fn recorder_init_outcome<B>(status: u16, body: Option<B>) -> (r: Result<RecordingAction, ForwardFailure<B>>)
    ensures
        status == 200 ==> r == Ok::<RecordingAction, ForwardFailure<B>>(RecordingAction::Created),
        status == 204 ==> r == Ok::<RecordingAction, ForwardFailure<B>>(RecordingAction::AlreadyRunning),
        status == 401 ==> (r matches Err(ForwardFailure::Api(f)) && is_failure(
            f,
            ApiErrorKind::Internal,
            seq!["Failed to authorize at recorder"@],
        )),
        status != 200 && status != 204 && status != 401 ==> match body {
            Some(b) => r matches Err(ForwardFailure::Remote { status: s, body: c }) && s == status && c == b,
            None => r matches Err(ForwardFailure::Api(f)) && is_failure(
                f,
                ApiErrorKind::Internal,
                seq!["Unexpected recorder response body"@],
            ),
        },
{
    if status == 200 {
        Ok(RecordingAction::Created)
    } else if status == 204 {
        Ok(RecordingAction::AlreadyRunning)
    } else if status == 401 {
        Err(ForwardFailure::Api(ApiFailure::with_message(ApiErrorKind::Internal, "Failed to authorize at recorder")))
    } else {
        match body {
            Some(b) => Err(ForwardFailure::Remote { status, body: b }),
            None => Err(
                ForwardFailure::Api(ApiFailure::with_message(ApiErrorKind::Internal, "Unexpected recorder response body")),
            ),
        }
    }
}

} // verus!
