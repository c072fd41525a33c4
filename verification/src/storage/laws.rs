//! What the registry operations promise of one another: a registration is
//! found again, a removal forgets, new metrics are read back, a selection
//! sticks, and a resource that was given up is free again.
use vstd::prelude::*;

use crate::ids::RoomId;
use crate::shared::services::recorder::RecorderResource;
use crate::shared::services::transcription::TranscriptionResource;
use crate::shared::services::{InstanceDataView, ServiceResource};
use crate::shared::Metrics;
use crate::ids::key_ids_view;
use crate::service_instance::registration::ServiceRegistration;
use crate::shared::register::RegisterType;
use crate::storage::local::{add_instance_effect, remove_resource_effect, LocalStorage};
use crate::storage::table::{
    better_entry, eligible, entries_wf, find_address, find_owner, lemma_dedup, lemma_selection_index,
    selection_index,
    remove_item, resource_taken, table_get, table_insert, table_lookup, table_remove, table_remove_resource,
    table_select, table_set_metrics, EntryView,
};
use crate::url_model::UrlView;

verus! {

/// The entry at `i` is the only one registered under `a`.
proof fn lemma_find_address_is<T>(v: Seq<EntryView<T>>, a: Seq<char>, i: int)
    requires
        0 <= i < v.len(),
        v[i].url.serialization == a,
        forall|j: int| 0 <= j < v.len() && j != i ==> v[j].url.serialization != a,
    ensures
        find_address(v, a) == Some(i),
{
    assert(0 <= i < v.len() && v[i].url.serialization == a);
}

/// The entry at `i` is the only one that manages `r`.
proof fn lemma_find_owner_is<T>(v: Seq<EntryView<T>>, r: T, i: int)
    requires
        0 <= i < v.len(),
        v[i].resources.contains(r),
        forall|j: int| 0 <= j < v.len() && j != i ==> !v[j].resources.contains(r),
    ensures
        find_owner(v, r) == Some(i),
{
    assert(0 <= i < v.len() && v[i].resources.contains(r));
}

/// In a well formed registry the address lookup and the owner lookup give
/// the one entry that matches.
proof fn lemma_wf_find<T>(v: Seq<EntryView<T>>)
    requires
        entries_wf(v),
    ensures
        forall|i: int| 0 <= i < v.len() ==> find_address(v, #[trigger] v[i].url.serialization) == Some(i),
        forall|i: int, r: T|
            0 <= i < v.len() && #[trigger] v[i].resources.contains(r) ==> find_owner(v, r) == Some(i),
{
    assert forall|i: int| 0 <= i < v.len() implies find_address(v, #[trigger] v[i].url.serialization)
        == Some(i) by {
        lemma_find_address_is(v, v[i].url.serialization, i);
    }
    assert forall|i: int, r: T| 0 <= i < v.len() && #[trigger] v[i].resources.contains(r) implies find_owner(
        v,
        r,
    ) == Some(i) by {
        assert forall|j: int| 0 <= j < v.len() && j != i implies !v[j].resources.contains(r) by {
            if v[j].resources.contains(r) {
                assert(v[i].resources.contains(r) && v[j].resources.contains(r));
            }
        }
        lemma_find_owner_is(v, r, i);
    }
}

/// Two registries whose entries have the same addresses and the same
/// resources, entry by entry, answer both lookups alike.
proof fn lemma_same_shape<T>(v: Seq<EntryView<T>>, w: Seq<EntryView<T>>)
    requires
        entries_wf(v),
        w.len() == v.len(),
        forall|i: int| 0 <= i < v.len() ==> (#[trigger] w[i]).url == v[i].url && w[i].resources == v[i].resources,
    ensures
        forall|a: Seq<char>| #[trigger] find_address(w, a) == find_address(v, a),
        forall|r: T| #[trigger] find_owner(w, r) == find_owner(v, r),
{
    lemma_wf_find(v);
    assert forall|a: Seq<char>| #[trigger] find_address(w, a) == find_address(v, a) by {
        if let Some(i) = find_address(v, a) {
            assert(v[i].url.serialization == a);
            assert forall|j: int| 0 <= j < w.len() && j != i implies w[j].url.serialization != a by {
                assert(w[j].url == v[j].url);
                assert(v[j].url.serialization != v[i].url.serialization);
            }
            assert(w[i].url == v[i].url);
            lemma_find_address_is(w, a, i);
        } else {
            assert forall|j: int| 0 <= j < w.len() implies w[j].url.serialization != a by {
                assert(w[j].url == v[j].url);
                if v[j].url.serialization == a {
                    assert(find_address(v, v[j].url.serialization) == Some(j));
                }
            }
        }
    }
    assert forall|r: T| #[trigger] find_owner(w, r) == find_owner(v, r) by {
        if let Some(i) = find_owner(v, r) {
            assert(v[i].resources.contains(r));
            assert forall|j: int| 0 <= j < w.len() && j != i implies !w[j].resources.contains(r) by {
                assert(w[j].resources == v[j].resources);
                if v[j].resources.contains(r) {
                    assert(v[i].resources.contains(r) && v[j].resources.contains(r));
                }
            }
            assert(w[i].resources == v[i].resources);
            lemma_find_owner_is(w, r, i);
        } else {
            assert forall|j: int| 0 <= j < w.len() implies !w[j].resources.contains(r) by {
                assert(w[j].resources == v[j].resources);
                if v[j].resources.contains(r) {
                    assert(find_owner(v, r) == Some(j));
                }
            }
        }
    }
}

/// `remove_item` drops exactly the element `r` from a list without repeats.
proof fn lemma_remove_item<T>(s: Seq<T>, r: T)
    requires
        s.no_duplicates(),
    ensures
        forall|x: T| #[trigger] remove_item(s, r).contains(x) <==> (s.contains(x) && x != r),
        remove_item(s, r).no_duplicates(),
{
    if s.contains(r) {
        let idx = s.index_of(r);
        let t = s.remove(idx);
        assert(0 <= idx < s.len() && s[idx] == r);
        assert(t =~= remove_item(s, r));
        assert forall|x: T| #[trigger] t.contains(x) <==> (s.contains(x) && x != r) by {
            if t.contains(x) {
                let k = choose|k: int| 0 <= k < t.len() && t[k] == x;
                if k < idx {
                    assert(s[k] == x);
                } else {
                    assert(s[k + 1] == x);
                }
            }
            if s.contains(x) && x != r {
                let k = choose|k: int| 0 <= k < s.len() && s[k] == x;
                if k < idx {
                    assert(t[k] == x);
                } else {
                    assert(k != idx);
                    assert(t[k - 1] == x);
                }
            }
        }
        assert forall|i: int, j: int| 0 <= i < t.len() && 0 <= j < t.len() && i != j implies t[i] != t[j] by {
            let si = if i < idx { i } else { i + 1 };
            let sj = if j < idx { j } else { j + 1 };
            assert(t[i] == s[si] && t[j] == s[sj]);
        }
    }
}

/// A registration that goes through is found again: its address gives the
/// data it was registered with, and each of its resources is managed by
/// it. A refused registration changes nothing.
pub proof fn law_insert_then_get<T>(
    v: Seq<EntryView<T>>,
    url: UrlView,
    data: InstanceDataView,
    resources: Seq<T>,
)
    ensures
        ({
            let (nv, out) = table_insert(v, url, data, resources);
            match out {
                Ok(()) => {
                    &&& table_get(nv, url.serialization) == Some(data)
                    &&& forall|r: T| #[trigger] resources.contains(r) ==> table_lookup(nv, r) == Some((url, data))
                },
                Err(_) => nv == v,
            }
        }),
{
    let (nv, out) = table_insert(v, url, data, resources);
    if out is Ok {
        let a = url.serialization;
        let n = v.len() as int;
        assert(nv[n].url == url);
        assert forall|j: int| 0 <= j < nv.len() && j != n implies nv[j].url.serialization != a by {
            assert(nv[j] == v[j]);
            if v[j].url.serialization == a {
                assert(0 <= j < v.len() && v[j].url.serialization == a);
            }
        }
        lemma_find_address_is(nv, a, n);
        lemma_dedup(resources);
        assert forall|r: T| #[trigger] resources.contains(r) implies table_lookup(nv, r) == Some((url, data)) by {
            let k = choose|k: int| 0 <= k < resources.len() && resources[k] == r;
            assert forall|j: int| 0 <= j < nv.len() && j != n implies !nv[j].resources.contains(r) by {
                assert(nv[j] == v[j]);
                if v[j].resources.contains(r) {
                    assert(0 <= k < resources.len() && 0 <= j < v.len() && v[j].resources.contains(resources[k]));
                }
            }
            assert(nv[n].resources.contains(r));
            lemma_find_owner_is(nv, r, n);
        }
    }
}

/// A removed instance is forgotten: nothing is registered under its
/// address, none of its resources is managed any more, and every other
/// resource keeps the instance that manages it.
pub proof fn law_remove_then_get<T>(v: Seq<EntryView<T>>, a: Seq<char>)
    requires
        entries_wf(v),
    ensures
        table_get(table_remove(v, a), a) is None,
        forall|r: T| #[trigger] table_lookup(table_remove(v, a), r) == (match table_lookup(v, r) {
            Some(p) => if p.0.serialization == a { None } else { Some(p) },
            None => None,
        }),
{
    lemma_wf_find(v);
    let nv = table_remove(v, a);
    match find_address(v, a) {
        None => {
            assert forall|r: T| #[trigger] table_lookup(nv, r) == (match table_lookup(v, r) {
                Some(p) => if p.0.serialization == a { None } else { Some(p) },
                None => None,
            }) by {
                if let Some(o) = find_owner(v, r) {
                    if v[o].url.serialization == a {
                        assert(0 <= o < v.len() && v[o].url.serialization == a);
                    }
                }
            }
        },
        Some(i) => {
            assert(nv == v.remove(i));
            assert(v[i].url.serialization == a);
            assert forall|j: int| 0 <= j < nv.len() implies nv[j].url.serialization != a by {
                let sj = if j < i { j } else { j + 1 };
                assert(nv[j] == v[sj]);
                assert(v[sj].url.serialization != v[i].url.serialization);
            }
            assert forall|r: T| #[trigger] table_lookup(nv, r) == (match table_lookup(v, r) {
                Some(p) => if p.0.serialization == a { None } else { Some(p) },
                None => None,
            }) by {
                match find_owner(v, r) {
                    Some(o) => {
                        assert(v[o].resources.contains(r));
                        if o == i {
                            assert forall|j: int| 0 <= j < nv.len() implies !nv[j].resources.contains(r) by {
                                let sj = if j < i { j } else { j + 1 };
                                assert(nv[j] == v[sj]);
                                if v[sj].resources.contains(r) {
                                    assert(find_owner(v, r) == Some(sj));
                                }
                            }
                        } else {
                            assert(v[o].url.serialization != a);
                            let no = if o < i { o } else { o - 1 };
                            assert(nv[no] == v[o]);
                            assert forall|j: int| 0 <= j < nv.len() && j != no implies !nv[j].resources.contains(r) by {
                                let sj = if j < i { j } else { j + 1 };
                                assert(nv[j] == v[sj]);
                                if v[sj].resources.contains(r) {
                                    assert(find_owner(v, r) == Some(sj));
                                }
                            }
                            lemma_find_owner_is(nv, r, no);
                        }
                    },
                    None => {
                        assert forall|j: int| 0 <= j < nv.len() implies !nv[j].resources.contains(r) by {
                            let sj = if j < i { j } else { j + 1 };
                            assert(nv[j] == v[sj]);
                            if v[sj].resources.contains(r) {
                                assert(0 <= sj < v.len() && v[sj].resources.contains(r));
                            }
                        }
                    },
                }
            }
        },
    }
}

/// New metrics are read back: afterwards the instance under `a` holds
/// them, with its api key ids unchanged, and no resource changes hands.
/// Setting metrics for an address that is not registered fails.
pub proof fn law_set_metrics_then_get<T>(v: Seq<EntryView<T>>, a: Seq<char>, m: Metrics)
    requires
        entries_wf(v),
    ensures
        match table_set_metrics(v, a, m) {
            Some(nv) => {
                &&& table_get(v, a) is Some
                &&& table_get(nv, a) == Some(InstanceDataView { metrics: m, api_key_ids: table_get(v, a)->0.api_key_ids })
                &&& forall|r: T| #[trigger] find_owner(nv, r) == find_owner(v, r)
            },
            None => table_get(v, a) is None,
        },
{
    if let Some(nv) = table_set_metrics(v, a, m) {
        let i = find_address(v, a)->0;
        assert forall|k: int| 0 <= k < v.len() implies (#[trigger] nv[k]).url == v[k].url && nv[k].resources
            == v[k].resources by {}
        lemma_same_shape(v, nv);
        assert(find_address(nv, a) == find_address(v, a));
    }
}

/// A selection sticks: the chosen instance manages `r` afterwards, and
/// selecting again for `r` chooses it again and changes nothing. There is
/// no selection only when no instance manages `r` and none is eligible.
pub proof fn law_select_then_lookup<T>(v: Seq<EntryView<T>>, r: T)
    requires
        entries_wf(v),
    ensures
        match table_select(v, r) {
            Some((nv, c)) => {
                &&& table_lookup(nv, r) == Some((v[c].url, v[c].instance_data))
                &&& table_select(nv, r) == Some((nv, c))
            },
            None => find_owner(v, r) is None && forall|j: int| 0 <= j < v.len() ==> !eligible(#[trigger] v[j]),
        },
{
    lemma_wf_find(v);
    lemma_selection_index(v);
    match find_owner(v, r) {
        Some(i) => {},
        None => {
            if let Some((nv, c)) = table_select(v, r) {
                assert(nv[c].resources == v[c].resources.push(r));
                assert(nv[c].resources[v[c].resources.len() as int] == r);
                assert forall|j: int| 0 <= j < nv.len() && j != c implies !nv[j].resources.contains(r) by {
                    assert(nv[j] == v[j]);
                    if v[j].resources.contains(r) {
                        assert(0 <= j < v.len() && v[j].resources.contains(r));
                    }
                }
                lemma_find_owner_is(nv, r, c);
            }
        },
    }
}

/// A resource that its instance gives up is free again: no instance
/// manages it afterwards. Every other resource, and what is registered
/// under each address, stays as it was.
pub proof fn law_remove_resource_then_lookup<T>(v: Seq<EntryView<T>>, a: Seq<char>, r: T)
    requires
        entries_wf(v),
    ensures
        table_lookup(table_remove_resource(v, a, r), r) == (match table_lookup(v, r) {
            Some(p) => if p.0.serialization == a { None } else { Some(p) },
            None => None,
        }),
        forall|s: T| s != r ==> #[trigger] table_lookup(table_remove_resource(v, a, r), s) == table_lookup(v, s),
        forall|b: Seq<char>| #[trigger] table_get(table_remove_resource(v, a, r), b) == table_get(v, b),
{
    lemma_wf_find(v);
    let nv = table_remove_resource(v, a, r);
    match find_address(v, a) {
        None => {
            if let Some(o) = find_owner(v, r) {
                if v[o].url.serialization == a {
                    assert(0 <= o < v.len() && v[o].url.serialization == a);
                }
            }
        },
        Some(i) => {
            lemma_remove_item(v[i].resources, r);
            assert forall|k: int| 0 <= k < v.len() implies (#[trigger] nv[k]).url == v[k].url && nv[k].instance_data
                == v[k].instance_data by {}
            assert forall|b: Seq<char>| #[trigger] find_address(nv, b) == find_address(v, b) by {
                if let Some(x) = find_address(v, b) {
                    assert forall|j: int| 0 <= j < nv.len() && j != x implies nv[j].url.serialization != b by {
                        assert(v[j].url.serialization != v[x].url.serialization);
                    }
                    lemma_find_address_is(nv, b, x);
                } else {
                    assert forall|j: int| 0 <= j < nv.len() implies nv[j].url.serialization != b by {
                        if v[j].url.serialization == b {
                            assert(find_address(v, v[j].url.serialization) == Some(j));
                        }
                    }
                }
            }
            assert forall|s: T| #[trigger] find_owner(nv, s) == (if s == r && find_owner(v, r) == Some(i) {
                None
            } else {
                find_owner(v, s)
            }) by {
                assert forall|j: int| 0 <= j < nv.len() && j != i implies (#[trigger] nv[j].resources.contains(s))
                    == v[j].resources.contains(s) by {}
                assert(nv[i].resources.contains(s) == (v[i].resources.contains(s) && s != r));
                if let Some(o) = find_owner(v, s) {
                    assert(v[o].resources.contains(s));
                    assert forall|j: int| 0 <= j < v.len() && j != o implies !v[j].resources.contains(s) by {
                        if v[j].resources.contains(s) {
                            assert(find_owner(v, s) == Some(j));
                        }
                    }
                    if !(s == r && o == i) {
                        lemma_find_owner_is(nv, s, o);
                    }
                } else {
                    assert forall|j: int| 0 <= j < nv.len() implies !nv[j].resources.contains(s) by {
                        if v[j].resources.contains(s) {
                            assert(0 <= j < v.len() && v[j].resources.contains(s));
                        }
                    }
                }
            }
            if let Some(o) = find_owner(v, r) {
                assert(v[o].url.serialization == a <==> o == i);
            }
        },
    }
}

/// An instance that was removed can register again under its address:
/// the registration goes through as long as none of its resources is
/// managed by another instance.
pub proof fn law_reregister_after_remove<T>(
    v: Seq<EntryView<T>>,
    url: UrlView,
    data: InstanceDataView,
    resources: Seq<T>,
)
    requires
        entries_wf(v),
        forall|r: T| #[trigger] resources.contains(r) ==> table_lookup(table_remove(v, url.serialization), r) is None,
    ensures
        table_insert(table_remove(v, url.serialization), url, data, resources).1 is Ok,
{
    let nv = table_remove(v, url.serialization);
    law_remove_then_get(v, url.serialization);
    assert(find_address(nv, url.serialization) is None);
    if resource_taken(nv, resources) {
        let (k, i) = choose|k: int, i: int|
            0 <= k < resources.len() && 0 <= i < nv.len() && nv[i].resources.contains(resources[k]);
        let r = resources[k];
        assert(resources.contains(r));
        assert(0 <= i < nv.len() && nv[i].resources.contains(r));
        assert(find_owner(nv, r) is Some);
    }
}

/// The owner of a resource after the instance under `a` gave it up: none
/// where that instance was its owner, else the owner it had.
pub open spec fn owner_after_giving_up(owner: Option<(UrlView, InstanceDataView)>, a: Seq<char>) -> Option<(UrlView, InstanceDataView)> {
    match owner {
        Some(p) => if p.0.serialization == a { None } else { Some(p) },
        None => None,
    }
}

/// A resource given up in the storage is free again: after
/// [`LocalStorage::remove_service_resource`], no instance of its kind
/// manages it where the instance under `a` did; every other resource keeps
/// its instance, what is registered under each address stays as it was, and
/// the tables of the other kinds are untouched.
pub proof fn law_storage_remove_resource_then_lookup(
    before: LocalStorage,
    a: Seq<char>,
    resource: ServiceResource,
    after: LocalStorage,
)
    requires
        before.wf(),
        remove_resource_effect(before, a, resource, after),
    ensures
        match resource {
            ServiceResource::Roomserver(x) => {
                &&& table_lookup(after.roomservers(), x) == owner_after_giving_up(table_lookup(before.roomservers(), x), a)
                &&& forall|y: RoomId| y != x ==> #[trigger] table_lookup(after.roomservers(), y) == table_lookup(before.roomservers(), y)
                &&& forall|b: Seq<char>| #[trigger] table_get(after.roomservers(), b) == table_get(before.roomservers(), b)
                &&& after.recorders() == before.recorders()
                &&& after.transcriptions() == before.transcriptions()
            },
            ServiceResource::Recorder(x) => {
                &&& table_lookup(after.recorders(), x) == owner_after_giving_up(table_lookup(before.recorders(), x), a)
                &&& forall|y: RecorderResource| y != x ==> #[trigger] table_lookup(after.recorders(), y) == table_lookup(before.recorders(), y)
                &&& forall|b: Seq<char>| #[trigger] table_get(after.recorders(), b) == table_get(before.recorders(), b)
                &&& after.roomservers() == before.roomservers()
                &&& after.transcriptions() == before.transcriptions()
            },
            ServiceResource::Transcription(x) => {
                &&& table_lookup(after.transcriptions(), x) == owner_after_giving_up(table_lookup(before.transcriptions(), x), a)
                &&& forall|y: TranscriptionResource| y != x ==> #[trigger] table_lookup(after.transcriptions(), y) == table_lookup(before.transcriptions(), y)
                &&& forall|b: Seq<char>| #[trigger] table_get(after.transcriptions(), b) == table_get(before.transcriptions(), b)
                &&& after.recorders() == before.recorders()
                &&& after.roomservers() == before.roomservers()
            },
        },
{
    before.lemma_wf_tables();
    match resource {
        ServiceResource::Roomserver(x) => law_remove_resource_then_lookup(before.roomservers(), a, x),
        ServiceResource::Recorder(x) => law_remove_resource_then_lookup(before.recorders(), a, x),
        ServiceResource::Transcription(x) => law_remove_resource_then_lookup(before.transcriptions(), a, x),
    }
}

/// A resource that no instance manages goes to the least loaded instance
/// that accepts jobs: no instance that accepts jobs has a lower load, and
/// only among those of the same load does it have to manage the fewest
/// resources. When no instance accepts jobs there is no selection. An
/// instance that manages the resource already keeps it.
pub proof fn law_selection_least_load<T>(v: Seq<EntryView<T>>, r: T)
    ensures
        find_owner(v, r) matches Some(o) ==> table_select(v, r) == Some((v, o)),
        find_owner(v, r) is None ==> match table_select(v, r) {
            Some((nv, c)) => {
                &&& 0 <= c < v.len()
                &&& v[c].instance_data.metrics.accepting_jobs
                &&& forall|j: int| 0 <= j < v.len() && (#[trigger] v[j]).instance_data.metrics.accepting_jobs
                    ==> v[c].instance_data.metrics.load <= v[j].instance_data.metrics.load
                &&& forall|j: int| 0 <= j < v.len() && (#[trigger] v[j]).instance_data.metrics.accepting_jobs
                    && v[j].instance_data.metrics.load == v[c].instance_data.metrics.load
                    ==> v[c].resources.len() <= v[j].resources.len()
                &&& nv[c].resources == v[c].resources.push(r)
            },
            None => forall|j: int| 0 <= j < v.len() ==> !(#[trigger] v[j]).instance_data.metrics.accepting_jobs,
        },
{
    lemma_selection_index(v);
    if find_owner(v, r) is None {
        if let Some(c) = selection_index(v) {
            assert forall|j: int| 0 <= j < v.len() && (#[trigger] v[j]).instance_data.metrics.accepting_jobs implies
                v[c].instance_data.metrics.load <= v[j].instance_data.metrics.load by {
                assert(eligible(v[j]));
                assert(!better_entry(v[j], v[c]));
            }
            assert forall|j: int| 0 <= j < v.len() && (#[trigger] v[j]).instance_data.metrics.accepting_jobs
                && v[j].instance_data.metrics.load == v[c].instance_data.metrics.load implies
                v[c].resources.len() <= v[j].resources.len() by {
                assert(eligible(v[j]));
                assert(!better_entry(v[j], v[c]));
            }
        } else {
            assert forall|j: int| 0 <= j < v.len() implies !(#[trigger] v[j]).instance_data.metrics.accepting_jobs by {
                assert(!eligible(v[j]));
            }
        }
    }
}

/// A registration that goes through stores what the service reported:
/// under its address, the table of its kind holds its metrics and its api
/// key ids, as they were sent.
pub proof fn law_registration_stored_as_reported(
    before: LocalStorage,
    registration: ServiceRegistration,
    after: LocalStorage,
    r: Result<(), crate::storage::AddInstanceError>,
)
    requires
        add_instance_effect(before, registration, after, r),
        r is Ok,
    ensures
        ({
            let reported = Some(InstanceDataView {
                metrics: registration.metrics,
                api_key_ids: key_ids_view(registration.api_key_ids@),
            });
            let a = registration.address@.serialization;
            match registration.register_type {
                RegisterType::Recorder(_) => table_get(after.recorders(), a) == reported,
                RegisterType::Roomserver(_) => table_get(after.roomservers(), a) == reported,
                RegisterType::Transcription(_) => table_get(after.transcriptions(), a) == reported,
            }
        }),
{
    let data = crate::storage::local::registration_data(registration);
    match registration.register_type {
        RegisterType::Recorder(rr) => law_insert_then_get(before.recorders(), registration.address@, data, rr.rooms@),
        RegisterType::Roomserver(rr) => law_insert_then_get(before.roomservers(), registration.address@, data, rr.rooms@),
        RegisterType::Transcription(rt) => law_insert_then_get(before.transcriptions(), registration.address@, data, rt.rooms@),
    }
}

} // verus!
