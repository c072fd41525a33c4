//! The registry of the instances of one service kind.
//!
//! A table holds one entry per registered instance: its address, its
//! instance data and the resources it manages. Addresses are unique, and a
//! resource is managed by at most one instance.
use vstd::prelude::*;

use crate::shared::error::RegistrationError;
use crate::shared::services::{InstanceData, InstanceDataView, ResourceType, ServiceState};
use crate::shared::Metrics;
use crate::url_model::{UrlView, WebUrl};

verus! {

/// The view of one registered instance.
#[verifier::reject_recursive_types(T)]
pub struct EntryView<T> {
    pub url: UrlView,
    pub instance_data: InstanceDataView,
    /// The managed resources, in the order they were added
    pub resources: Seq<T>,
}

/// Addresses are unique, no entry lists a resource twice, and no resource
/// is managed by two entries.
pub open spec fn entries_wf<T>(v: Seq<EntryView<T>>) -> bool {
    &&& forall|i: int, j: int|
        0 <= i < v.len() && 0 <= j < v.len() && i != j ==> #[trigger] v[i].url.serialization
            != #[trigger] v[j].url.serialization
    &&& forall|i: int| 0 <= i < v.len() ==> (#[trigger] v[i]).resources.no_duplicates()
    &&& forall|i: int, j: int, r: T|
        #![trigger v[i].resources.contains(r), v[j].resources.contains(r)]
        0 <= i < v.len() && 0 <= j < v.len() && i != j && v[i].resources.contains(r)
            ==> !v[j].resources.contains(r)
}

/// The index of the entry registered under address `a`.
pub open spec fn find_address<T>(v: Seq<EntryView<T>>, a: Seq<char>) -> Option<int> {
    if exists|i: int| 0 <= i < v.len() && v[i].url.serialization == a {
        Some(choose|i: int| 0 <= i < v.len() && v[i].url.serialization == a)
    } else {
        None
    }
}

/// The index of the entry that manages resource `r`.
pub open spec fn find_owner<T>(v: Seq<EntryView<T>>, r: T) -> Option<int> {
    if exists|i: int| 0 <= i < v.len() && v[i].resources.contains(r) {
        Some(choose|i: int| 0 <= i < v.len() && v[i].resources.contains(r))
    } else {
        None
    }
}

/// `s` with every repeated element dropped, first occurrences kept in order.
pub open spec fn dedup<T>(s: Seq<T>) -> Seq<T>
    decreases s.len(),
{
    if s.len() == 0 {
        s
    } else {
        let d = dedup(s.drop_last());
        if d.contains(s.last()) {
            d
        } else {
            d.push(s.last())
        }
    }
}

/// Some resource in `resources` is already managed by an entry of `v`.
pub open spec fn resource_taken<T>(v: Seq<EntryView<T>>, resources: Seq<T>) -> bool {
    exists|k: int, i: int|
        0 <= k < resources.len() && 0 <= i < v.len() && v[i].resources.contains(resources[k])
}

/// Registering an instance: refused when one of its resources is managed
/// already, or else when its address is in use; otherwise it is appended.
pub open spec fn table_insert<T>(
    v: Seq<EntryView<T>>,
    url: UrlView,
    data: InstanceDataView,
    resources: Seq<T>,
) -> (Seq<EntryView<T>>, Result<(), RegistrationError>) {
    if resource_taken(v, resources) {
        (v, Err(RegistrationError::ResourceAlreadyExists))
    } else if find_address(v, url.serialization) is Some {
        (v, Err(RegistrationError::AddressAlreadyInUse))
    } else {
        (v.push(EntryView { url, instance_data: data, resources: dedup(resources) }), Ok(()))
    }
}

/// The instance data registered under address `a`.
pub open spec fn table_get<T>(v: Seq<EntryView<T>>, a: Seq<char>) -> Option<InstanceDataView> {
    match find_address(v, a) {
        Some(i) => Some(v[i].instance_data),
        None => None,
    }
}

/// The address and data of the instance that manages `r`.
pub open spec fn table_lookup<T>(v: Seq<EntryView<T>>, r: T) -> Option<(UrlView, InstanceDataView)> {
    match find_owner(v, r) {
        Some(i) => Some((v[i].url, v[i].instance_data)),
        None => None,
    }
}

/// The registry without the instance registered under `a`.
pub open spec fn table_remove<T>(v: Seq<EntryView<T>>, a: Seq<char>) -> Seq<EntryView<T>> {
    match find_address(v, a) {
        Some(i) => v.remove(i),
        None => v,
    }
}

/// `s` without the element `r`.
pub open spec fn remove_item<T>(s: Seq<T>, r: T) -> Seq<T> {
    if s.contains(r) {
        s.remove(s.index_of(r))
    } else {
        s
    }
}

/// The registry where the instance under `a` no longer manages `r`.
pub open spec fn table_remove_resource<T>(v: Seq<EntryView<T>>, a: Seq<char>, r: T) -> Seq<EntryView<T>> {
    match find_address(v, a) {
        Some(i) => v.update(i, EntryView { resources: remove_item(v[i].resources, r), ..v[i] }),
        None => v,
    }
}

/// The registry where the instance under `a` has metrics `m`; `None` when
/// no instance is registered under `a`.
pub open spec fn table_set_metrics<T>(v: Seq<EntryView<T>>, a: Seq<char>, m: Metrics) -> Option<Seq<EntryView<T>>> {
    match find_address(v, a) {
        Some(i) => Some(
            v.update(
                i,
                EntryView { instance_data: InstanceDataView { metrics: m, ..v[i].instance_data }, ..v[i] },
            ),
        ),
        None => None,
    }
}

/// `(load_a, count_a)` comes before `(load_b, count_b)`: a lower load, or
/// the same load and fewer managed resources.
pub open spec fn lex_better(load_a: int, count_a: int, load_b: int, count_b: int) -> bool {
    load_a < load_b || (load_a == load_b && count_a < count_b)
}

/// Entry `a` is a better choice than entry `b`.
pub open spec fn better_entry<T>(a: EntryView<T>, b: EntryView<T>) -> bool {
    lex_better(
        a.instance_data.metrics.load as int,
        a.resources.len() as int,
        b.instance_data.metrics.load as int,
        b.resources.len() as int,
    )
}

/// An instance that may be given a new resource: one that accepts jobs,
/// whatever its load.
pub open spec fn eligible<T>(e: EntryView<T>) -> bool {
    e.instance_data.metrics.accepting_jobs
}

/// The choice among the first `n` entries: the first eligible entry that
/// no later eligible entry improves on.
pub open spec fn best_in_prefix<T>(v: Seq<EntryView<T>>, n: int) -> Option<int>
    decreases n,
{
    if n <= 0 {
        None
    } else {
        let b = best_in_prefix(v, n - 1);
        if eligible(v[n - 1]) && (b is None || better_entry(v[n - 1], v[b->0])) {
            Some(n - 1)
        } else {
            b
        }
    }
}

/// The entry that is given a resource that no entry manages yet.
pub open spec fn selection_index<T>(v: Seq<EntryView<T>>) -> Option<int> {
    best_in_prefix(v, v.len() as int)
}

/// Selecting the instance for `r`: its owner if it has one; else the
/// selected entry, which then manages `r`. Gives the new registry and the
/// index of the instance; `None` when no instance can take `r`.
pub open spec fn table_select<T>(v: Seq<EntryView<T>>, r: T) -> Option<(Seq<EntryView<T>>, int)> {
    match find_owner(v, r) {
        Some(i) => Some((v, i)),
        None => match selection_index(v) {
            Some(c) => Some((v.update(c, EntryView { resources: v[c].resources.push(r), ..v[c] }), c)),
            None => None,
        },
    }
}

pub proof fn lemma_dedup<T>(s: Seq<T>)
    ensures
        dedup(s).no_duplicates(),
        forall|x: T| dedup(s).contains(x) <==> s.contains(x),
    decreases s.len(),
{
    if s.len() > 0 {
        let t = s.drop_last();
        lemma_dedup(t);
        let d = dedup(t);
        assert forall|x: T| s.contains(x) <==> (t.contains(x) || x == s.last()) by {
            if s.contains(x) {
                let k = choose|k: int| 0 <= k < s.len() && s[k] == x;
                if k < s.len() - 1 {
                    assert(t[k] == x);
                }
            }
            if t.contains(x) {
                let k = choose|k: int| 0 <= k < t.len() && t[k] == x;
                assert(s[k] == x);
            }
            if x == s.last() {
                assert(s[s.len() - 1] == x);
            }
        }
        if !d.contains(s.last()) {
            let e = d.push(s.last());
            assert forall|x: T| e.contains(x) <==> (d.contains(x) || x == s.last()) by {
                if e.contains(x) {
                    let k = choose|k: int| 0 <= k < e.len() && e[k] == x;
                    if k < d.len() {
                        assert(d[k] == x);
                    }
                }
                if d.contains(x) {
                    let k = choose|k: int| 0 <= k < d.len() && d[k] == x;
                    assert(e[k] == x);
                }
                if x == s.last() {
                    assert(e[d.len() as int] == x);
                }
            }
            assert forall|i: int, j: int| 0 <= i < e.len() && 0 <= j < e.len() && i != j implies e[i]
                != e[j] by {
                if i < d.len() && j < d.len() {
                } else if i < d.len() {
                    assert(e[i] == d[i]);
                    assert(d.contains(d[i]));
                } else {
                    assert(e[j] == d[j]);
                    assert(d.contains(d[j]));
                }
            }
        }
    }
}

/// The selection is the first entry of least load and, at that load, of
/// fewest resources, among the eligible ones; there is none exactly when no
/// entry is eligible.
pub proof fn lemma_best_in_prefix<T>(v: Seq<EntryView<T>>, n: int)
    requires
        0 <= n <= v.len(),
    ensures
        match best_in_prefix(v, n) {
            Some(c) => {
                &&& 0 <= c < n
                &&& eligible(v[c])
                &&& forall|j: int| 0 <= j < n && eligible(v[j]) ==> !better_entry(v[j], v[c])
                &&& forall|j: int| 0 <= j < c && eligible(v[j]) ==> better_entry(v[c], v[j])
            },
            None => forall|j: int| 0 <= j < n ==> !eligible(v[j]),
        },
    decreases n,
{
    if n > 0 {
        lemma_best_in_prefix(v, n - 1);
    }
}

/// Selection picks the least loaded eligible instance, breaking ties by the
/// fewest managed resources and then by registration order; when no
/// instance is eligible there is no selection.
pub proof fn lemma_selection_index<T>(v: Seq<EntryView<T>>)
    ensures
        match selection_index(v) {
            Some(c) => {
                &&& 0 <= c < v.len()
                &&& eligible(v[c])
                &&& forall|j: int| 0 <= j < v.len() && eligible(v[j]) ==> !better_entry(v[j], v[c])
                &&& forall|j: int| 0 <= j < c && eligible(v[j]) ==> better_entry(v[c], v[j])
            },
            None => forall|j: int| 0 <= j < v.len() ==> !eligible(v[j]),
        },
{
    lemma_best_in_prefix(v, v.len() as int);
}

/// One entry of the registry.
pub struct ServiceEntry<T: ResourceType> {
    pub address: WebUrl,
    pub state: ServiceState<T>,
}

impl<T: ResourceType> View for ServiceEntry<T> {
    type V = EntryView<T>;

    open spec fn view(&self) -> EntryView<T> {
        EntryView {
            url: self.address@,
            instance_data: self.state.instance_data@,
            resources: self.state.managed_resources@,
        }
    }
}

/// The registered instances of one service kind.
pub struct ServiceTable<T: ResourceType> {
    entries: Vec<ServiceEntry<T>>,
}

impl<T: ResourceType> View for ServiceTable<T> {
    type V = Seq<EntryView<T>>;

    closed spec fn view(&self) -> Seq<EntryView<T>> {
        Seq::new(self.entries@.len(), |i: int| self.entries@[i]@)
    }
}

impl<T: ResourceType> ServiceTable<T> {
    /// The table is well formed.
    pub open spec fn wf(&self) -> bool {
        entries_wf(self@)
    }

    /// An empty table.
    pub fn new() -> (t: ServiceTable<T>)
        ensures
            t@ == Seq::<EntryView<T>>::empty(),
            t.wf(),
    {
        let t = ServiceTable { entries: Vec::new() };
        assert(t@ =~= Seq::<EntryView<T>>::empty());
        t
    }

    /// The number of registered instances.
    pub fn len(&self) -> (n: usize)
        ensures
            n == self@.len(),
    {
        self.entries.len()
    }

    /// The index of the instance registered under `url`.
    fn find_index(&self, url: &WebUrl) -> (r: Option<usize>)
        requires
            self.wf(),
        ensures
            match r {
                Some(i) => find_address(self@, url@.serialization) == Some(i as int),
                None => find_address(self@, url@.serialization) is None,
            },
    {
        let ghost v = self@;
        let mut i: usize = 0;
        while i < self.entries.len()
            invariant
                v == self@,
                entries_wf(v),
                i <= v.len(),
                forall|j: int| 0 <= j < i ==> v[j].url.serialization != url@.serialization,
            decreases self.entries.len() - i,
        {
            if self.entries[i].address.same(url) {
                assert(v[i as int].url.serialization == url@.serialization);
                let ghost c = choose|c: int| 0 <= c < v.len() && v[c].url.serialization == url@.serialization;
                assert(c == i) by {
                    if c != i {
                        assert(v[c].url.serialization != v[i as int].url.serialization);
                    }
                }
                return Some(i);
            }
            i = i + 1;
        }
        None
    }

    /// The index of the instance that manages `resource`.
    fn find_owner_index(&self, resource: &T) -> (r: Option<usize>)
        requires
            self.wf(),
        ensures
            match r {
                Some(i) => find_owner(self@, *resource) == Some(i as int),
                None => find_owner(self@, *resource) is None,
            },
    {
        let ghost v = self@;
        let mut i: usize = 0;
        while i < self.entries.len()
            invariant
                v == self@,
                entries_wf(v),
                i <= v.len(),
                forall|j: int| 0 <= j < i ==> !v[j].resources.contains(*resource),
            decreases self.entries.len() - i,
        {
            if self.entries[i].state.manages(resource) {
                assert(v[i as int].resources.contains(*resource));
                let ghost c = choose|c: int| 0 <= c < v.len() && v[c].resources.contains(*resource);
                assert(c == i) by {
                    if c != i {
                        assert(v[c].resources.contains(*resource));
                        assert(!v[i as int].resources.contains(*resource));
                    }
                }
                return Some(i);
            }
            i = i + 1;
        }
        None
    }

    /// Whether some resource of `resources` is managed already.
    fn any_taken(&self, resources: &Vec<T>) -> (b: bool)
        requires
            self.wf(),
        ensures
            b == resource_taken(self@, resources@),
    {
        let mut k: usize = 0;
        while k < resources.len()
            invariant
                self.wf(),
                k <= resources.len(),
                forall|kk: int, i: int|
                    0 <= kk < k && 0 <= i < self@.len() ==> !self@[i].resources.contains(resources@[kk]),
            decreases resources.len() - k,
        {
            if self.find_owner_index(&resources[k]).is_some() {
                return true;
            }
            k = k + 1;
        }
        false
    }

    /// Registers an instance (see [`table_insert`]).
    pub fn insert(&mut self, address: WebUrl, instance_data: InstanceData, resources: Vec<T>) -> (r: Result<(), RegistrationError>)
        requires
            old(self).wf(),
        ensures
            final(self).wf(),
            (final(self)@, r) == table_insert(old(self)@, address@, instance_data@, resources@),
    {
        if self.any_taken(&resources) {
            return Err(RegistrationError::ResourceAlreadyExists);
        }
        if self.find_index(&address).is_some() {
            return Err(RegistrationError::AddressAlreadyInUse);
        }
        let managed = dedup_vec(&resources);
        let ghost old_v = self@;
        let entry = ServiceEntry { address, state: ServiceState { instance_data, managed_resources: managed } };
        self.entries.push(entry);
        proof {
            let nv = self@;
            assert(nv =~= old_v.push(entry@));
            lemma_dedup(resources@);
            assert(!resource_taken(old_v, resources@));
            assert forall|i: int, j: int, r: T|
                #![trigger nv[i].resources.contains(r), nv[j].resources.contains(r)]
                0 <= i < nv.len() && 0 <= j < nv.len() && i != j && nv[i].resources.contains(r)
                    implies !nv[j].resources.contains(r) by {
                let n = old_v.len() as int;
                if i == n {
                    assert(resources@.contains(r));
                    let k = choose|k: int| 0 <= k < resources@.len() && resources@[k] == r;
                    assert(!old_v[j].resources.contains(resources@[k]));
                } else if j == n {
                    if nv[j].resources.contains(r) {
                        assert(resources@.contains(r));
                        let k = choose|k: int| 0 <= k < resources@.len() && resources@[k] == r;
                        assert(old_v[i].resources.contains(resources@[k]));
                    }
                } else {
                    assert(nv[i] == old_v[i]);
                    assert(nv[j] == old_v[j]);
                }
            }
            assert forall|i: int, j: int|
                0 <= i < nv.len() && 0 <= j < nv.len() && i != j implies #[trigger] nv[i].url.serialization
                    != #[trigger] nv[j].url.serialization by {
                let n = old_v.len() as int;
                if i == n {
                    assert(old_v[j].url.serialization != address@.serialization);
                } else if j == n {
                    assert(old_v[i].url.serialization != address@.serialization);
                }
            }
        }
        Ok(())
    }

    /// The instance data registered under `url`.
    pub fn get(&self, url: &WebUrl) -> (r: Option<InstanceData>)
        requires
            self.wf(),
        ensures
            match r {
                Some(d) => table_get(self@, url@.serialization) == Some(d@),
                None => table_get(self@, url@.serialization) is None,
            },
    {
        match self.find_index(url) {
            Some(i) => Some(self.entries[i].state.instance_data.duplicate()),
            None => None,
        }
    }

    /// The address and data of the instance that manages `resource`.
    pub fn lookup(&self, resource: &T) -> (r: Option<(WebUrl, InstanceData)>)
        requires
            self.wf(),
        ensures
            match r {
                Some(p) => table_lookup(self@, *resource) == Some((p.0@, p.1@)),
                None => table_lookup(self@, *resource) is None,
            },
    {
        match self.find_owner_index(resource) {
            Some(i) => Some((self.entries[i].address.duplicate(), self.entries[i].state.instance_data.duplicate())),
            None => None,
        }
    }

    /// Unregisters the instance under `url` (see [`table_remove`]).
    pub fn remove(&mut self, url: &WebUrl)
        requires
            old(self).wf(),
        ensures
            final(self).wf(),
            final(self)@ == table_remove(old(self)@, url@.serialization),
    {
        let ghost old_v = self@;
        match self.find_index(url) {
            Some(i) => {
                let _ = self.entries.remove(i);
                proof {
                    let nv = self@;
                    assert(nv =~= old_v.remove(i as int));
                    assert forall|a: int, b: int, r: T|
                        #![trigger nv[a].resources.contains(r), nv[b].resources.contains(r)]
                        0 <= a < nv.len() && 0 <= b < nv.len() && a != b && nv[a].resources.contains(r)
                            implies !nv[b].resources.contains(r) by {
                        let oa = if a < i { a } else { a + 1 };
                        let ob = if b < i { b } else { b + 1 };
                        assert(nv[a] == old_v[oa]);
                        assert(nv[b] == old_v[ob]);
                    }
                    assert forall|a: int, b: int|
                        0 <= a < nv.len() && 0 <= b < nv.len() && a != b implies #[trigger] nv[a].url.serialization
                            != #[trigger] nv[b].url.serialization by {
                        let oa = if a < i { a } else { a + 1 };
                        let ob = if b < i { b } else { b + 1 };
                        assert(nv[a] == old_v[oa]);
                        assert(nv[b] == old_v[ob]);
                    }
                    assert forall|a: int| 0 <= a < nv.len() implies (#[trigger] nv[a]).resources.no_duplicates() by {
                        let oa = if a < i { a } else { a + 1 };
                        assert(nv[a] == old_v[oa]);
                    }
                }
            },
            None => {},
        }
    }

    /// Replaces the metrics of the instance under `url`; returns whether
    /// such an instance is registered (see [`table_set_metrics`]).
    pub fn set_metrics(&mut self, url: &WebUrl, metrics: Metrics) -> (found: bool)
        requires
            old(self).wf(),
        ensures
            final(self).wf(),
            match table_set_metrics(old(self)@, url@.serialization, metrics) {
                Some(nv) => found && final(self)@ == nv,
                None => !found && final(self)@ == old(self)@,
            },
    {
        let ghost old_v = self@;
        match self.find_index(url) {
            Some(i) => {
                self.entries[i].state.set_metrics(metrics);
                proof {
                    let nv = self@;
                    let expected = old_v.update(
                        i as int,
                        EntryView {
                            instance_data: InstanceDataView { metrics, ..old_v[i as int].instance_data },
                            ..old_v[i as int]
                        },
                    );
                    assert(nv =~= expected);
                    assert forall|a: int, b: int, r: T|
                        #![trigger nv[a].resources.contains(r), nv[b].resources.contains(r)]
                        0 <= a < nv.len() && 0 <= b < nv.len() && a != b && nv[a].resources.contains(r)
                            implies !nv[b].resources.contains(r) by {
                        assert(nv[a].resources == old_v[a].resources);
                        assert(nv[b].resources == old_v[b].resources);
                    }
                    assert forall|a: int, b: int|
                        0 <= a < nv.len() && 0 <= b < nv.len() && a != b implies #[trigger] nv[a].url.serialization
                            != #[trigger] nv[b].url.serialization by {
                        assert(nv[a].url == old_v[a].url);
                        assert(nv[b].url == old_v[b].url);
                    }
                    assert forall|a: int| 0 <= a < nv.len() implies (#[trigger] nv[a]).resources.no_duplicates() by {
                        assert(nv[a].resources == old_v[a].resources);
                    }
                }
                true
            },
            None => false,
        }
    }

    /// The instance under `url` no longer manages `resource` (see [`table_remove_resource`]).
    pub fn remove_resource(&mut self, url: &WebUrl, resource: &T)
        requires
            old(self).wf(),
        ensures
            final(self).wf(),
            final(self)@ == table_remove_resource(old(self)@, url@.serialization, *resource),
    {
        let ghost old_v = self@;
        match self.find_index(url) {
            Some(i) => {
                let ghost old_res = old_v[i as int].resources;
                let pos = position_of(&self.entries[i].state.managed_resources, resource);
                match pos {
                    Some(k) => {
                        let _ = self.entries[i].state.managed_resources.remove(k);
                        proof {
                            assert(old_res.no_duplicates());
                            assert(old_res.contains(*resource));
                            let ix = old_res.index_of(*resource);
                            assert(old_res[ix] == *resource);
                            assert(ix == k) by {
                                if ix != k {
                                    assert(old_res[ix] == old_res[k as int]);
                                }
                            }
                        }
                    },
                    None => {},
                }
                proof {
                    let nv = self@;
                    let new_res = remove_item(old_res, *resource);
                    assert(nv =~= old_v.update(i as int, EntryView { resources: new_res, ..old_v[i as int] }));
                    assert forall|x: T| new_res.contains(x) implies old_res.contains(x) by {
                        if old_res.contains(*resource) {
                            let kk = choose|kk: int| 0 <= kk < new_res.len() && new_res[kk] == x;
                            let ix = old_res.index_of(*resource);
                            if kk < ix {
                                assert(old_res[kk] == x);
                            } else {
                                assert(old_res[kk + 1] == x);
                            }
                        }
                    }
                    assert(new_res.no_duplicates()) by {
                        if old_res.contains(*resource) {
                            let ix = old_res.index_of(*resource);
                            assert forall|a: int, b: int| 0 <= a < new_res.len() && 0 <= b < new_res.len() && a != b
                                implies new_res[a] != new_res[b] by {
                                let oa = if a < ix { a } else { a + 1 };
                                let ob = if b < ix { b } else { b + 1 };
                                assert(new_res[a] == old_res[oa]);
                                assert(new_res[b] == old_res[ob]);
                            }
                        }
                    }
                    assert forall|a: int, b: int, r: T|
                        #![trigger nv[a].resources.contains(r), nv[b].resources.contains(r)]
                        0 <= a < nv.len() && 0 <= b < nv.len() && a != b && nv[a].resources.contains(r)
                            implies !nv[b].resources.contains(r) by {
                        if a == i {
                            assert(old_v[a].resources.contains(r));
                        } else {
                            assert(nv[a] == old_v[a]);
                        }
                        if b == i {
                            if nv[b].resources.contains(r) {
                                assert(old_v[b].resources.contains(r));
                            }
                        } else {
                            assert(nv[b] == old_v[b]);
                        }
                    }
                    assert forall|a: int, b: int|
                        0 <= a < nv.len() && 0 <= b < nv.len() && a != b implies #[trigger] nv[a].url.serialization
                            != #[trigger] nv[b].url.serialization by {
                        assert(nv[a].url == old_v[a].url);
                        assert(nv[b].url == old_v[b].url);
                    }
                    assert forall|a: int| 0 <= a < nv.len() implies (#[trigger] nv[a]).resources.no_duplicates() by {
                        if a != i {
                            assert(nv[a] == old_v[a]);
                        }
                    }
                }
            },
            None => {},
        }
    }

    /// The index of the entry chosen for a resource that no entry manages
    /// (see [`selection_index`]).
    fn select_index(&self) -> (r: Option<usize>)
        ensures
            match r {
                Some(c) => selection_index(self@) == Some(c as int),
                None => selection_index(self@) is None,
            },
    {
        let ghost v = self@;
        let mut best: Option<usize> = None;
        let mut best_load: u8 = 0;
        let mut best_count: usize = 0;
        let mut i: usize = 0;
        while i < self.entries.len()
            invariant
                v == self@,
                i <= v.len(),
                match best {
                    Some(b) => best_in_prefix(v, i as int) == Some(b as int) && b < i
                        && best_load == v[b as int].instance_data.metrics.load
                        && best_count == v[b as int].resources.len(),
                    None => best_in_prefix(v, i as int) is None,
                },
            decreases self.entries.len() - i,
        {
            let metrics = self.entries[i].state.instance_data.metrics;
            let count = self.entries[i].state.managed_resources.len();
            proof {
                lemma_best_in_prefix(v, i as int);
                assert(v[i as int].instance_data.metrics == metrics);
                assert(v[i as int].resources.len() == count);
            }
            if metrics.accepting_jobs {
                let improves = match best {
                    None => true,
                    Some(_) => metrics.load < best_load || (metrics.load == best_load && count < best_count),
                };
                if improves {
                    best = Some(i);
                    best_load = metrics.load;
                    best_count = count;
                }
            }
            i = i + 1;
        }
        best
    }

    /// Selects the instance for `resource` (see [`table_select`]): gives its
    /// address and its data as they were before the call.
    pub fn select(&mut self, resource: T) -> (r: Option<(WebUrl, InstanceData)>)
        requires
            old(self).wf(),
        ensures
            final(self).wf(),
            match table_select(old(self)@, resource) {
                Some((nv, c)) => final(self)@ == nv && (r matches Some(p) && p.0@ == old(self)@[c].url
                    && p.1@ == old(self)@[c].instance_data),
                None => r is None && final(self)@ == old(self)@,
            },
    {
        let ghost old_v = self@;
        if let Some(i) = self.find_owner_index(&resource) {
            return Some((self.entries[i].address.duplicate(), self.entries[i].state.instance_data.duplicate()));
        }
        match self.select_index() {
            Some(c) => {
                proof {
                    lemma_selection_index(old_v);
                }
                let address = self.entries[c].address.duplicate();
                let data = self.entries[c].state.instance_data.duplicate();
                self.entries[c].state.managed_resources.push(resource);
                proof {
                    let nv = self@;
                    let old_res = old_v[c as int].resources;
                    let new_res = old_res.push(resource);
                    assert(nv =~= old_v.update(c as int, EntryView { resources: new_res, ..old_v[c as int] }));
                    assert(find_owner(old_v, resource) is None);
                    assert forall|a: int| 0 <= a < old_v.len() implies !(#[trigger] old_v[a]).resources.contains(resource) by {
                        if old_v[a].resources.contains(resource) {
                            assert(exists|j: int| 0 <= j < old_v.len() && old_v[j].resources.contains(resource));
                        }
                    }
                    assert forall|x: T| new_res.contains(x) <==> (old_res.contains(x) || x == resource) by {
                        if new_res.contains(x) {
                            let kk = choose|kk: int| 0 <= kk < new_res.len() && new_res[kk] == x;
                            if kk < old_res.len() {
                                assert(old_res[kk] == x);
                            }
                        }
                        if old_res.contains(x) {
                            let kk = choose|kk: int| 0 <= kk < old_res.len() && old_res[kk] == x;
                            assert(new_res[kk] == x);
                        }
                        if x == resource {
                            assert(new_res[old_res.len() as int] == x);
                        }
                    }
                    assert(new_res.no_duplicates()) by {
                        assert(old_v[c as int].resources.no_duplicates());
                        assert(!old_res.contains(resource));
                        assert forall|a: int, b: int| 0 <= a < new_res.len() && 0 <= b < new_res.len() && a != b
                            implies new_res[a] != new_res[b] by {
                            if a < old_res.len() && b < old_res.len() {
                            } else if a < old_res.len() {
                                assert(new_res[a] == old_res[a]);
                                assert(old_res.contains(old_res[a]));
                            } else {
                                assert(new_res[b] == old_res[b]);
                                assert(old_res.contains(old_res[b]));
                            }
                        }
                    }
                    assert forall|a: int, b: int, r: T|
                        #![trigger nv[a].resources.contains(r), nv[b].resources.contains(r)]
                        0 <= a < nv.len() && 0 <= b < nv.len() && a != b && nv[a].resources.contains(r)
                            implies !nv[b].resources.contains(r) by {
                        if a == c {
                            if r == resource {
                                assert(!old_v[b].resources.contains(resource));
                                assert(nv[b] == old_v[b]);
                            } else {
                                assert(old_v[a].resources.contains(r));
                                assert(nv[b] == old_v[b]);
                            }
                        } else if b == c {
                            assert(nv[a] == old_v[a]);
                            if r == resource {
                                assert(!old_v[a].resources.contains(resource));
                            } else if nv[b].resources.contains(r) {
                                assert(old_v[b].resources.contains(r));
                            }
                        } else {
                            assert(nv[a] == old_v[a]);
                            assert(nv[b] == old_v[b]);
                        }
                    }
                    assert forall|a: int, b: int|
                        0 <= a < nv.len() && 0 <= b < nv.len() && a != b implies #[trigger] nv[a].url.serialization
                            != #[trigger] nv[b].url.serialization by {
                        assert(nv[a].url == old_v[a].url);
                        assert(nv[b].url == old_v[b].url);
                    }
                    assert forall|a: int| 0 <= a < nv.len() implies (#[trigger] nv[a]).resources.no_duplicates() by {
                        if a != c {
                            assert(nv[a] == old_v[a]);
                        }
                    }
                }
                Some((address, data))
            },
            None => None,
        }
    }

    /// A copy of every registered instance with its state.
    pub fn snapshot(&self) -> (r: Vec<(WebUrl, ServiceState<T>)>)
        ensures
            r@.len() == self@.len(),
            forall|i: int|
                0 <= i < r@.len() ==> (#[trigger] r@[i]).0@ == self@[i].url && r@[i].1.instance_data@
                    == self@[i].instance_data && r@[i].1.managed_resources@ == self@[i].resources,
    {
        let mut r: Vec<(WebUrl, ServiceState<T>)> = Vec::new();
        let mut i: usize = 0;
        while i < self.entries.len()
            invariant
                i <= self@.len(),
                r@.len() == i,
                forall|j: int|
                    0 <= j < i ==> (#[trigger] r@[j]).0@ == self@[j].url && r@[j].1.instance_data@
                        == self@[j].instance_data && r@[j].1.managed_resources@ == self@[j].resources,
            decreases self.entries.len() - i,
        {
            r.push((self.entries[i].address.duplicate(), self.entries[i].state.duplicate()));
            i = i + 1;
        }
        r
    }
}

/// `resources` with repeated elements dropped.
pub(crate) fn dedup_vec<T: ResourceType>(resources: &Vec<T>) -> (r: Vec<T>)
    ensures
        r@ == dedup(resources@),
{
    let mut r: Vec<T> = Vec::new();
    let mut i: usize = 0;
    while i < resources.len()
        invariant
            i <= resources.len(),
            r@ == dedup(resources@.subrange(0, i as int)),
        decreases resources.len() - i,
    {
        let ghost prefix = resources@.subrange(0, i as int + 1);
        assert(prefix.drop_last() =~= resources@.subrange(0, i as int));
        assert(prefix.last() == resources@[i as int]);
        if position_of(&r, &resources[i]).is_none() {
            r.push(resources[i]);
        }
        i = i + 1;
    }
    assert(resources@.subrange(0, resources@.len() as int) =~= resources@);
    r
}

/// The index of `x` in `s`.
fn position_of<T: ResourceType>(s: &Vec<T>, x: &T) -> (r: Option<usize>)
    ensures
        match r {
            Some(k) => k < s@.len() && s@[k as int] == *x,
            None => !s@.contains(*x),
        },
{
    let mut i: usize = 0;
    while i < s.len()
        invariant
            i <= s.len(),
            forall|j: int| 0 <= j < i ==> s@[j] != *x,
        decreases s.len() - i,
    {
        if s[i].same(x) {
            return Some(i);
        }
        i = i + 1;
    }
    None
}

} // verus!
