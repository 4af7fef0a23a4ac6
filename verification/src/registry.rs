//! The registry of instances: which names are taken, by which handles, and
//! the ordered snapshot of everything that runs.

use dashmap::DashMap;
use vstd::prelude::*;

use crate::error::LaunchError;
use crate::instance::{InstanceHandle, InstanceHandleView, RunningInfo, RunningInfoView};
use crate::text::{
    lemma_name_lt_irreflexive, lemma_name_lt_total, lemma_name_lt_transitive, name_before, name_lt,
};

verus! {

/// `dashmap::DashMap`, the sharded concurrent hash map that backs the
/// registry. Verus sees nothing inside it. Its methods write through a
/// shared borrow; the registry hands it to the wrappers below by `&mut`
/// wherever they write, so that what a shared borrow sees stays as it is.
#[verifier::external_type_specification]
#[verifier::external_body]
#[verifier::reject_recursive_types(K)]
#[verifier::reject_recursive_types(V)]
#[verifier::reject_recursive_types(S)]
pub struct ExDashMap<K, V, S>(DashMap<K, V, S>);

/// The entries that a map of handles holds: each name that is present, with
/// the view of the handle stored under it.
pub uninterp spec fn dash_contents(map: DashMap<String, InstanceHandle>) -> Map<
    Seq<char>,
    InstanceHandleView,
>;

/// The entries of a registry that holds nothing.
pub open spec fn no_entries() -> Map<Seq<char>, InstanceHandleView> {
    Map::empty()
}

/// Whether `entries` holds exactly `n` entries.
pub open spec fn counts(entries: Map<Seq<char>, InstanceHandleView>, n: nat) -> bool {
    entries.dom().finite() && entries.dom().len() == n
}

/// `DashMap::new`: a map that holds no entry.
#[verifier::external_body]
fn dash_new() -> (map: DashMap<String, InstanceHandle>)
    ensures
        dash_contents(map) == no_entries(),
{
    DashMap::new()
}

/// `DashMap::len`: the number of entries that the map holds.
#[verifier::external_body]
fn dash_len(map: &DashMap<String, InstanceHandle>) -> (n: usize)
    ensures
        counts(dash_contents(*map), n as nat),
{
    map.len()
}

/// `DashMap::view`, asked for a copy of the handle: the handle that is
/// stored under `name`, or nothing where the name is absent.
#[verifier::external_body]
fn dash_get(map: &DashMap<String, InstanceHandle>, name: &str) -> (r: Option<InstanceHandle>)
    ensures
        r is Some <==> dash_contents(*map).contains_key(name@),
        r matches Some(handle) ==> handle@ == dash_contents(*map)[name@],
{
    map.view(name, |_, handle| handle.clone())
}

/// `DashMap::insert`: afterwards `name` maps to `handle` and every other
/// name is as before; the handle that `name` mapped to before is returned.
#[verifier::external_body]
fn dash_insert(
    map: &mut DashMap<String, InstanceHandle>,
    name: String,
    handle: InstanceHandle,
) -> (r: Option<InstanceHandle>)
    ensures
        dash_contents(*final(map)) == dash_contents(*old(map)).insert(name@, handle@),
        r is Some <==> dash_contents(*old(map)).contains_key(name@),
        r matches Some(previous) ==> previous@ == dash_contents(*old(map))[name@],
{
    map.insert(name, handle)
}

/// `DashMap::remove`: afterwards `name` is absent and every other name is
/// as before; the entry that was stored under `name` is returned.
#[verifier::external_body]
fn dash_remove(
    map: &mut DashMap<String, InstanceHandle>,
    name: &str,
) -> (r: Option<(String, InstanceHandle)>)
    ensures
        dash_contents(*final(map)) == dash_contents(*old(map)).remove(name@),
        r is Some <==> dash_contents(*old(map)).contains_key(name@),
        r matches Some(entry) ==> entry.0@ == name@ && entry.1@ == dash_contents(*old(map))[name@],
{
    map.remove(name)
}

/// `DashMap::iter`, walked to its end with a copy taken of every entry. The
/// iterator goes through the shards one after the other and through each
/// shard's table once, so every entry of the map comes out once; in which
/// order is not promised.
#[verifier::external_body]
fn dash_entries(map: &DashMap<String, InstanceHandle>) -> (r: Vec<(String, InstanceHandle)>)
    ensures
        forall|i: int|
            0 <= i < r@.len() ==> dash_contents(*map).contains_key(#[trigger] r@[i].0@) && r@[i].1@
                == dash_contents(*map)[r@[i].0@],
        forall|i: int, j: int|
            0 <= i < r@.len() && 0 <= j < r@.len() && i != j ==> #[trigger] r@[i].0@
                != #[trigger] r@[j].0@,
        forall|name: Seq<char>| #[trigger]
            dash_contents(*map).contains_key(name) ==> exists|i: int|
                0 <= i < r@.len() && #[trigger] r@[i].0@ == name,
{
    map.iter().map(|entry| copy_entry(entry.key(), entry.value())).collect()
}

fn copy_entry(name: &String, handle: &InstanceHandle) -> (r: (String, InstanceHandle))
    ensures
        r.0@ == name@,
        r.1@ == handle@,
{
    (name.clone(), handle.clone())
}

/// Whether registering under `name` conflicts with what `entries` holds:
/// the name is present and its instance is still live.
pub open spec fn conflicts(entries: Map<Seq<char>, InstanceHandleView>, name: Seq<char>) -> bool {
    entries.contains_key(name) && entries[name].is_live()
}

/// The views of a list of named status records, in the same order.
pub open spec fn snapshot_view(records: Seq<(String, RunningInfo)>) -> Seq<
    (Seq<char>, RunningInfoView),
> {
    Seq::new(records.len(), |i: int| (records[i].0@, records[i].1@))
}

/// Whether the names of `records` ascend strictly in byte-wise
/// lexicographic order.
pub open spec fn ascending(records: Seq<(Seq<char>, RunningInfoView)>) -> bool {
    forall|p: int, q: int|
        #![trigger records[p], records[q]]
        0 <= p < q < records.len() ==> name_lt(records[p].0, records[q].0)
}

/// Whether `records` is the snapshot of `entries`: it holds the status
/// record of every instance that has one, under the instance's name, it
/// holds nothing else, and its names ascend strictly.
pub open spec fn is_snapshot_of(
    records: Seq<(Seq<char>, RunningInfoView)>,
    entries: Map<Seq<char>, InstanceHandleView>,
) -> bool {
    &&& ascending(records)
    &&& forall|p: int|
        0 <= p < records.len() ==> entries.contains_key((#[trigger] records[p]).0)
            && entries[records[p].0].info() == Some(records[p].1)
    &&& forall|name: Seq<char>|
        entries.contains_key(name) && (#[trigger] entries[name]).info() is Some ==> exists|p: int|
            0 <= p < records.len() && (#[trigger] records[p]).0 == name
}

proof fn lemma_snapshot_without_last(
    records: Seq<(Seq<char>, RunningInfoView)>,
    entries: Map<Seq<char>, InstanceHandleView>,
)
    requires
        is_snapshot_of(records, entries),
        records.len() > 0,
    ensures
        is_snapshot_of(records.drop_last(), entries.remove(records.last().0)),
{
    let last = records.len() - 1;
    let rest = records.drop_last();
    let fewer = entries.remove(records.last().0);
    assert forall|p: int, q: int| 0 <= p < q < rest.len() implies name_lt(
        rest[p].0,
        rest[q].0,
    ) by {
        assert(name_lt(records[p].0, records[q].0));
    }
    assert forall|p: int| 0 <= p < rest.len() implies fewer.contains_key((#[trigger] rest[p]).0)
        && fewer[rest[p].0].info() == Some(rest[p].1) by {
        assert(name_lt(records[p].0, records[last].0));
        lemma_name_lt_irreflexive(records[p].0);
        assert(entries.contains_key(records[p].0));
    }
    assert forall|name: Seq<char>|
        fewer.contains_key(name) && (#[trigger] fewer[name]).info() is Some implies exists|p: int|
        0 <= p < rest.len() && (#[trigger] rest[p]).0 == name by {
        assert(entries[name].info() is Some);
        let p = choose|p: int| 0 <= p < records.len() && (#[trigger] records[p]).0 == name;
        assert(rest[p].0 == name);
    }
}

/// A registry has one snapshot only: two lists of records that are both
/// the snapshot of the same entries are equal.
pub proof fn lemma_snapshot_unique(
    a: Seq<(Seq<char>, RunningInfoView)>,
    b: Seq<(Seq<char>, RunningInfoView)>,
    entries: Map<Seq<char>, InstanceHandleView>,
)
    requires
        is_snapshot_of(a, entries),
        is_snapshot_of(b, entries),
    ensures
        a == b,
    decreases a.len(),
{
    if a.len() == 0 {
        if b.len() > 0 {
            assert(entries[b[0].0].info() is Some);
        }
        assert(a =~= b);
    } else {
        let la = a.len() - 1;
        assert(entries[a[la].0].info() is Some);
        let q = choose|q: int| 0 <= q < b.len() && (#[trigger] b[q]).0 == a[la].0;
        let lb = b.len() - 1;
        assert(entries[b[lb].0].info() is Some);
        let p = choose|p: int| 0 <= p < a.len() && (#[trigger] a[p]).0 == b[lb].0;
        if a[la].0 != b[lb].0 {
            assert(name_lt(b[q].0, b[lb].0));
            assert(name_lt(a[p].0, a[la].0));
            lemma_name_lt_transitive(a[la].0, b[lb].0, a[la].0);
            lemma_name_lt_irreflexive(a[la].0);
        }
        assert(a.last() == b.last());
        lemma_snapshot_without_last(a, entries);
        lemma_snapshot_without_last(b, entries);
        lemma_snapshot_unique(a.drop_last(), b.drop_last(), entries.remove(a.last().0));
        assert(a =~= a.drop_last().push(a.last()));
        assert(b =~= b.drop_last().push(b.last()));
    }
}

spec fn record_of(record: (String, RunningInfo), entry: (String, InstanceHandle)) -> bool {
    entry.0@ == record.0@ && entry.1@.info() == Some(record.1@)
}

spec fn has_source(
    record: (String, RunningInfo),
    entries: Seq<(String, InstanceHandle)>,
    n: int,
) -> bool {
    exists|e: int| 0 <= e < n && #[trigger] record_of(record, entries[e])
}

spec fn has_record(entry: (String, InstanceHandle), records: Seq<(String, RunningInfo)>) -> bool {
    exists|p: int| 0 <= p < records.len() && (#[trigger] records[p]).0@ == entry.0@
}

fn insert_ascending(
    out: &mut Vec<(String, RunningInfo)>,
    name: String,
    info: RunningInfo,
) -> (pos: usize)
    requires
        ascending(snapshot_view(old(out)@)),
        forall|p: int| 0 <= p < old(out)@.len() ==> (#[trigger] old(out)@[p]).0@ != name@,
    ensures
        ascending(snapshot_view(final(out)@)),
        pos <= old(out)@.len(),
        final(out)@ == old(out)@.insert(pos as int, (name, info)),
{
    let mut pos: usize = 0;
    while pos < out.len() && name_before(out[pos].0.as_str(), name.as_str())
        invariant
            pos <= out@.len(),
            out@ == old(out)@,
            forall|p: int| 0 <= p < pos ==> name_lt((#[trigger] out@[p]).0@, name@),
        decreases out@.len() - pos,
    {
        pos += 1;
    }
    proof {
        let before = snapshot_view(out@);
        let after = snapshot_view(out@.insert(pos as int, (name, info)));
        assert forall|p: int, q: int| 0 <= p < q < after.len() implies name_lt(
            after[p].0,
            after[q].0,
        ) by {
            let p_old = if p < pos {
                p
            } else {
                p - 1
            };
            let q_old = if q < pos {
                q
            } else {
                q - 1
            };
            if p != pos && q != pos {
                assert(name_lt(before[p_old].0, before[q_old].0));
            } else if q == pos {
                assert(name_lt(out@[p].0@, name@));
            } else {
                // p == pos: the name comes before what stood at pos, and so
                // before everything behind it
                assert(out@[pos as int].0@ != name@);
                lemma_name_lt_total(out@[pos as int].0@, name@);
                if q_old > pos {
                    assert(name_lt(before[pos as int].0, before[q_old].0));
                    lemma_name_lt_transitive(name@, out@[pos as int].0@, out@[q_old].0@);
                }
            }
        }
    }
    out.insert(pos, (name, info));
    pos
}

/// The entries after `handle` was registered under `name`: where that
/// conflicts, nothing changes, and elsewhere the name maps to the handle.
pub open spec fn registered(
    entries: Map<Seq<char>, InstanceHandleView>,
    name: Seq<char>,
    handle: InstanceHandleView,
) -> Map<Seq<char>, InstanceHandleView> {
    if conflicts(entries, name) {
        entries
    } else {
        entries.insert(name, handle)
    }
}

/// The registry of instances, by name.
pub struct Registry {
    entries: DashMap<String, InstanceHandle>,
}

impl View for Registry {
    type V = Map<Seq<char>, InstanceHandleView>;

    closed spec fn view(&self) -> Map<Seq<char>, InstanceHandleView> {
        dash_contents(self.entries)
    }
}

impl Registry {
    /// A registry without entries.
    pub fn new() -> (r: Registry)
        ensures
            r@ == no_entries(),
    {
        Registry { entries: dash_new() }
    }

    /// The number of entries.
    pub fn len(&self) -> (n: usize)
        ensures
            counts(self@, n as nat),
    {
        dash_len(&self.entries)
    }

    /// A copy of the handle that is registered under `name`.
    pub fn lookup(&self, name: &str) -> (r: Option<InstanceHandle>)
        ensures
            r is Some <==> self@.contains_key(name@),
            r matches Some(handle) ==> handle@ == self@[name@],
    {
        dash_get(&self.entries, name)
    }

    /// Registers `handle` under `name`. Where the name is taken by an
    /// instance that is still live, this fails with `Conflict` and changes
    /// nothing. Otherwise the name maps to `handle` from now on.
    pub fn register(&mut self, name: String, handle: InstanceHandle) -> (r: Result<(), LaunchError>)
        ensures
            r is Ok <==> !conflicts(old(self)@, name@),
            r matches Err(e) ==> e == LaunchError::Conflict,
            final(self)@ == registered(old(self)@, name@, handle@),
    {
        let taken = match dash_get(&self.entries, name.as_str()) {
            Some(present) => present.is_live(),
            None => false,
        };
        if taken {
            Err(LaunchError::Conflict)
        } else {
            let _ = dash_insert(&mut self.entries, name, handle);
            Ok(())
        }
    }

    /// The status record of every instance that has one, each under the
    /// name of its instance, sorted by name in byte-wise lexicographic
    /// order. An instance that was not started yet has no record and is
    /// left out.
    pub fn snapshot_all(&self) -> (records: Vec<(String, RunningInfo)>)
        ensures
            is_snapshot_of(snapshot_view(records@), self@),
    {
        let entries = dash_entries(&self.entries);
        let mut out: Vec<(String, RunningInfo)> = Vec::new();
        let mut i: usize = 0;
        while i < entries.len()
            invariant
                i <= entries@.len(),
                forall|a: int, b: int|
                    0 <= a < entries@.len() && 0 <= b < entries@.len() && a != b
                        ==> #[trigger] entries@[a].0@ != #[trigger] entries@[b].0@,
                ascending(snapshot_view(out@)),
                forall|p: int| 0 <= p < out@.len() ==> has_source(#[trigger] out@[p], entries@, i as int),
                forall|e: int|
                    0 <= e < i && entries@[e].1@.info() is Some ==> has_record(
                        #[trigger] entries@[e],
                        out@,
                    ),
            decreases entries@.len() - i,
        {
            match entries[i].1.running_info() {
                Some(info) => {
                    let name = entries[i].0.clone();
                    let ghost before = out@;
                    proof {
                        assert forall|p: int| 0 <= p < out@.len() implies (#[trigger] out@[p]).0@
                            != name@ by {
                            assert(has_source(out@[p], entries@, i as int));
                            let e = choose|e: int|
                                0 <= e < i && #[trigger] record_of(out@[p], entries@[e]);
                            assert(entries@[e].0@ != entries@[i as int].0@);
                        }
                    }
                    let pos = insert_ascending(&mut out, name, info);
                    proof {
                        assert(record_of(out@[pos as int], entries@[i as int]));
                        assert forall|p: int| 0 <= p < out@.len() implies has_source(
                            #[trigger] out@[p],
                            entries@,
                            i + 1,
                        ) by {
                            if p != pos {
                                let p_old = if p < pos {
                                    p
                                } else {
                                    p - 1
                                };
                                assert(out@[p] == before[p_old]);
                                assert(has_source(before[p_old], entries@, i as int));
                                let e = choose|e: int|
                                    0 <= e < i && #[trigger] record_of(before[p_old], entries@[e]);
                                assert(record_of(out@[p], entries@[e]));
                            }
                        }
                        assert forall|e: int|
                            0 <= e < i + 1 && entries@[e].1@.info() is Some implies has_record(
                            #[trigger] entries@[e],
                            out@,
                        ) by {
                            if e < i {
                                assert(has_record(entries@[e], before));
                                let p_old = choose|p: int|
                                    0 <= p < before.len() && (#[trigger] before[p]).0@
                                        == entries@[e].0@;
                                let p = if p_old < pos {
                                    p_old
                                } else {
                                    p_old + 1
                                };
                                assert(out@[p] == before[p_old]);
                            } else {
                                assert(out@[pos as int].0@ == entries@[e].0@);
                            }
                        }
                    }
                },
                None => {
                    proof {
                        assert forall|p: int| 0 <= p < out@.len() implies has_source(
                            #[trigger] out@[p],
                            entries@,
                            i + 1,
                        ) by {
                            assert(has_source(out@[p], entries@, i as int));
                            let e = choose|e: int|
                                0 <= e < i && #[trigger] record_of(out@[p], entries@[e]);
                            assert(record_of(out@[p], entries@[e]));
                        }
                    }
                },
            }
            i += 1;
        }
        proof {
            let records = snapshot_view(out@);
            assert forall|p: int| 0 <= p < records.len() implies self@.contains_key(
                (#[trigger] records[p]).0,
            ) && self@[records[p].0].info() == Some(records[p].1) by {
                assert(has_source(out@[p], entries@, i as int));
                let e = choose|e: int| 0 <= e < i && #[trigger] record_of(out@[p], entries@[e]);
                assert(self@.contains_key(entries@[e].0@));
            }
            assert forall|name: Seq<char>|
                self@.contains_key(name) && (#[trigger] self@[name]).info() is Some implies exists|
                p: int,
            | 0 <= p < records.len() && (#[trigger] records[p]).0 == name by {
                let e = choose|e: int| 0 <= e < entries@.len() && #[trigger] entries@[e].0@ == name;
                assert(self@.contains_key(entries@[e].0@));
                assert(has_record(entries@[e], out@));
                let p = choose|p: int|
                    0 <= p < out@.len() && (#[trigger] out@[p]).0@ == entries@[e].0@;
                assert(records[p].0 == name);
            }
        }
        out
    }

    /// Removes the entry of `name` and returns its handle, so that the name
    /// can be used again.
    pub fn remove(&mut self, name: &str) -> (r: Option<InstanceHandle>)
        ensures
            final(self)@ == old(self)@.remove(name@),
            r is Some <==> old(self)@.contains_key(name@),
            r matches Some(handle) ==> handle@ == old(self)@[name@],
    {
        match dash_remove(&mut self.entries, name) {
            Some(entry) => Some(entry.1),
            None => None,
        }
    }
}

/// The status of everything that runs: the snapshot of the registry. It
/// never fails.
pub fn collect_network_infos(registry: &Registry) -> (r: Result<Vec<(String, RunningInfo)>, String>)
    ensures
        r matches Ok(records) && is_snapshot_of(snapshot_view(records@), registry@),
{
    Ok(registry.snapshot_all())
}

} // verus!
