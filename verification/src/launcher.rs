//! The launch protocol: from a configuration and a name to a registered,
//! running instance, and from its termination to a free name.
//!
//! A launch goes through three steps, and the host does the work between
//! them. [`begin_launch`] checks the name and makes the handle; the host
//! then starts the instance. [`PendingLaunch::started`] registers the
//! handle as soon as the instance runs; the host then relays its events and
//! waits for it to terminate. [`RunningLaunch::terminated`] frees the name
//! and gives the result of the launch.

use vstd::prelude::*;
use vstd::set_lib::lemma_subset_equality;

use crate::config::{Config, ConfigView};
use crate::error::LaunchError;
use crate::instance::{InstanceHandle, InstanceHandleView, InstanceStateView, RunningInfoView};
use crate::registry::{
    ascending, conflicts, counts, is_snapshot_of, lemma_snapshot_unique, no_entries, registered,
    Registry,
};
use crate::text::{lemma_name_lt_irreflexive, name_lt};

verus! {

/// An instance name is valid if it is not empty.
pub open spec fn valid_name(name: Seq<char>) -> bool {
    name.len() > 0
}

/// The handle of an instance that was made from `config` and has started.
pub open spec fn running_handle(config: ConfigView) -> InstanceHandleView {
    InstanceHandleView { config, state: InstanceStateView::Running }
}

/// The status record of a running instance that was made from `config`.
pub open spec fn running_info(config: ConfigView) -> RunningInfoView {
    RunningInfoView { instance_name: config.instance_name, running: true, error_msg: None }
}

/// A launch whose name was accepted and whose instance is about to start.
#[derive(Debug)]
pub struct PendingLaunch {
    name: String,
    handle: InstanceHandle,
}

/// What a [`PendingLaunch`] holds, as mathematical values.
pub struct PendingLaunchView {
    pub name: Seq<char>,
    pub handle: InstanceHandleView,
}

impl View for PendingLaunch {
    type V = PendingLaunchView;

    closed spec fn view(&self) -> PendingLaunchView {
        PendingLaunchView { name: self.name@, handle: self.handle@ }
    }
}

/// A launch whose instance runs and is registered. Its view is the name
/// that the instance runs under.
#[derive(Debug)]
pub struct RunningLaunch {
    name: String,
}

impl View for RunningLaunch {
    type V = Seq<char>;

    closed spec fn view(&self) -> Seq<char> {
        self.name@
    }
}

impl PendingLaunch {
    #[verifier::type_invariant]
    spec fn inv(self) -> bool {
        valid_name(self.name@) && self.handle@.state is Created
    }

    /// The name that the instance is launched under. It is valid.
    pub fn name(&self) -> (name: &str)
        ensures
            name@ == self@.name,
            valid_name(name@),
    {
        proof {
            use_type_invariant(self);
        }
        self.name.as_str()
    }

    /// The handle of the instance, which was not started yet.
    pub fn handle(&self) -> (handle: &InstanceHandle)
        ensures
            handle@ == self@.handle,
            handle@.state is Created,
    {
        proof {
            use_type_invariant(self);
        }
        &self.handle
    }

    /// The instance has started and handed out its event stream: registers
    /// its handle, so that it can be found for as long as it runs. Where
    /// the name is taken by an instance that is still live, the launch
    /// fails with `Conflict` and the registry stays as it is; the host then
    /// drops the instance that it started.
    pub fn started(self, registry: &mut Registry) -> (r: Result<RunningLaunch, LaunchError>)
        ensures
            r is Ok <==> !conflicts(old(registry)@, self@.name),
            r matches Ok(running) ==> running@ == self@.name,
            r matches Err(e) ==> e == LaunchError::Conflict,
            final(registry)@ == registered(
                old(registry)@,
                self@.name,
                running_handle(self@.handle.config),
            ),
    {
        proof {
            use_type_invariant(&self);
        }
        let PendingLaunch { name, handle } = self;
        let mut handle = handle;
        let _ = handle.start();
        match registry.register(name.clone(), handle) {
            Ok(()) => Ok(RunningLaunch { name }),
            Err(e) => Err(e),
        }
    }

    /// The instance could not be started: the launch fails with
    /// `StartError`, and nothing was registered.
    pub fn start_failed(self) -> (e: LaunchError)
        ensures
            e == LaunchError::StartError,
    {
        LaunchError::StartError
    }
}

impl RunningLaunch {
    /// The name that the instance runs under.
    pub fn name(&self) -> (name: &str)
        ensures
            name@ == self@,
    {
        self.name.as_str()
    }

    /// The instance has terminated, with the error it ended with, if any:
    /// removes its entry, so that the name is free again, and gives the
    /// result of the launch.
    pub fn terminated(
        self,
        registry: &mut Registry,
        error: Option<String>,
    ) -> (r: Result<(), LaunchError>)
        ensures
            final(registry)@ == old(registry)@.remove(self@),
            r is Ok <==> error is None,
            r matches Err(e) ==> (error matches Some(message) && e == LaunchError::RuntimeError(
                message,
            )),
    {
        let _ = registry.remove(self.name.as_str());
        match error {
            Some(message) => Err(LaunchError::RuntimeError(message)),
            None => Ok(()),
        }
    }
}

/// Begins a launch: checks the name and makes the handle of the instance
/// from its configuration. An empty name is refused with `InvalidName`.
/// No registry is touched.
pub fn begin_launch(config: Config, name: &str) -> (r: Result<PendingLaunch, LaunchError>)
    ensures
        r is Ok <==> valid_name(name@),
        r matches Err(e) ==> e == LaunchError::InvalidName,
        r matches Ok(pending) ==> pending@ == (PendingLaunchView {
            name: name@,
            handle: InstanceHandleView { config: config@, state: InstanceStateView::Created },
        }),
{
    if name.is_empty() {
        Err(LaunchError::InvalidName)
    } else {
        Ok(PendingLaunch { name: String::from_str(name), handle: InstanceHandle::new(config) })
    }
}

/// The entries after one instance for each of `names` was launched from
/// the configuration at the same index, one registration after the other
/// in the order of `names`, on a registry that held `start`.
pub open spec fn launched_all(
    start: Map<Seq<char>, InstanceHandleView>,
    names: Seq<Seq<char>>,
    configs: Seq<ConfigView>,
) -> Map<Seq<char>, InstanceHandleView>
    decreases names.len(),
{
    if names.len() == 0 {
        start
    } else {
        registered(
            launched_all(start, names.drop_last(), configs.drop_last()),
            names.last(),
            running_handle(configs.last()),
        )
    }
}

proof fn lemma_launched_all_entries(names: Seq<Seq<char>>, configs: Seq<ConfigView>)
    requires
        names.len() == configs.len(),
        names.no_duplicates(),
    ensures
        counts(launched_all(no_entries(), names, configs), names.len()),
        forall|name: Seq<char>|
            launched_all(no_entries(), names, configs).contains_key(name) <==> names.contains(name),
        forall|i: int|
            0 <= i < names.len() ==> launched_all(no_entries(), names, configs)[#[trigger] names[i]]
                == running_handle(configs[i]),
    decreases names.len(),
{
    let all = launched_all(no_entries(), names, configs);
    if names.len() == 0 {
        assert(all.dom() =~= Set::empty());
    } else {
        let n = names.len() - 1;
        let earlier = launched_all(no_entries(), names.drop_last(), configs.drop_last());
        lemma_launched_all_entries(names.drop_last(), configs.drop_last());
        assert(!earlier.contains_key(names.last())) by {
            if names.drop_last().contains(names.last()) {
                let i = choose|i: int|
                    0 <= i < names.drop_last().len() && names.drop_last()[i] == names.last();
                assert(names[i] == names[n]);
            }
        }
        assert(all == earlier.insert(names.last(), running_handle(configs.last())));
        assert(all.dom() =~= earlier.dom().insert(names.last()));
        assert forall|name: Seq<char>| all.contains_key(name) <==> names.contains(name) by {
            if names.contains(name) {
                let i = choose|i: int| 0 <= i < names.len() && names[i] == name;
                if i < n {
                    assert(names.drop_last()[i] == name);
                }
            }
            if names.drop_last().contains(name) {
                let i = choose|i: int|
                    0 <= i < names.drop_last().len() && names.drop_last()[i] == name;
                assert(names[i] == name);
            }
        }
        assert forall|i: int| 0 <= i < names.len() implies all[#[trigger] names[i]]
            == running_handle(configs[i]) by {
            if i < n {
                assert(names.drop_last()[i] == names[i]);
                assert(configs.drop_last()[i] == configs[i]);
                assert(names[i] != names[n]);
            }
        }
    }
}

/// Launches under names that differ from one another never conflict,
/// whatever their order: on a registry that was empty, each of them
/// succeeds, and afterwards the registry holds one entry for each name, no
/// other, under which the running instance of that launch is found.
pub proof fn lemma_distinct_launches_all_registered(
    names: Seq<Seq<char>>,
    configs: Seq<ConfigView>,
)
    requires
        names.len() == configs.len(),
        names.no_duplicates(),
        forall|i: int| 0 <= i < names.len() ==> valid_name(#[trigger] names[i]),
    ensures
        forall|i: int|
            0 <= i < names.len() ==> !conflicts(
                launched_all(no_entries(), names.take(i), configs.take(i)),
                #[trigger] names[i],
            ),
        counts(launched_all(no_entries(), names, configs), names.len()),
        forall|i: int|
            0 <= i < names.len() ==> {
                let entries = launched_all(no_entries(), names, configs);
                &&& entries.contains_key(#[trigger] names[i])
                &&& entries[names[i]] == running_handle(configs[i])
                &&& entries[names[i]].info() is Some
            },
{
    lemma_launched_all_entries(names, configs);
    assert forall|i: int| 0 <= i < names.len() implies !conflicts(
        launched_all(no_entries(), names.take(i), configs.take(i)),
        #[trigger] names[i],
    ) by {
        lemma_launched_all_entries(names.take(i), configs.take(i));
        if names.take(i).contains(names[i]) {
            let j = choose|j: int| 0 <= j < names.take(i).len() && names.take(i)[j] == names[i];
            assert(names[j] == names[i]);
        }
    }
    assert forall|i: int| 0 <= i < names.len() implies launched_all(
        no_entries(),
        names,
        configs,
    ).contains_key(#[trigger] names[i]) by {
        assert(names.contains(names[i]));
    }
}

/// While the instances of launches under names that differ from one
/// another run, the listing holds one record for each of them, under its
/// name, and nothing else.
pub proof fn lemma_listing_of_launches_is_complete(
    names: Seq<Seq<char>>,
    configs: Seq<ConfigView>,
    listing: Seq<(Seq<char>, RunningInfoView)>,
)
    requires
        names.len() == configs.len(),
        names.no_duplicates(),
        is_snapshot_of(listing, launched_all(no_entries(), names, configs)),
    ensures
        listing.len() == names.len(),
        forall|i: int|
            0 <= i < names.len() ==> exists|p: int|
                0 <= p < listing.len() && #[trigger] listing[p] == (
                    #[trigger] names[i],
                    running_info(configs[i]),
                ),
{
    let entries = launched_all(no_entries(), names, configs);
    lemma_launched_all_entries(names, configs);
    let keys = Seq::new(listing.len(), |p: int| listing[p].0);
    assert forall|p: int, q: int| 0 <= p < keys.len() && 0 <= q < keys.len() && p != q implies keys[p]
        != keys[q] by {
        lemma_name_lt_irreflexive(keys[p]);
        if p < q {
            assert(name_lt(listing[p].0, listing[q].0));
        } else {
            assert(name_lt(listing[q].0, listing[p].0));
        }
    }
    assert(keys.to_set() =~= entries.dom()) by {
        assert forall|name: Seq<char>| entries.contains_key(name) implies keys.to_set().contains(
            name,
        ) by {
            assert(names.contains(name));
            let i = choose|i: int| 0 <= i < names.len() && names[i] == name;
            assert(entries[names[i]] == running_handle(configs[i]));
            assert(entries[name].info() is Some);
            let p = choose|p: int| 0 <= p < listing.len() && (#[trigger] listing[p]).0 == name;
            assert(keys[p] == name);
        }
        assert forall|name: Seq<char>| keys.to_set().contains(name) implies entries.contains_key(
            name,
        ) by {
            let p = choose|p: int| 0 <= p < keys.len() && keys[p] == name;
            assert(entries.contains_key(listing[p].0));
        }
    }
    keys.unique_seq_to_set();
    assert forall|i: int| 0 <= i < names.len() implies exists|p: int|
        0 <= p < listing.len() && #[trigger] listing[p] == (
            #[trigger] names[i],
            running_info(configs[i]),
        ) by {
        assert(entries[names[i]] == running_handle(configs[i]));
        assert(entries[names[i]].info() is Some);
        assert(names.contains(names[i]));
        let p = choose|p: int| 0 <= p < listing.len() && (#[trigger] listing[p]).0 == names[i];
        assert(entries[listing[p].0].info() == Some(listing[p].1));
        assert(listing[p] == (names[i], running_info(configs[i])));
    }
}

/// Whether `order` lists each index below `n` once.
pub open spec fn is_reordering(order: Seq<int>, n: nat) -> bool {
    &&& order.len() == n
    &&& order.no_duplicates()
    &&& forall|i: int| 0 <= i < n ==> 0 <= #[trigger] order[i] < n
}

/// The items in the order that `order` lists their indices in.
pub open spec fn reordered<T>(items: Seq<T>, order: Seq<int>) -> Seq<T> {
    Seq::new(order.len(), |i: int| items[order[i]])
}

/// The order of the launches does not matter: launches under names that
/// differ from one another leave the same entries in whichever order their
/// registrations arrive.
pub proof fn lemma_launch_order_is_immaterial(
    names: Seq<Seq<char>>,
    configs: Seq<ConfigView>,
    order: Seq<int>,
)
    requires
        names.len() == configs.len(),
        names.no_duplicates(),
        is_reordering(order, names.len()),
    ensures
        launched_all(no_entries(), reordered(names, order), reordered(configs, order))
            == launched_all(no_entries(), names, configs),
{
    let names2 = reordered(names, order);
    let configs2 = reordered(configs, order);
    let a = launched_all(no_entries(), names, configs);
    let b = launched_all(no_entries(), names2, configs2);
    assert(names2.no_duplicates());
    lemma_launched_all_entries(names, configs);
    lemma_launched_all_entries(names2, configs2);
    assert forall|name: Seq<char>| #[trigger] b.contains_key(name) implies a.contains_key(name)
        && a[name] == b[name] by {
        assert(names2.contains(name));
        let i = choose|i: int| 0 <= i < names2.len() && names2[i] == name;
        assert(names[order[i]] == name);
        assert(names.contains(name));
        assert(b[names2[i]] == running_handle(configs2[i]));
        assert(a[names[order[i]]] == running_handle(configs[order[i]]));
    }
    assert(b.dom().subset_of(a.dom())) by {
        assert forall|name: Seq<char>| b.dom().contains(name) implies a.dom().contains(name) by {
            assert(b.contains_key(name));
        }
    }
    lemma_subset_equality(b.dom(), a.dom());
    assert(a =~= b);
}

/// The listing of what runs does not depend on the order in which the
/// launches were registered: it is the same list, sorted by name.
pub proof fn lemma_listing_is_independent_of_launch_order(
    names: Seq<Seq<char>>,
    configs: Seq<ConfigView>,
    order: Seq<int>,
    listing: Seq<(Seq<char>, RunningInfoView)>,
    reordered_listing: Seq<(Seq<char>, RunningInfoView)>,
)
    requires
        names.len() == configs.len(),
        names.no_duplicates(),
        is_reordering(order, names.len()),
        is_snapshot_of(listing, launched_all(no_entries(), names, configs)),
        is_snapshot_of(
            reordered_listing,
            launched_all(no_entries(), reordered(names, order), reordered(configs, order)),
        ),
    ensures
        reordered_listing == listing,
        ascending(listing),
        listing.len() == names.len(),
{
    lemma_launch_order_is_immaterial(names, configs, order);
    lemma_snapshot_unique(listing, reordered_listing, launched_all(no_entries(), names, configs));
    lemma_listing_of_launches_is_complete(names, configs, listing);
}

/// A second launch under a name whose instance is still live conflicts and
/// disturbs nothing: the registry stays as the first launch left it, with
/// the first instance under the name.
pub proof fn lemma_second_launch_conflicts(
    entries: Map<Seq<char>, InstanceHandleView>,
    name: Seq<char>,
    first: ConfigView,
    second: ConfigView,
)
    requires
        !conflicts(entries, name),
    ensures
        conflicts(registered(entries, name, running_handle(first)), name),
        registered(registered(entries, name, running_handle(first)), name, running_handle(second))
            == registered(entries, name, running_handle(first)),
        registered(entries, name, running_handle(first))[name] == running_handle(first),
{
}

/// Once an instance has terminated and its entry was removed, its name is
/// free: the name is absent, and the next launch under it does not
/// conflict and is registered.
pub proof fn lemma_name_free_after_termination(
    entries: Map<Seq<char>, InstanceHandleView>,
    name: Seq<char>,
    next: ConfigView,
)
    ensures
        !entries.remove(name).contains_key(name),
        !conflicts(entries.remove(name), name),
        registered(entries.remove(name), name, running_handle(next)).contains_key(name),
        registered(entries.remove(name), name, running_handle(next))[name] == running_handle(next),
{
}

} // verus!
