//! Assemblies: loading one, linking a batch of them against a dispatch
//! table, and swapping one for a newer build.

use crate::abi::{AssemblyInfo, AssemblyInfoView, CallSiteView, DefinitionView, FunctionDefinition,
    ABI_VERSION};
use crate::dispatch_table::DispatchTable;
use crate::error::{Error, ErrorView, SwapError, SwapErrorView};
use crate::linker::{
    conflict_error, conflicts, exported_names, filter_keeps_all, first_conflict,
    first_conflict_is_unique, fits, has_conflict, in_batch, is_linked, kept_by_filter, lacking,
        lacks,
    legacy_after_swap, link_outcome, link_visits, linked_site, linked_table,
        names_of,
    provides, site_after, site_at, successful_link_resolves_every_call_site, unlinked_site,
        unresolved_in, unresolved_slots,
    unresolved_slots_has, with_exports, without_exports, SlotRef, Table,
};
use crate::type_mapping::{mapping_of, TypeMapping};
use vstd::prelude::*;

verus! {

/// A hot reloadable compilation unit. `L` is the handle of a loaded native
/// library; `G` is the handle of the garbage collector that the assembly's
/// code allocates from.
#[derive(Debug)]
pub struct Assembly<L, G> {
    library_path: String,
    library: L,
    legacy_libs: Vec<L>,
    info: AssemblyInfo,
    allocator: G,
}

/// What an [`Assembly`] stands for in contracts.
pub struct AssemblyView<L, G> {
    /// Where the assembly's library was loaded from.
    pub library_path: Seq<char>,
    /// The library whose code the assembly runs.
    pub library: L,
    /// Libraries of earlier builds that stay loaded because objects that
    /// could not be migrated still depend on them, oldest first.
    pub legacy_libs: Seq<L>,
    /// What the assembly says of itself.
    pub info: AssemblyInfoView,
    /// The garbage collector that the assembly's code allocates from.
    pub allocator: G,
}

impl<L, G> AssemblyView<L, G> {
    /// Whether every call site of the assembly holds an address.
    pub open spec fn is_linked(self) -> bool {
        is_linked(self.info)
    }

    /// Whether `other` is this assembly but for the addresses that its call
    /// sites hold.
    pub open spec fn same_but_addresses(self, other: AssemblyView<L, G>) -> bool {
        &&& other.library_path == self.library_path
        &&& other.library == self.library
        &&& other.legacy_libs == self.legacy_libs
        &&& other.allocator == self.allocator
        &&& other.info.abi_version == self.info.abi_version
        &&& other.info.functions == self.info.functions
        &&& other.info.types == self.info.types
        &&& other.info.dispatch_table.len() == self.info.dispatch_table.len()
        &&& forall|s: int|
            0 <= s < self.info.dispatch_table.len() ==>
                (#[trigger] other.info.dispatch_table[s]).prototype
                == self.info.dispatch_table[s].prototype
    }
}

impl<L, G> View for Assembly<L, G> {
    type V = AssemblyView<L, G>;

    closed spec fn view(&self) -> AssemblyView<L, G> {
        AssemblyView {
            library_path: self.library_path@,
            library: self.library,
            legacy_libs: self.legacy_libs@,
            info: self.info@,
            allocator: self.allocator,
        }
    }
}

/// What each assembly of the batch says of itself.
pub open spec fn batch_of<L, G>(assemblies: Seq<Assembly<L, G>>) -> Seq<AssemblyInfoView> {
    assemblies.map_values(|assembly: Assembly<L, G>| assembly@.info)
}

/// `after` is the batch `before` but for the addresses that call sites
/// hold.
pub open spec fn same_but_addresses<L, G>(
    before: Seq<Assembly<L, G>>,
    after: Seq<Assembly<L, G>>,
) -> bool {
    &&& after.len() == before.len()
    &&& forall|a: int| 0 <= a < before.len() ==>
        (#[trigger] before[a])@.same_but_addresses(after[a]@)
}

/// `after` is the batch `before` once the call sites `visited` were tried
/// against the table: each of them that the table provides for holds the
/// table's address, and nothing else has changed.
pub open spec fn tried<L, G>(
    before: Seq<Assembly<L, G>>,
    after: Seq<Assembly<L, G>>,
    table: Table,
    visited: Seq<SlotRef>,
) -> bool {
    &&& same_but_addresses(before, after)
    &&& forall|at: SlotRef|
        in_batch(batch_of(before), at) ==> #[trigger] site_at(batch_of(after), at) == site_after(
            table,
            batch_of(before),
            visited,
            at,
        )
}

/// Among the first `k + 1` of `pending` are the first `k` and the one at
/// `k`, no others.
proof fn one_more_visited(pending: Seq<SlotRef>, k: int, other: SlotRef)
    requires
        0 <= k < pending.len(),
    ensures
        pending.take(k + 1).contains(other) <==>
            (pending.take(k).contains(other) || other == pending[k]),
{
    let longer = pending.take(k + 1);
    let shorter = pending.take(k);
    if longer.contains(other) {
        let j = choose|j: int| 0 <= j < longer.len() && longer[j] == other;
        if j < k {
            assert(shorter[j] == other);
        }
    }
    if shorter.contains(other) {
        let j = choose|j: int| 0 <= j < shorter.len() && shorter[j] == other;
        assert(longer[j] == other);
    }
    if other == pending[k] {
        assert(longer[k] == other);
    }
}

/// `after` is the batch `before` once the functions of the names `gone` are
/// no longer there: the call sites that expect one of them hold no address,
/// and nothing else has changed.
pub open spec fn unlinked<L, G>(
    before: Seq<Assembly<L, G>>,
    after: Seq<Assembly<L, G>>,
    gone: Set<Seq<char>>,
) -> bool {
    &&& same_but_addresses(before, after)
    &&& forall|at: SlotRef|
        in_batch(batch_of(before), at) ==> #[trigger] site_at(batch_of(after), at) == unlinked_site(
            gone,
            site_at(batch_of(before), at),
        )
}

/// What the sweeps over the outstanding call sites of a batch leave.
#[derive(Debug)]
pub struct Resolution {
    /// The call sites that are still outstanding: the table lacks the names
    /// that they expect.
    pub outstanding: Vec<SlotRef>,
    /// The number of sweeps that were made.
    pub sweeps: usize,
}

/// Tells whether a library compiled for the ABI version `found` can be
/// loaded by this runtime: only if it is the runtime's own version.
pub fn check_abi_version(found: u32) -> (outcome: Result<(), Error>)
    ensures
        found == ABI_VERSION ==> outcome is Ok,
        found != ABI_VERSION ==> outcome is Err && outcome->Err_0@ == ErrorView::AbiMismatch(
            ABI_VERSION,
            found,
        ),
{
    if found == ABI_VERSION {
        Ok(())
    } else {
        Err(Error::AbiMismatch(ABI_VERSION, found))
    }
}

impl<L, G> Assembly<L, G> {
    /// Makes the assembly of the library `library`, which was loaded from
    /// `library_path`, says `info` of itself and allocates from `allocator`.
    /// Fails if the library was compiled for another ABI version than the
    /// runtime's.
    pub fn load(
        library_path: String,
        library: L,
        info: AssemblyInfo,
        allocator: G,
    ) -> (outcome: Result<Assembly<L, G>, Error>)
        ensures
            info.abi_version == ABI_VERSION ==> outcome is Ok && outcome->Ok_0@ == (AssemblyView {
                library_path: library_path@,
                library,
                legacy_libs: Seq::empty(),
                info: info@,
                allocator,
            }),
            info.abi_version != ABI_VERSION ==> outcome is Err && outcome->Err_0@
                == ErrorView::AbiMismatch(ABI_VERSION, info.abi_version),
    {
        match check_abi_version(info.abi_version) {
            Ok(()) => Ok(
                Assembly { library_path, library, legacy_libs: Vec::new(), info, allocator }),
            Err(error) => Err(error),
        }
    }

    /// What the assembly says of itself.
    pub fn info(&self) -> (info: &AssemblyInfo)
        ensures
            info@ == self@.info,
    {
        &self.info
    }

    /// Where the assembly's library was loaded from.
    pub fn library_path(&self) -> (path: &String)
        ensures
            path@ == self@.library_path,
    {
        &self.library_path
    }

    /// The garbage collector that the assembly's code allocates from.
    pub fn allocator(&self) -> (allocator: &G)
        ensures
            *allocator == self@.allocator,
    {
        &self.allocator
    }

    /// The libraries of earlier builds that the assembly keeps loaded,
    /// oldest first.
    pub fn legacy_libs(&self) -> (libraries: &Vec<L>)
        ensures
            libraries@ == self@.legacy_libs,
    {
        &self.legacy_libs
    }

    /// Gives up the assembly for its library.
    pub fn into_library(self) -> (library: L)
        ensures
            library == self@.library,
    {
        self.library
    }

    /// The call sites of the batch that hold no address: assembly by
    /// assembly, and in each in the order of its foreign code table.
    pub fn collect_unresolved(assemblies: &Vec<Assembly<L, G>>) -> (pending: Vec<SlotRef>)
        ensures
            pending@ == unresolved_slots(batch_of(assemblies@)),
            fits(batch_of(assemblies@)),
    {
        let ghost batch = batch_of(assemblies@);
        let mut pending: Vec<SlotRef> = Vec::new();
        let mut a: usize = 0;
        while a < assemblies.len()
            invariant
                a <= assemblies.len(),
                batch == batch_of(assemblies@),
                pending@ == unresolved_slots(batch.take(a as int)),
                forall|b: int| 0 <= b < a ==>
                    (#[trigger] batch[b]).dispatch_table.len() <= usize::MAX,
            decreases assemblies.len() - a,
        {
            let table = &assemblies[a].info.dispatch_table;
            let ghost sites = batch[a as int].dispatch_table;
            let ghost before = pending@;
            let mut s: usize = 0;
            while s < table.len()
                invariant
                    s <= table@.len(),
                    table@ == sites,
                    pending@ == before + unresolved_in(sites.take(s as int), a),
                decreases table@.len() - s,
            {
                proof {
                    assert(sites.take(s + 1).drop_last() =~= sites.take(s as int));
                }
                if !table.get(s).is_resolved() {
                    pending.push(SlotRef { assembly: a, slot: s });
                    assert(pending@ =~= before + unresolved_in(sites.take(s + 1), a));
                }
                s += 1;
            }
            proof {
                assert(sites.take(s as int) =~= sites);
                assert(batch.take(a + 1).drop_last() =~= batch.take(a as int));
            }
            a += 1;
        }
        proof {
            assert(batch.take(a as int) =~= batch);
        }
        pending
    }

    /// One sweep over the outstanding call sites `pending`, in order. A call
    /// site whose name the table lacks is deferred; one whose function the
    /// table provides gets the table's address; the first one that
    /// conflicts with the table ends the sweep with an error. Returns the
    /// deferred call sites, which are never more than the sweep was given.
    pub fn sweep(
        assemblies: &mut Vec<Assembly<L, G>>,
        table: &DispatchTable,
        pending: &Vec<SlotRef>,
    ) -> (outcome: Result<Vec<SlotRef>, Error>)
        requires
            forall|k: int| 0 <= k < pending.len() ==>
                in_batch(batch_of(old(assemblies)@), #[trigger] pending[k]),
        ensures
            match outcome {
                Ok(deferred) => {
                    &&& !has_conflict(table@, batch_of(old(assemblies)@), pending@)
                    &&& deferred@ == pending@.filter(lacking(table@, batch_of(old(assemblies)@)))
                    &&& deferred.len() <= pending.len()
                    &&& tried(old(assemblies)@, final(assemblies)@, table@, pending@)
                },
                Err(error) => exists|k: int|
                    {
                        &&& first_conflict(table@, batch_of(old(assemblies)@), pending@, k)
                        &&& error@
                            == conflict_error(table@, batch_of(old(assemblies)@), pending@[k])
                        &&& tried(old(assemblies)@, final(assemblies)@, table@, pending@.take(k))
                    },
            },
    {
        let ghost before = assemblies@;
        let ghost batch = batch_of(before);
        let ghost absent = lacking(table@, batch);
        let mut deferred: Vec<SlotRef> = Vec::new();
        let mut k: usize = 0;
        proof {
            assert(pending@.take(0).filter(absent) =~= Seq::<SlotRef>::empty()) by {
                reveal(Seq::filter);
            }
        }
        while k < pending.len()
            invariant
                k <= pending.len(),
                before == old(assemblies)@,
                batch == batch_of(before),
                absent == lacking(table@, batch),
                forall|j: int| 0 <= j < pending.len() ==> in_batch(batch, #[trigger] pending[j]),
                forall|j: int| 0 <= j < k ==>
                    !conflicts(table@, site_at(batch, #[trigger] pending[j])),
                deferred@ == pending@.take(k as int).filter(absent),
                tried(before, assemblies@, table@, pending@.take(k as int)),
            decreases pending.len() - k,
        {
            let at = pending[k];
            let ghost now = assemblies@;
            let ghost site = site_at(batch, at);
            proof {
                assert(in_batch(batch, pending[k as int]));
                assert(before[at.assembly as int]@.same_but_addresses(now[at.assembly as int]@));
                assert(site_at(batch_of(now), at).prototype == site.prototype);
                assert(pending@.take(k + 1).drop_last() =~= pending@.take(k as int));
                assert(pending@.take(k + 1).last() == at);
                reveal(Seq::filter);
                assert forall|other: SlotRef| pending@.take(k + 1).contains(other) <==>
                    (pending@.take(k as int).contains(other) || other == at) by {
                    one_more_visited(pending@, k as int, other);
                }
            }
            let found = table.get_fn(
                &assemblies[at.assembly].info.dispatch_table.slots[at.slot].prototype.name);
            match found {
                Some(definition) => {
                    let expected =
                        &assemblies[at.assembly].info.dispatch_table.slots[at.slot].prototype;
                    if !(expected.signature == definition.prototype.signature) {
                        let error = Error::SignatureMismatch(
                            expected.name.clone(),
                            expected.clone(),
                            definition.prototype.clone(),
                        );
                        proof {
                            assert(first_conflict(table@, batch, pending@, k as int));
                        }
                        return Err(error);
                    }
                    let fn_ptr = definition.fn_ptr;
                    assemblies[at.assembly].info.dispatch_table.resolve(at.slot, fn_ptr);
                    proof {
                        let after = assemblies@;
                        assert(provides(table@, site));
                        assert forall|a: int| 0 <= a < before.len() implies
                            (#[trigger] before[a])@.same_but_addresses(after[a]@) by {
                            assert(before[a]@.same_but_addresses(now[a]@));
                        }
                        assert forall|other: SlotRef| in_batch(batch, other) implies
                            #[trigger] site_at(batch_of(after), other)
                            == site_after(table@, batch, pending@.take(k + 1), other) by {
                            assert(site_at(batch_of(now), other)
                                == site_after(table@, batch, pending@.take(k as int), other));
                        }
                    }
                },
                None => {
                    deferred.push(at);
                    proof {
                        assert(lacks(table@, site));
                        assert forall|other: SlotRef| in_batch(batch, other) implies
                            #[trigger] site_at(batch_of(assemblies@), other)
                            == site_after(table@, batch, pending@.take(k + 1), other) by {
                            assert(site_at(batch_of(now), other)
                                == site_after(table@, batch, pending@.take(k as int), other));
                        }
                    }
                },
            }
            k += 1;
        }
        proof {
            assert(pending@.take(k as int) =~= pending@);
            pending@.lemma_filter_len(absent);
            if has_conflict(table@, batch, pending@) {
                let j = choose|j: int| first_conflict(table@, batch, pending@, j);
                assert(!conflicts(table@, site_at(batch, pending[j])));
            }
        }
        Ok(deferred)
    }

    /// Sweeps the outstanding call sites `pending` until a sweep resolves
    /// none of them or none is left. Every sweep but the last leaves fewer
    /// call sites outstanding, so there are at most as many sweeps as call
    /// sites. A conflict with the table ends the sweeps with an error.
    pub fn resolve(
        assemblies: &mut Vec<Assembly<L, G>>,
        table: &DispatchTable,
        pending: Vec<SlotRef>,
    ) -> (outcome: Result<Resolution, Error>)
        requires
            forall|k: int| 0 <= k < pending.len() ==>
                in_batch(batch_of(old(assemblies)@), #[trigger] pending[k]),
        ensures
            match outcome {
                Ok(resolution) => {
                    &&& !has_conflict(table@, batch_of(old(assemblies)@), pending@)
                    &&& resolution.outstanding@
                        == pending@.filter(lacking(table@, batch_of(old(assemblies)@)))
                    &&& resolution.sweeps <= pending.len()
                    &&& tried(old(assemblies)@, final(assemblies)@, table@, pending@)
                },
                Err(error) => exists|k: int|
                    {
                        &&& first_conflict(table@, batch_of(old(assemblies)@), pending@, k)
                        &&& error@
                            == conflict_error(table@, batch_of(old(assemblies)@), pending@[k])
                        &&& tried(old(assemblies)@, final(assemblies)@, table@, pending@.take(k))
                    },
            },
    {
        let ghost before = assemblies@;
        let ghost batch = batch_of(before);
        let ghost initial = pending@;
        let ghost absent = lacking(table@, batch);
        proof {
            assert(initial.len() == pending.len());
        }
        let mut outstanding = pending;
        let mut sweeps: usize = 0;
        let mut progress = true;
        proof {
            assert(tried(before, before, table@, Seq::<SlotRef>::empty()));
        }
        while progress && outstanding.len() > 0
            invariant
                before == old(assemblies)@,
                batch == batch_of(before),
                absent == lacking(table@, batch),
                forall|k: int| 0 <= k < initial.len() ==> in_batch(batch, #[trigger] initial[k]),
                sweeps == 0 ==> outstanding@ == initial && assemblies@ == before && progress,
                sweeps > 0 ==>
                    outstanding@ == initial.filter(absent)
                    && tried(before, assemblies@, table@, initial)
                    && !has_conflict(table@, batch, initial),
                progress ==> sweeps + outstanding.len() <= initial.len(),
                sweeps <= initial.len() <= usize::MAX,
                initial == pending@,
            decreases outstanding.len(), (if progress { 1int } else { 0int }),
        {
            let ghost mid = assemblies@;
            proof {
                kept_by_filter(initial, absent);
                assert forall|k: int| 0 <= k < outstanding.len() implies
                    in_batch(batch_of(mid), #[trigger] outstanding[k]) by {
                    let at = outstanding[k];
                    assert(initial.contains(at));
                    assert(in_batch(batch, at));
                    assert(before[at.assembly as int]@.same_but_addresses(
                        mid[at.assembly as int]@));
                }
            }
            match Self::sweep(assemblies, table, &outstanding) {
                Err(error) => {
                    proof {
                        if sweeps > 0 {
                            let k = choose|k: int| first_conflict(
                                table@, batch_of(mid), outstanding@, k);
                            let at = outstanding[k];
                            assert(absent(at));
                            assert(initial.contains(at));
                            assert(before[at.assembly as int]@.same_but_addresses(
                                mid[at.assembly as int]@));
                            assert(site_at(batch_of(mid), at).prototype
                                == site_at(batch, at).prototype);
                            assert(false);
                        }
                        let k = choose|k: int|
                            {
                                &&& first_conflict(table@, batch_of(mid), outstanding@, k)
                                &&& error@ == conflict_error(table@, batch_of(mid), outstanding@[k])
                                &&& tried(mid, assemblies@, table@, outstanding@.take(k))
                            };
                        assert(first_conflict(table@, batch, initial, k));
                    }
                    return Err(error);
                },
                Ok(deferred) => {
                    proof {
                        if sweeps > 0 {
                            let again = lacking(table@, batch_of(mid));
                            assert forall|k: int| 0 <= k < outstanding.len() implies
                                again(#[trigger] outstanding@[k]) by {
                                let at = outstanding[k];
                                assert(absent(at));
                                assert(initial.contains(at));
                                assert(before[at.assembly as int]@.same_but_addresses(
                                    mid[at.assembly as int]@));
                                assert(site_at(batch_of(mid), at).prototype
                                    == site_at(batch, at).prototype);
                            }
                            filter_keeps_all(outstanding@, again);
                            let after = assemblies@;
                            assert forall|a: int| 0 <= a < before.len() implies
                                (#[trigger] before[a])@.same_but_addresses(after[a]@) by {
                                assert(before[a]@.same_but_addresses(mid[a]@));
                                assert(mid[a]@.same_but_addresses(after[a]@));
                            }
                            assert forall|at: SlotRef| in_batch(batch, at) implies
                                #[trigger] site_at(batch_of(after), at)
                                == site_after(table@, batch, initial, at) by {
                                assert(before[at.assembly as int]@.same_but_addresses(
                                    mid[at.assembly as int]@));
                                assert(in_batch(batch_of(mid), at));
                                assert(site_at(batch_of(after), at)
                                    == site_after(table@, batch_of(mid), outstanding@, at));
                                assert(site_at(batch_of(mid), at)
                                    == site_after(table@, batch, initial, at));
                                if outstanding@.contains(at) {
                                    let k = choose|k: int| 0 <= k < outstanding@.len()
                                        && outstanding@[k] == at;
                                    assert(again(outstanding@[k]));
                                }
                            }
                        }
                    }
                    progress = deferred.len() < outstanding.len();
                    sweeps += 1;
                    outstanding = deferred;
                },
            }
        }
        proof {
            if sweeps == 0 {
                assert(initial.len() == 0);
                assert(initial.filter(absent) =~= initial) by {
                    reveal(Seq::filter);
                }
                if has_conflict(table@, batch, initial) {
                    let k = choose|k: int| first_conflict(table@, batch, initial, k);
                }
            }
        }
        Ok(Resolution { outstanding, sweeps })
    }

    /// The names that the call sites `pending` expect, in order.
    fn expected_names(
        assemblies: &Vec<Assembly<L, G>>,
        pending: &Vec<SlotRef>,
    ) -> (names: Vec<String>)
        requires
            forall|k: int| 0 <= k < pending.len() ==>
                in_batch(batch_of(assemblies@), #[trigger] pending[k]),
        ensures
            names@.map_values(|name: String| name@) == names_of(batch_of(assemblies@), pending@),
    {
        let ghost batch = batch_of(assemblies@);
        let mut names: Vec<String> = Vec::new();
        let mut k: usize = 0;
        while k < pending.len()
            invariant
                k <= pending.len(),
                batch == batch_of(assemblies@),
                forall|j: int| 0 <= j < pending.len() ==> in_batch(batch, #[trigger] pending[j]),
                names@.map_values(|name: String| name@) == names_of(batch, pending@.take(k as int)),
            decreases pending.len() - k,
        {
            let at = pending[k];
            assert(in_batch(batch, pending[k as int]));
            let name = assemblies[at.assembly].info.dispatch_table.get(
                at.slot).prototype.name.clone();
            let ghost before = names@;
            names.push(name);
            proof {
                assert(names@.map_values(|name: String| name@) =~= before.map_values(
                    |name: String| name@,
                ).push(name@));
                assert(pending@.take(k + 1) =~= pending@.take(k as int).push(at));
                assert(names_of(batch, pending@.take(k + 1))
                    =~= names_of(batch, pending@.take(k as int)).push(
                    site_at(batch, at).prototype.name,
                ));
            }
            k += 1;
        }
        proof {
            assert(pending@.take(k as int) =~= pending@);
        }
        names
    }

    /// Links the batch against `dispatch_table` and returns the table that
    /// this yields, leaving `dispatch_table` as it is. The exports of every
    /// assembly are registered in a copy of the table. Then every
    /// unresolved call site of the batch is looked up in the copy:
    /// where the copy provides the function, the call site gets its
    /// address. The result is the copy if no call site is left unresolved.
    /// It is an error if a call site expects a name that is registered with
    /// another signature, or if the copy lacks a name that a call site
    /// expects.
    pub fn link_all(
        assemblies: &mut Vec<Assembly<L, G>>,
        dispatch_table: &DispatchTable,
    ) -> (outcome: Result<DispatchTable, Error>)
        ensures
            match outcome {
                Ok(linked) => link_outcome(dispatch_table@, batch_of(old(assemblies)@))
                    == Ok::<Table, ErrorView>(linked@),
                Err(error) => link_outcome(dispatch_table@, batch_of(old(assemblies)@))
                    == Err::<Table, ErrorView>(error@),
            },
            tried(
                old(assemblies)@,
                final(assemblies)@,
                linked_table(dispatch_table@, batch_of(old(assemblies)@)),
                link_visits(dispatch_table@, batch_of(old(assemblies)@)),
            ),
            outcome is Ok ==> forall|a: int|
                0 <= a < final(assemblies)@.len() ==>
                    (#[trigger] final(assemblies)@[a])@.is_linked(),
            fits(batch_of(old(assemblies)@)),
    {
        let ghost before = assemblies@;
        let ghost batch = batch_of(before);
        let ghost base = dispatch_table@;
        let mut table = dispatch_table.snapshot();
        let mut a: usize = 0;
        while a < assemblies.len()
            invariant
                a <= assemblies.len(),
                assemblies@ == before,
                batch == batch_of(before),
                table@ == linked_table(base, batch.take(a as int)),
            decreases assemblies.len() - a,
        {
            let functions = &assemblies[a].info.functions;
            let ghost exports = batch[a as int].functions;
            let ghost start = table@;
            let mut f: usize = 0;
            while f < functions.len()
                invariant
                    f <= functions.len(),
                    exports == functions@.map_values(|function: FunctionDefinition| function@),
                    table@ == with_exports(start, exports.take(f as int)),
                decreases functions.len() - f,
            {
                let function = &functions[f];
                table.insert_fn(function.prototype.name.clone(), function.clone());
                proof {
                    assert(exports.take(f + 1).drop_last() =~= exports.take(f as int));
                }
                f += 1;
            }
            proof {
                assert(exports.take(f as int) =~= exports);
                assert(batch.take(a + 1).drop_last() =~= batch.take(a as int));
            }
            a += 1;
        }
        proof {
            assert(batch.take(a as int) =~= batch);
        }
        let pending = Self::collect_unresolved(assemblies);
        let ghost all = pending@;
        proof {
            assert forall|k: int| 0 <= k < pending.len() implies
                in_batch(batch, #[trigger] pending[k]) by {
                unresolved_slots_has(batch, pending[k]);
            }
        }
        match Self::resolve(assemblies, &table, pending) {
            Err(error) => {
                proof {
                    let k = choose|k: int|
                        {
                            &&& first_conflict(table@, batch, all, k)
                            &&& error@ == conflict_error(table@, batch, all[k])
                            &&& tried(before, assemblies@, table@, all.take(k))
                        };
                    let chosen = choose|k: int| first_conflict(table@, batch, all, k);
                    first_conflict_is_unique(table@, batch, all, k, chosen);
                }
                Err(error)
            },
            Ok(resolution) => {
                if resolution.outstanding.len() == 0 {
                    proof {
                        let after = assemblies@;
                        assert forall|a: int| 0 <= a < after.len() implies
                            (#[trigger] after[a])@.is_linked() by {
                            assert(before[a]@.same_but_addresses(after[a]@));
                            let sites = after[a]@.info.dispatch_table;
                            assert forall|s: int| 0 <= s < sites.len() implies
                                (#[trigger] sites[s]).is_resolved() by {
                                let at = SlotRef { assembly: a as usize, slot: s as usize };
                                assert(site_at(batch_of(after), at)
                                    == site_after(table@, batch, all, at));
                                successful_link_resolves_every_call_site(base, batch, at);
                            }
                        }
                    }
                    Ok(table)
                } else {
                    proof {
                        kept_by_filter(all, lacking(table@, batch));
                        assert forall|k: int| 0 <= k < resolution.outstanding.len() implies
                            in_batch(
                            batch_of(assemblies@), #[trigger] resolution.outstanding[k]) by {
                            let at = resolution.outstanding[k];
                            assert(all.contains(at));
                            unresolved_slots_has(batch, at);
                            assert(before[at.assembly as int]@.same_but_addresses(
                                assemblies@[at.assembly as int]@));
                        }
                    }
                    let names = Self::expected_names(assemblies, &resolution.outstanding);
                    proof {
                        let after = batch_of(assemblies@);
                        assert(names_of(after, resolution.outstanding@)
                            =~= names_of(batch, resolution.outstanding@)) by {
                            assert forall|k: int| 0 <= k < resolution.outstanding.len() implies
                                site_at(after, #[trigger] resolution.outstanding@[k]).prototype
                                == site_at(batch, resolution.outstanding@[k]).prototype by {
                                let at = resolution.outstanding[k];
                                assert(all.contains(at));
                                unresolved_slots_has(batch, at);
                                assert(before[at.assembly as int]@.same_but_addresses(
                                    assemblies@[at.assembly as int]@));
                            }
                        }
                    }
                    Err(Error::MissingDependency(names))
                }
            },
        }
    }

    /// What becomes of each type of this assembly when `replacement` takes
    /// its place.
    pub fn map_types(&self, replacement: &Assembly<L, G>) -> (mapping: TypeMapping)
        ensures
            mapping.types@ == mapping_of(self@.info.types, replacement@.info.types),
    {
        TypeMapping::new(&self.info.types, &replacement.info.types)
    }

    /// Whether a function of the name `name` is among `functions`.
    fn exports(functions: &Vec<FunctionDefinition>, name: &String) -> (found: bool)
        ensures
            found == exported_names(
                functions@.map_values(|function: FunctionDefinition| function@)).contains(
                name@,
            ),
    {
        let ghost names = functions@.map_values(
            |function: FunctionDefinition| function@).map_values(
            |function: DefinitionView| function.prototype.name,
        );
        let mut f: usize = 0;
        while f < functions.len()
            invariant
                f <= functions.len(),
                names == functions@.map_values(|function: FunctionDefinition| function@).map_values(
                    |function: DefinitionView| function.prototype.name,
                ),
                forall|k: int| 0 <= k < f ==> names[k] != name@,
            decreases functions.len() - f,
        {
            if functions[f].prototype.name == *name {
                assert(names[f as int] == name@);
                return true;
            }
            f += 1;
        }
        false
    }

    /// Takes the address out of every call site of the batch that expects a
    /// function of `functions`.
    fn unlink(dependents: &mut Vec<Assembly<L, G>>, functions: &Vec<FunctionDefinition>)
        ensures
            unlinked(
                old(dependents)@,
                final(dependents)@,
                exported_names(functions@.map_values(|function: FunctionDefinition| function@)),
            ),
    {
        let ghost before = dependents@;
        let ghost batch = batch_of(before);
        let ghost gone = exported_names(
            functions@.map_values(|function: FunctionDefinition| function@));
        let mut a: usize = 0;
        while a < dependents.len()
            invariant
                a <= dependents.len(),
                before == old(dependents)@,
                batch == batch_of(before),
                gone == exported_names(
                    functions@.map_values(|function: FunctionDefinition| function@)),
                same_but_addresses(before, dependents@),
                forall|at: SlotRef|
                    in_batch(batch, at) ==>
                        #[trigger] site_at(batch_of(dependents@), at) == (if at.assembly < a {
                        unlinked_site(gone, site_at(batch, at))
                    } else {
                        site_at(batch, at)
                    }),
            decreases dependents.len() - a,
        {
            let sites = dependents[a].info.dispatch_table.len();
            let mut s: usize = 0;
            while s < sites
                invariant
                    a < dependents.len(),
                    s <= sites,
                    sites == batch[a as int].dispatch_table.len(),
                    before == old(dependents)@,
                    batch == batch_of(before),
                    gone == exported_names(
                        functions@.map_values(|function: FunctionDefinition| function@)),
                    same_but_addresses(before, dependents@),
                    forall|at: SlotRef|
                        in_batch(batch, at) ==>
                            #[trigger] site_at(batch_of(dependents@), at) == (if at.assembly
                            < a || (at.assembly == a && at.slot < s) {
                            unlinked_site(gone, site_at(batch, at))
                        } else {
                            site_at(batch, at)
                        }),
                decreases sites - s,
            {
                let ghost now = dependents@;
                let ghost here = SlotRef { assembly: a, slot: s };
                proof {
                    assert(in_batch(batch, here));
                    assert(before[a as int]@.same_but_addresses(now[a as int]@));
                    assert(site_at(batch_of(now), here) == site_at(batch, here));
                }
                if Self::exports(
                    functions, &dependents[a].info.dispatch_table.slots[s].prototype.name) {
                    dependents[a].info.dispatch_table.revert(s);
                    proof {
                        let after = dependents@;
                        assert forall|b: int| 0 <= b < before.len() implies
                            (#[trigger] before[b])@.same_but_addresses(after[b]@) by {
                            assert(before[b]@.same_but_addresses(now[b]@));
                        }
                        assert forall|at: SlotRef| in_batch(batch, at) implies
                            #[trigger] site_at(batch_of(after), at)
                            == (if at.assembly < a || (at.assembly == a && at.slot < s + 1) {
                            unlinked_site(gone, site_at(batch, at))
                        } else {
                            site_at(batch, at)
                        }) by {
                            assert(site_at(batch_of(now), at)
                                == (if at.assembly < a || (at.assembly == a && at.slot < s) {
                                unlinked_site(gone, site_at(batch, at))
                            } else {
                                site_at(batch, at)
                            }));
                        }
                    }
                } else {
                    proof {
                        assert forall|at: SlotRef| in_batch(batch, at) implies
                            #[trigger] site_at(batch_of(now), at)
                            == (if at.assembly < a || (at.assembly == a && at.slot < s + 1) {
                            unlinked_site(gone, site_at(batch, at))
                        } else {
                            site_at(batch, at)
                        }) by {}
                    }
                }
                s += 1;
            }
            a += 1;
        }
    }

    /// Puts `replacement` in the place of this assembly, after the live
    /// objects were migrated to the replacement's types;
    /// `deleted_objects` are the objects that the migration left orphaned.
    ///
    /// The functions that this assembly exports leave the runtime's
    /// dispatch table, and the replacement is linked against what is left.
    /// If that fails, the assembly, the table and the dependents are as
    /// they were; the heap stays migrated, which is why the error is not
    /// that of a clean abort. Otherwise the table is the one
    /// that linking yields, every call site of `dependents` that expects a
    /// function which this assembly exported holds no address any more,
    /// and this assembly is the linked replacement, which keeps this
    /// assembly's legacy libraries, and this assembly's library too if
    /// objects were left orphaned.
    pub fn swap(
        &mut self,
        replacement: Assembly<L, G>,
        deleted_objects: &Vec<u64>,
        runtime_dispatch_table: &mut DispatchTable,
        dependents: &mut Vec<Assembly<L, G>>,
    ) -> (outcome: Result<(), SwapError>)
        ensures
            match outcome {
                Ok(()) => {
                    let stripped = without_exports(
                        old(runtime_dispatch_table)@,
                        old(self)@.info.functions,
                    );
                    let linked = linked_table(stripped, seq![replacement@.info]);
                    &&& link_outcome(stripped, seq![replacement@.info])
                        == Ok::<Table, ErrorView>(linked)
                    &&& final(runtime_dispatch_table)@ == linked
                    &&& final(self)@.library_path == replacement@.library_path
                    &&& final(self)@.library == replacement@.library
                    &&& final(self)@.allocator == replacement@.allocator
                    &&& final(self)@.legacy_libs == legacy_after_swap(
                        replacement@.legacy_libs,
                        old(self)@.legacy_libs,
                        old(self)@.library,
                        deleted_objects@.len(),
                    )
                    &&& final(self)@.info.abi_version == replacement@.info.abi_version
                    &&& final(self)@.info.functions == replacement@.info.functions
                    &&& final(self)@.info.types == replacement@.info.types
                    &&& final(self)@.info.dispatch_table
                        == replacement@.info.dispatch_table.map_values(
                            |site: CallSiteView| linked_site(linked, site),
                        )
                    &&& final(self)@.is_linked()
                    &&& unlinked(
                        old(dependents)@,
                        final(dependents)@,
                        exported_names(old(self)@.info.functions),
                    )
                },
                Err(error) => {
                    &&& link_outcome(
                        without_exports(old(runtime_dispatch_table)@, old(self)@.info.functions),
                        seq![replacement@.info],
                    ) matches Err(cause)
                    &&& error@ == SwapErrorView::Link(cause)
                    &&& *final(self) == *old(self)
                    &&& final(runtime_dispatch_table)@ == old(runtime_dispatch_table)@
                    &&& *final(dependents) == *old(dependents)
                },
            },
    {
        let ghost base = runtime_dispatch_table@;
        let ghost exports = self@.info.functions;
        let ghost names = exports.map_values(|function: DefinitionView| function.prototype.name);
        let mut staged = runtime_dispatch_table.snapshot();
        let mut f: usize = 0;
        while f < self.info.functions.len()
            invariant
                f <= self.info.functions.len(),
                *self == *old(self),
                exports == self@.info.functions,
                names == exports.map_values(|function: DefinitionView| function.prototype.name),
                staged@ == base.remove_keys(names.take(f as int).to_set()),
            decreases self.info.functions.len() - f,
        {
            let ghost before = staged@;
            staged.remove_fn(&self.info.functions[f].prototype.name);
            proof {
                let name = names[f as int];
                assert(names.take(f + 1) =~= names.take(f as int).push(name));
                assert forall|key: Seq<char>| names.take(f + 1).to_set().contains(key) <==>
                    (names.take(f as int).to_set().contains(key) || key == name) by {
                    let shorter = names.take(f as int);
                    let longer = shorter.push(name);
                    if longer.contains(key) {
                        let i = choose|i: int| 0 <= i < longer.len() && longer[i] == key;
                        if i < shorter.len() {
                            assert(shorter[i] == key);
                        }
                    }
                    if shorter.contains(key) {
                        let i = choose|i: int| 0 <= i < shorter.len() && shorter[i] == key;
                        assert(longer[i] == key);
                    }
                    assert(longer[shorter.len() as int] == name);
                }
                assert(staged@ =~= base.remove_keys(names.take(f + 1).to_set()));
            }
            f += 1;
        }
        proof {
            assert(names.take(f as int) =~= names);
        }
        let ghost stripped = staged@;
        let ghost candidate = replacement;
        let mut batch: Vec<Assembly<L, G>> = Vec::new();
        batch.push(replacement);
        proof {
            assert(batch_of(batch@) =~= seq![candidate@.info]);
        }
        let ghost single = batch_of(batch@);
        let linking = Self::link_all(&mut batch, &staged);
        let ghost after = batch@;
        match linking {
            Err(error) => Err(SwapError::Link(error)),
            Ok(table) => {
                let mut linked = batch.pop().unwrap();
                proof {
                    let here = batch_of(after);
                    assert(linked == after[0]);
                    assert(seq![candidate][0]@.same_but_addresses(after[0]@));
                    assert(!has_conflict(table@, single, unresolved_slots(single)));
                    assert(linked@.info.dispatch_table
                        =~= candidate@.info.dispatch_table.map_values(
                        |site: CallSiteView| linked_site(table@, site),
                    )) by {
                        assert forall|s: int| 0 <= s < linked@.info.dispatch_table.len() implies
                            linked@.info.dispatch_table[s]
                            == linked_site(table@, candidate@.info.dispatch_table[s]) by {
                            let at = SlotRef { assembly: 0, slot: s as usize };
                            assert(in_batch(single, at));
                            assert(site_at(here, at)
                                == site_after(table@, single, unresolved_slots(single), at));
                            unresolved_slots_has(single, at);
                        }
                    }
                }
                *runtime_dispatch_table = table;
                Self::unlink(dependents, &self.info.functions);
                linked.legacy_libs.append(&mut self.legacy_libs);
                std::mem::swap(self, &mut linked);
                let swapped_out = linked;
                if deleted_objects.len() > 0 {
                    self.legacy_libs.push(swapped_out.into_library());
                }
                Ok(())
            },
        }
    }
}

} // verus!
