//! What linking means: which table a batch of assemblies yields, which call
//! sites it resolves, and when it fails.

use crate::abi::{AssemblyInfoView, CallSiteView, DefinitionView};
use crate::error::ErrorView;
use vstd::prelude::*;

verus! {

/// A dispatch table as contracts see it.
pub type Table = Map<Seq<char>, DefinitionView>;

/// One call site of a batch of assemblies: the assembly's place in the batch
/// and the call site's place in that assembly's foreign code table.
#[derive(Clone, Copy, Debug, PartialEq, Eq, Structural)]
pub struct SlotRef {
    pub assembly: usize,
    pub slot: usize,
}

/// `table` after each of `functions` was registered under its name, in
/// order: of two functions with one name the later stays.
pub open spec fn with_exports(table: Table, functions: Seq<DefinitionView>) -> Table
    decreases functions.len(),
{
    if functions.len() == 0 {
        table
    } else {
        with_exports(table, functions.drop_last()).insert(
            functions.last().prototype.name,
            functions.last(),
        )
    }
}

/// `base` after the exports of every assembly of the batch were registered,
/// assembly by assembly.
pub open spec fn linked_table(base: Table, batch: Seq<AssemblyInfoView>) -> Table
    decreases batch.len(),
{
    if batch.len() == 0 {
        base
    } else {
        with_exports(linked_table(base, batch.drop_last()), batch.last().functions)
    }
}

/// The table registers the function that the call site expects: the name is
/// there, with the same signature.
pub open spec fn provides(table: Table, site: CallSiteView) -> bool {
    table.contains_key(site.prototype.name) && table[site.prototype.name].prototype.signature
        == site.prototype.signature
}

/// The table registers a function of the name that the call site expects,
/// but with another signature.
pub open spec fn conflicts(table: Table, site: CallSiteView) -> bool {
    table.contains_key(site.prototype.name) && table[site.prototype.name].prototype.signature
        != site.prototype.signature
}

/// The table registers nothing under the name that the call site expects.
pub open spec fn lacks(table: Table, site: CallSiteView) -> bool {
    !table.contains_key(site.prototype.name)
}

/// Whether `at` names a call site of the batch.
pub open spec fn in_batch(batch: Seq<AssemblyInfoView>, at: SlotRef) -> bool {
    at.assembly < batch.len() && at.slot < batch[at.assembly as int].dispatch_table.len()
}

/// The call site that `at` names.
pub open spec fn site_at(batch: Seq<AssemblyInfoView>, at: SlotRef) -> CallSiteView {
    batch[at.assembly as int].dispatch_table[at.slot as int]
}

/// The unresolved call sites among `sites`, in order, as call sites of the
/// assembly at place `assembly`.
pub open spec fn unresolved_in(sites: Seq<CallSiteView>, assembly: usize) -> Seq<SlotRef>
    decreases sites.len(),
{
    if sites.len() == 0 {
        Seq::empty()
    } else {
        let before = unresolved_in(sites.drop_last(), assembly);
        if sites.last().is_resolved() {
            before
        } else {
            before.push(SlotRef { assembly, slot: (sites.len() - 1) as usize })
        }
    }
}

/// The unresolved call sites of the batch: assembly by assembly, and in each
/// in the order of its foreign code table.
pub open spec fn unresolved_slots(batch: Seq<AssemblyInfoView>) -> Seq<SlotRef>
    decreases batch.len(),
{
    if batch.len() == 0 {
        Seq::empty()
    } else {
        unresolved_slots(batch.drop_last()) + unresolved_in(
            batch.last().dispatch_table,
            (batch.len() - 1) as usize,
        )
    }
}

/// The test that a sweep makes of an outstanding call site: does the table
/// lack its name?
pub open spec fn lacking(table: Table, batch: Seq<AssemblyInfoView>) -> spec_fn(SlotRef) -> bool {
    |at: SlotRef| lacks(table, site_at(batch, at))
}

/// The call site at `at` after the call sites `visited` were tried against
/// the table: it holds the address that the table gives if it was visited
/// and the table provides its function, and is as before otherwise.
pub open spec fn site_after(
    table: Table,
    batch: Seq<AssemblyInfoView>,
    visited: Seq<SlotRef>,
    at: SlotRef,
) -> CallSiteView {
    let site = site_at(batch, at);
    if visited.contains(at) && provides(table, site) {
        site.resolved_to(table[site.prototype.name].fn_ptr)
    } else {
        site
    }
}

/// `k` is the place in `pending` of the first call site that conflicts with
/// the table.
pub open spec fn first_conflict(
    table: Table,
    batch: Seq<AssemblyInfoView>,
    pending: Seq<SlotRef>,
    k: int,
) -> bool {
    &&& 0 <= k < pending.len()
    &&& conflicts(table, site_at(batch, pending[k]))
    &&& forall|j: int| 0 <= j < k ==> !conflicts(table, site_at(batch, #[trigger] pending[j]))
}

/// Some call site of `pending` conflicts with the table.
pub open spec fn has_conflict(
    table: Table,
    batch: Seq<AssemblyInfoView>,
    pending: Seq<SlotRef>,
) -> bool {
    exists|k: int| first_conflict(table, batch, pending, k)
}

/// The names that the call sites `pending` expect, in order.
pub open spec fn names_of(batch: Seq<AssemblyInfoView>, pending: Seq<SlotRef>) -> Seq<Seq<char>> {
    pending.map_values(|at: SlotRef| site_at(batch, at).prototype.name)
}

/// The error that a conflict at the call site `at` raises.
pub open spec fn conflict_error(
    table: Table,
    batch: Seq<AssemblyInfoView>,
    at: SlotRef,
) -> ErrorView {
    let site = site_at(batch, at);
    ErrorView::SignatureMismatch(
        site.prototype.name,
        site.prototype,
        table[site.prototype.name].prototype,
    )
}

/// What linking the batch against `base` comes to: the table with the
/// exports of the batch if the table provides for every unresolved call
/// site; the conflict of the first unresolved call site that conflicts with
/// that table, if one does; else the names, in order, that unresolved call
/// sites expect and that table lacks.
pub open spec fn link_outcome(base: Table, batch: Seq<AssemblyInfoView>) -> Result<
    Table,
    ErrorView,
> {
    let table = linked_table(base, batch);
    let pending = unresolved_slots(batch);
    let missing = pending.filter(lacking(table, batch));
    if has_conflict(table, batch, pending) {
        Err(
            conflict_error(
                table,
                batch,
                pending[choose|k: int| first_conflict(table, batch, pending, k)],
            ),
        )
    } else if missing.len() > 0 {
        Err(ErrorView::MissingDependency(names_of(batch, missing)))
    } else {
        Ok(table)
    }
}

/// The call sites that linking the batch against `base` tries: the
/// unresolved ones, in order, up to the first that conflicts.
pub open spec fn link_visits(base: Table, batch: Seq<AssemblyInfoView>) -> Seq<SlotRef> {
    let table = linked_table(base, batch);
    let pending = unresolved_slots(batch);
    if has_conflict(table, batch, pending) {
        pending.take(choose|k: int| first_conflict(table, batch, pending, k))
    } else {
        pending
    }
}

/// The call site after linking against `table`: an unresolved call site
/// whose function the table provides holds the table's address, and any
/// other is as before.
pub open spec fn linked_site(table: Table, site: CallSiteView) -> CallSiteView {
    if !site.is_resolved() && provides(table, site) {
        site.resolved_to(table[site.prototype.name].fn_ptr)
    } else {
        site
    }
}

/// The names under which `functions` are exported.
pub open spec fn exported_names(functions: Seq<DefinitionView>) -> Set<Seq<char>> {
    functions.map_values(|function: DefinitionView| function.prototype.name).to_set()
}

/// `table` without whatever is registered under the names of `functions`.
pub open spec fn without_exports(table: Table, functions: Seq<DefinitionView>) -> Table {
    table.remove_keys(exported_names(functions))
}

/// The call site once the functions of the names `gone` are no longer
/// there: it holds no address if it expects one of them, and is as before
/// otherwise.
pub open spec fn unlinked_site(gone: Set<Seq<char>>, site: CallSiteView) -> CallSiteView {
    if gone.contains(site.prototype.name) {
        site.reverted()
    } else {
        site
    }
}

/// The legacy libraries of an assembly after a swap: those that the
/// replacement brought, then those of the assembly swapped out, then the
/// library of the assembly swapped out if the swap left objects orphaned.
pub open spec fn legacy_after_swap<L>(
    brought: Seq<L>,
    kept: Seq<L>,
    swapped_out: L,
    orphaned: nat,
) -> Seq<L> {
    if orphaned > 0 {
        (brought + kept).push(swapped_out)
    } else {
        brought + kept
    }
}

/// Every assembly of the batch, and every foreign code table, has a
/// length that fits the machine.
pub open spec fn fits(batch: Seq<AssemblyInfoView>) -> bool {
    &&& batch.len() <= usize::MAX
    &&& forall|a: int| 0 <= a < batch.len() ==>
        (#[trigger] batch[a]).dispatch_table.len() <= usize::MAX
}

/// Only one place is that of the first conflict.
pub proof fn first_conflict_is_unique(
    table: Table,
    batch: Seq<AssemblyInfoView>,
    pending: Seq<SlotRef>,
    j: int,
    k: int,
)
    requires
        first_conflict(table, batch, pending, j),
        first_conflict(table, batch, pending, k),
    ensures
        j == k,
{
    if j < k {
        assert(!conflicts(table, site_at(batch, pending[j])));
    } else if k < j {
        assert(!conflicts(table, site_at(batch, pending[k])));
    }
}

/// Where a call site conflicts, there is a first one that does.
pub proof fn least_conflict(
    table: Table,
    batch: Seq<AssemblyInfoView>,
    pending: Seq<SlotRef>,
    j: int,
) -> (k: int)
    requires
        0 <= j < pending.len(),
        conflicts(table, site_at(batch, pending[j])),
    ensures
        first_conflict(table, batch, pending, k),
        k <= j,
    decreases j,
{
    if exists|i: int| 0 <= i < j && conflicts(table, site_at(batch, #[trigger] pending[i])) {
        let i = choose|i: int| 0 <= i < j
            && conflicts(table, site_at(batch, #[trigger] pending[i]));
        least_conflict(table, batch, pending, i)
    } else {
        j
    }
}

/// The unresolved call sites of one table are the places of that table
/// whose call site holds no address.
pub proof fn unresolved_in_has(sites: Seq<CallSiteView>, assembly: usize, at: SlotRef)
    requires
        sites.len() <= usize::MAX,
    ensures
        unresolved_in(sites, assembly).contains(at) <==>
            at.assembly == assembly && at.slot < sites.len()
            && !sites[at.slot as int].is_resolved(),
    decreases sites.len(),
{
    if sites.len() > 0 {
        let shorter = sites.drop_last();
        let before = unresolved_in(shorter, assembly);
        unresolved_in_has(shorter, assembly, at);
        let last = SlotRef { assembly, slot: (sites.len() - 1) as usize };
        if !sites.last().is_resolved() {
            let all = before.push(last);
            if all.contains(at) {
                let i = choose|i: int| 0 <= i < all.len() && all[i] == at;
                if i < before.len() {
                    assert(before[i] == at);
                }
            }
            if before.contains(at) {
                let i = choose|i: int| 0 <= i < before.len() && before[i] == at;
                assert(all[i] == at);
            }
            assert(all[before.len() as int] == last);
        }
    }
}

/// The unresolved call sites of a batch are the places of the batch whose
/// call site holds no address.
pub proof fn unresolved_slots_has(batch: Seq<AssemblyInfoView>, at: SlotRef)
    requires
        fits(batch),
    ensures
        unresolved_slots(batch).contains(at) <==>
            in_batch(batch, at) && !site_at(batch, at).is_resolved(),
    decreases batch.len(),
{
    if batch.len() > 0 {
        let shorter = batch.drop_last();
        let last = (batch.len() - 1) as usize;
        assert(fits(shorter)) by {
            assert forall|a: int| 0 <= a < shorter.len() implies
                (#[trigger] shorter[a]).dispatch_table.len() <= usize::MAX by {
                assert(shorter[a] == batch[a]);
            }
        }
        unresolved_slots_has(shorter, at);
        assert(batch[last as int] == batch.last());
        unresolved_in_has(batch.last().dispatch_table, last, at);
        let left = unresolved_slots(shorter);
        let right = unresolved_in(batch.last().dispatch_table, last);
        let all = left + right;
        if all.contains(at) {
            let i = choose|i: int| 0 <= i < all.len() && all[i] == at;
            if i < left.len() {
                assert(left[i] == at);
            } else {
                assert(right[i - left.len()] == at);
            }
        }
        if left.contains(at) {
            let i = choose|i: int| 0 <= i < left.len() && left[i] == at;
            assert(all[i] == at);
            assert(shorter[at.assembly as int] == batch[at.assembly as int]);
        }
        if right.contains(at) {
            let i = choose|i: int| 0 <= i < right.len() && right[i] == at;
            assert(all[left.len() + i] == at);
        }
        if in_batch(batch, at) && at.assembly < last {
            assert(shorter[at.assembly as int] == batch[at.assembly as int]);
        }
    }
}

/// What is left of a sequence after a test holds the test and comes from
/// the sequence.
pub proof fn kept_by_filter<A>(items: Seq<A>, test: spec_fn(A) -> bool)
    ensures
        forall|i: int|
            0 <= i < items.filter(test).len() ==>
                test(#[trigger] items.filter(test)[i]) && items.contains(
                items.filter(test)[i],
            ),
    decreases items.len(),
{
    reveal(Seq::filter);
    if items.len() > 0 {
        kept_by_filter(items.drop_last(), test);
        let shorter = items.drop_last();
        assert forall|i: int| 0 <= i < items.filter(test).len() implies
            test(#[trigger] items.filter(test)[i]) && items.contains(items.filter(test)[i]) by {
            if i < shorter.filter(test).len() {
                let kept = shorter.filter(test)[i];
                assert(shorter.contains(kept));
                let j = choose|j: int| 0 <= j < shorter.len() && shorter[j] == kept;
                assert(items[j] == kept);
            } else {
                assert(items[items.len() - 1] == items.last());
            }
        }
    }
}

/// A test that every item passes leaves the sequence as it is.
pub proof fn filter_keeps_all<A>(items: Seq<A>, test: spec_fn(A) -> bool)
    requires
        forall|i: int| 0 <= i < items.len() ==> test(#[trigger] items[i]),
    ensures
        items.filter(test) == items,
    decreases items.len(),
{
    reveal(Seq::filter);
    if items.len() > 0 {
        filter_keeps_all(items.drop_last(), test);
        assert(items.drop_last().push(items.last()) =~= items);
    } else {
        assert(items.filter(test) =~= items);
    }
}

/// The table that `functions` alone spell out.
pub open spec fn exports_of(functions: Seq<DefinitionView>) -> Table {
    with_exports(Map::empty(), functions)
}

/// Whether every call site of the assembly holds an address.
pub open spec fn is_linked(info: AssemblyInfoView) -> bool {
    forall|s: int| 0 <= s < info.dispatch_table.len() ==>
        (#[trigger] info.dispatch_table[s]).is_resolved()
}

/// Registering exports in a table is the union of the table with what the
/// exports spell out, in which the exports win.
pub proof fn with_exports_is_union(table: Table, functions: Seq<DefinitionView>)
    ensures
        with_exports(table, functions) == table.union_prefer_right(exports_of(functions)),
    decreases functions.len(),
{
    if functions.len() > 0 {
        with_exports_is_union(table, functions.drop_last());
    }
    assert(with_exports(table, functions) =~= table.union_prefer_right(exports_of(functions)));
}

/// Under a name that the exports do not use, a table holds after
/// registering them what it held before.
pub proof fn with_exports_off_names(table: Table, functions: Seq<DefinitionView>, name: Seq<char>)
    requires
        forall|i: int| 0 <= i < functions.len() ==>
            (#[trigger] functions[i]).prototype.name != name,
    ensures
        with_exports(table, functions).contains_key(name) == table.contains_key(name),
        table.contains_key(name) ==> with_exports(table, functions)[name] == table[name],
    decreases functions.len(),
{
    if functions.len() > 0 {
        let shorter = functions.drop_last();
        assert forall|i: int| 0 <= i < shorter.len() implies
            (#[trigger] shorter[i]).prototype.name != name by {
            assert(shorter[i] == functions[i]);
        }
        with_exports_off_names(table, shorter, name);
        assert(functions.last() == functions[functions.len() - 1]);
    }
}

/// Under a name that the exports use, what a table holds after registering
/// them does not depend on the table.
pub proof fn with_exports_on_names(
    first: Table,
    second: Table,
    functions: Seq<DefinitionView>,
    name: Seq<char>,
)
    requires
        exists|i: int| 0 <= i < functions.len() && (#[trigger] functions[i]).prototype.name == name,
    ensures
        with_exports(first, functions).contains_key(name),
        with_exports(second, functions).contains_key(name),
        with_exports(first, functions)[name] == with_exports(second, functions)[name],
    decreases functions.len(),
{
    let i = choose|i: int| 0 <= i < functions.len()
        && (#[trigger] functions[i]).prototype.name == name;
    if functions.last().prototype.name != name {
        let shorter = functions.drop_last();
        assert(shorter[i].prototype.name == name);
        with_exports_on_names(first, second, shorter, name);
    }
}

/// Registering the same exports a second time changes nothing.
pub proof fn with_exports_twice(table: Table, functions: Seq<DefinitionView>)
    ensures
        with_exports(with_exports(table, functions), functions) == with_exports(table, functions),
{
    let once = with_exports(table, functions);
    let twice = with_exports(once, functions);
    assert forall|name: Seq<char>|
        #![trigger once.contains_key(name)]
        #![trigger twice.contains_key(name)]
        once.contains_key(name) == twice.contains_key(name)
            && (once.contains_key(name) ==> once[name] == twice[name]) by {
        if exists|i: int| 0 <= i < functions.len()
            && (#[trigger] functions[i]).prototype.name == name {
            with_exports_on_names(table, once, functions, name);
        } else {
            with_exports_off_names(once, functions, name);
        }
    }
    assert(twice =~= once);
}

/// Registering one list of exports and then another is registering the
/// two as one list.
pub proof fn with_exports_of_both(
    table: Table,
    first: Seq<DefinitionView>,
    second: Seq<DefinitionView>,
)
    ensures
        with_exports(with_exports(table, first), second) == with_exports(table, first + second),
    decreases second.len(),
{
    if second.len() > 0 {
        with_exports_of_both(table, first, second.drop_last());
        assert((first + second).drop_last() =~= first + second.drop_last());
        assert((first + second).last() == second.last());
    } else {
        assert(first + second =~= first);
    }
}

/// The exports of a batch, assembly by assembly.
pub open spec fn all_exports(batch: Seq<AssemblyInfoView>) -> Seq<DefinitionView>
    decreases batch.len(),
{
    if batch.len() == 0 {
        Seq::empty()
    } else {
        all_exports(batch.drop_last()) + batch.last().functions
    }
}

/// The table that a batch yields is the base with all the batch's exports
/// registered.
pub proof fn linked_table_registers_all(base: Table, batch: Seq<AssemblyInfoView>)
    ensures
        linked_table(base, batch) == with_exports(base, all_exports(batch)),
    decreases batch.len(),
{
    if batch.len() > 0 {
        linked_table_registers_all(base, batch.drop_last());
        with_exports_of_both(base, all_exports(batch.drop_last()), batch.last().functions);
    }
}

/// A table of call sites that all hold an address has no unresolved one.
pub proof fn linked_has_no_unresolved(sites: Seq<CallSiteView>, assembly: usize)
    requires
        forall|s: int| 0 <= s < sites.len() ==> (#[trigger] sites[s]).is_resolved(),
    ensures
        unresolved_in(sites, assembly) == Seq::<SlotRef>::empty(),
    decreases sites.len(),
{
    if sites.len() > 0 {
        let shorter = sites.drop_last();
        assert forall|s: int| 0 <= s < shorter.len() implies
            (#[trigger] shorter[s]).is_resolved() by {
            assert(shorter[s] == sites[s]);
        }
        linked_has_no_unresolved(shorter, assembly);
        assert(sites.last() == sites[sites.len() - 1]);
    }
}

/// A batch of linked assemblies has no unresolved call site.
pub proof fn linked_batch_has_no_unresolved(batch: Seq<AssemblyInfoView>)
    requires
        forall|a: int| 0 <= a < batch.len() ==> is_linked(#[trigger] batch[a]),
    ensures
        unresolved_slots(batch) == Seq::<SlotRef>::empty(),
    decreases batch.len(),
{
    if batch.len() > 0 {
        let shorter = batch.drop_last();
        assert forall|a: int| 0 <= a < shorter.len() implies is_linked(#[trigger] shorter[a]) by {
            assert(shorter[a] == batch[a]);
        }
        linked_batch_has_no_unresolved(shorter);
        assert(is_linked(batch[batch.len() - 1]));
        linked_has_no_unresolved(batch.last().dispatch_table, (batch.len() - 1) as usize);
        assert(unresolved_slots(batch) =~= Seq::<SlotRef>::empty());
    }
}

/// Linking a batch in which every call site already holds an address
/// succeeds, whatever the table, and tries no call site: all it does is
/// register the batch's exports.
pub proof fn linking_a_linked_batch_registers_exports(base: Table, batch: Seq<AssemblyInfoView>)
    requires
        forall|a: int| 0 <= a < batch.len() ==> is_linked(#[trigger] batch[a]),
    ensures
        link_outcome(base, batch) == Ok::<Table, ErrorView>(linked_table(base, batch)),
        link_visits(base, batch) == Seq::<SlotRef>::empty(),
{
    linked_batch_has_no_unresolved(batch);
    let table = linked_table(base, batch);
    let pending = unresolved_slots(batch);
    if has_conflict(table, batch, pending) {
        let k = choose|k: int| first_conflict(table, batch, pending, k);
        assert(first_conflict(table, batch, pending, k));
    }
    assert(pending.filter(lacking(table, batch)) =~= Seq::<SlotRef>::empty()) by {
        reveal(Seq::filter);
    }
}

/// Linking one assembly in which every call site already holds an address
/// yields the union of the table with the assembly's exports.
pub proof fn linking_a_linked_assembly_adds_its_exports(base: Table, info: AssemblyInfoView)
    requires
        is_linked(info),
    ensures
        link_outcome(base, seq![info]) == Ok::<Table, ErrorView>(
            base.union_prefer_right(exports_of(info.functions)),
        ),
        link_visits(base, seq![info]) == Seq::<SlotRef>::empty(),
{
    let batch = seq![info];
    assert(batch[0] == info);
    linking_a_linked_batch_registers_exports(base, batch);
    assert(batch.drop_last() =~= Seq::<AssemblyInfoView>::empty());
    assert(linked_table(base, batch.drop_last()) == base);
    assert(batch.last() == info);
    with_exports_is_union(base, info.functions);
}

/// The table that a batch yields depends on the batch's exports alone.
pub proof fn linked_table_of_same_exports(
    base: Table,
    first: Seq<AssemblyInfoView>,
    second: Seq<AssemblyInfoView>,
)
    requires
        first.len() == second.len(),
        forall|a: int| 0 <= a < first.len() ==>
            (#[trigger] first[a]).functions == second[a].functions,
    ensures
        linked_table(base, first) == linked_table(base, second),
    decreases first.len(),
{
    if first.len() > 0 {
        assert(first[first.len() - 1].functions == second[first.len() - 1].functions);
        assert forall|a: int| 0 <= a < first.drop_last().len() implies
            (#[trigger] first.drop_last()[a]).functions
            == second.drop_last()[a].functions by {
            assert(first[a].functions == second[a].functions);
        }
        linked_table_of_same_exports(base, first.drop_last(), second.drop_last());
    }
}

/// Linking is idempotent. Let `before` be a batch, and `after` the same
/// batch with the same exports in which every call site holds an address,
/// as a link that succeeded leaves it. Then linking `after` against the
/// table that linking `before` against `base` yields gives that table
/// again, and tries no call site.
pub proof fn relinking_changes_nothing(
    base: Table,
    before: Seq<AssemblyInfoView>,
    after: Seq<AssemblyInfoView>,
)
    requires
        before.len() == after.len(),
        forall|a: int| 0 <= a < before.len() ==>
            (#[trigger] before[a]).functions == after[a].functions,
        forall|a: int| 0 <= a < after.len() ==> is_linked(#[trigger] after[a]),
    ensures
        link_outcome(linked_table(base, before), after)
            == Ok::<Table, ErrorView>(linked_table(base, before)),
        link_visits(linked_table(base, before), after) == Seq::<SlotRef>::empty(),
{
    let table = linked_table(base, before);
    linked_table_of_same_exports(base, before, after);
    linking_a_linked_batch_registers_exports(table, after);
    linked_table_registers_all(base, after);
    linked_table_registers_all(table, after);
    with_exports_twice(base, all_exports(after));
}

/// A link that succeeds leaves no call site of the batch unresolved.
pub proof fn successful_link_resolves_every_call_site(
    base: Table,
    batch: Seq<AssemblyInfoView>,
    at: SlotRef,
)
    requires
        fits(batch),
        link_outcome(base, batch) is Ok,
        in_batch(batch, at),
    ensures
        site_after(linked_table(base, batch), batch, link_visits(base, batch), at).is_resolved(),
{
    let table = linked_table(base, batch);
    let pending = unresolved_slots(batch);
    let site = site_at(batch, at);
    unresolved_slots_has(batch, at);
    if !site.is_resolved() {
        let k = choose|k: int| 0 <= k < pending.len() && pending[k] == at;
        if conflicts(table, site) {
            least_conflict(table, batch, pending, k);
        }
        if lacks(table, site) {
            pending.lemma_filter_contains(lacking(table, batch), k);
        }
    }
}

/// A link fails with a signature mismatch whenever an unresolved call site
/// expects a name that is registered with another signature: such a call
/// site is never resolved, and never waited for.
pub proof fn conflicting_call_site_fails_the_link(
    base: Table,
    batch: Seq<AssemblyInfoView>,
    at: SlotRef,
)
    requires
        fits(batch),
        in_batch(batch, at),
        !site_at(batch, at).is_resolved(),
        conflicts(linked_table(base, batch), site_at(batch, at)),
    ensures
        link_outcome(base, batch) matches Err(ErrorView::SignatureMismatch(..)),
        site_after(linked_table(base, batch), batch, link_visits(base, batch), at)
            == site_at(batch, at),
{
    let table = linked_table(base, batch);
    let pending = unresolved_slots(batch);
    unresolved_slots_has(batch, at);
    let k = choose|k: int| 0 <= k < pending.len() && pending[k] == at;
    least_conflict(table, batch, pending, k);
}

/// A link fails whenever an unresolved call site expects a name that
/// nothing registers; if no call site conflicts, the failure names that
/// call site's name among the missing dependencies.
pub proof fn lacking_call_site_fails_the_link(
    base: Table,
    batch: Seq<AssemblyInfoView>,
    at: SlotRef,
)
    requires
        fits(batch),
        in_batch(batch, at),
        !site_at(batch, at).is_resolved(),
        lacks(linked_table(base, batch), site_at(batch, at)),
    ensures
        link_outcome(base, batch) is Err,
        !has_conflict(linked_table(base, batch), batch, unresolved_slots(batch)) ==> (link_outcome(
            base,
            batch,
        ) matches Err(ErrorView::MissingDependency(names)) && names.contains(
            site_at(batch, at).prototype.name,
        )),
        site_after(linked_table(base, batch), batch, link_visits(base, batch), at)
            == site_at(batch, at),
{
    let table = linked_table(base, batch);
    let pending = unresolved_slots(batch);
    let missing = pending.filter(lacking(table, batch));
    unresolved_slots_has(batch, at);
    let k = choose|k: int| 0 <= k < pending.len() && pending[k] == at;
    pending.lemma_filter_contains(lacking(table, batch), k);
    let m = choose|m: int| 0 <= m < missing.len() && missing[m] == at;
    assert(names_of(batch, missing)[m] == site_at(batch, at).prototype.name);
}

/// A swap that leaves no object orphaned keeps no more libraries than
/// there were: the library swapped out is not added. A swap that leaves
/// objects orphaned keeps the library swapped out as the newest legacy
/// library.
pub proof fn swapped_out_library_is_kept_for_orphans<L>(
    brought: Seq<L>,
    kept: Seq<L>,
    swapped_out: L,
    orphaned: nat,
)
    ensures
        orphaned == 0 ==> legacy_after_swap(brought, kept, swapped_out, orphaned) == brought + kept,
        orphaned > 0 ==>
            legacy_after_swap(brought, kept, swapped_out, orphaned).last() == swapped_out,
        orphaned > 0 ==>
            legacy_after_swap(brought, kept, swapped_out, orphaned).contains(swapped_out),
{
    if orphaned > 0 {
        let legacy = legacy_after_swap(brought, kept, swapped_out, orphaned);
        assert(legacy[legacy.len() - 1] == swapped_out);
    }
}

/// A library that a swap kept for orphaned objects is still kept after
/// the next swap of the assembly, whatever that one leaves orphaned.
pub proof fn kept_library_survives_next_swap<L>(
    brought: Seq<L>,
    kept: Seq<L>,
    swapped_out: L,
    orphaned: nat,
    next_brought: Seq<L>,
    next_swapped_out: L,
    next_orphaned: nat,
)
    requires
        orphaned > 0,
    ensures
        legacy_after_swap(
            next_brought,
            legacy_after_swap(brought, kept, swapped_out, orphaned),
            next_swapped_out,
            next_orphaned,
        ).contains(swapped_out),
{
    let first = legacy_after_swap(brought, kept, swapped_out, orphaned);
    let second = legacy_after_swap(next_brought, first, next_swapped_out, next_orphaned);
    assert(first[first.len() - 1] == swapped_out);
    assert(second[next_brought.len() + first.len() - 1] == swapped_out);
}

} // verus!
