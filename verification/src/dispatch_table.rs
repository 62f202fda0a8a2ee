//! The runtime's registry of exported functions, by name.

use crate::abi::{DefinitionView, FunctionDefinition};
use vstd::prelude::*;

verus! {

/// One entry of the registry: a name and the function registered under it.
#[derive(Debug)]
struct Entry {
    name: String,
    function: FunctionDefinition,
}

/// No name occurs twice among `entries`.
spec fn unique(entries: Seq<Entry>) -> bool {
    forall|i: int, j: int|
        0 <= i < j < entries.len() ==> #[trigger] entries[i].name@ != #[trigger] entries[j].name@
}

/// Whether the entry at `i` is registered under `name`.
spec fn holds_at(entries: Seq<Entry>, name: Seq<char>, i: int) -> bool {
    0 <= i < entries.len() && entries[i].name@ == name
}

/// The place of the entry registered under `name`, if there is one.
spec fn position(entries: Seq<Entry>, name: Seq<char>) -> Option<int> {
    if exists|i: int| holds_at(entries, name, i) {
        Some(choose|i: int| holds_at(entries, name, i))
    } else {
        None
    }
}

/// The map from names to definitions that `entries` spell out.
spec fn table_of(entries: Seq<Entry>) -> Map<Seq<char>, DefinitionView> {
    Map::new(
        |name: Seq<char>| position(entries, name) is Some,
        |name: Seq<char>| entries[position(entries, name).unwrap()].function@,
    )
}

/// The place of `name` is the one place that holds it.
proof fn position_is(entries: Seq<Entry>, name: Seq<char>, i: int)
    requires
        unique(entries),
        holds_at(entries, name, i),
    ensures
        position(entries, name) == Some(i),
        table_of(entries).contains_key(name),
        table_of(entries)[name] == entries[i].function@,
{
    let chosen = choose|k: int| holds_at(entries, name, k);
    assert(holds_at(entries, name, chosen));
    if chosen < i {
        assert(entries[chosen].name@ != entries[i].name@);
    } else if i < chosen {
        assert(entries[i].name@ != entries[chosen].name@);
    }
}

/// A name that no place holds is no key of the map.
proof fn position_none(entries: Seq<Entry>, name: Seq<char>)
    requires
        forall|i: int| !holds_at(entries, name, i),
    ensures
        position(entries, name) is None,
        !table_of(entries).contains_key(name),
{
}

/// Every key of the map is held at some place.
proof fn key_is_held(entries: Seq<Entry>, name: Seq<char>) -> (i: int)
    requires
        table_of(entries).contains_key(name),
    ensures
        holds_at(entries, name, i),
        position(entries, name) == Some(i),
{
    choose|k: int| holds_at(entries, name, k)
}

/// Two lists that agree place by place on names and definitions spell out
/// the same map.
proof fn same_table(a: Seq<Entry>, b: Seq<Entry>)
    requires
        unique(a),
        a.len() == b.len(),
        forall|i: int| 0 <= i < a.len() ==>
            a[i].name@ == b[i].name@ && a[i].function@ == b[i].function@,
    ensures
        unique(b),
        table_of(a) == table_of(b),
{
    assert(unique(b)) by {
        assert forall|i: int, j: int| 0 <= i < j < b.len() implies
            #[trigger] b[i].name@ != #[trigger] b[j].name@ by {
            assert(a[i].name@ != a[j].name@);
        }
    }
    assert forall|name: Seq<char>|
        #![trigger table_of(a).contains_key(name)]
        #![trigger table_of(b).contains_key(name)]
        table_of(a).contains_key(name) == table_of(b).contains_key(name)
            && (table_of(a).contains_key(name) ==> table_of(a)[name] == table_of(b)[name]) by {
        if table_of(a).contains_key(name) {
            let i = key_is_held(a, name);
            assert(holds_at(b, name, i));
            position_is(b, name, i);
        } else if table_of(b).contains_key(name) {
            let i = key_is_held(b, name);
            assert(holds_at(a, name, i));
            position_is(a, name, i);
        }
    }
    assert(table_of(a) =~= table_of(b));
}

/// Putting an entry in the place that holds its name overwrites the
/// definition registered under the name.
proof fn replaced_table(entries: Seq<Entry>, i: int, entry: Entry)
    requires
        unique(entries),
        holds_at(entries, entry.name@, i),
    ensures
        unique(entries.update(i, entry)),
        table_of(entries.update(i, entry))
            == table_of(entries).insert(entry.name@, entry.function@),
{
    let after = entries.update(i, entry);
    assert(unique(after)) by {
        assert forall|a: int, b: int| 0 <= a < b < after.len() implies
            #[trigger] after[a].name@ != #[trigger] after[b].name@ by {
            assert(entries[a].name@ != entries[b].name@);
        }
    }
    let expected = table_of(entries).insert(entry.name@, entry.function@);
    assert forall|name: Seq<char>|
        #![trigger table_of(after).contains_key(name)]
        #![trigger expected.contains_key(name)]
        table_of(after).contains_key(name) == expected.contains_key(name)
            && (expected.contains_key(name) ==> table_of(after)[name] == expected[name]) by {
        if name == entry.name@ {
            assert(holds_at(after, name, i));
            position_is(after, name, i);
        } else if table_of(entries).contains_key(name) {
            let k = key_is_held(entries, name);
            assert(holds_at(after, name, k));
            position_is(after, name, k);
            position_is(entries, name, k);
        } else if table_of(after).contains_key(name) {
            let k = key_is_held(after, name);
            assert(holds_at(entries, name, k));
            position_is(entries, name, k);
        }
    }
    assert(table_of(after) =~= expected);
}

/// Appending an entry whose name no place holds registers it.
proof fn pushed_table(entries: Seq<Entry>, entry: Entry)
    requires
        unique(entries),
        forall|i: int| !holds_at(entries, entry.name@, i),
    ensures
        unique(entries.push(entry)),
        table_of(entries.push(entry)) == table_of(entries).insert(entry.name@, entry.function@),
{
    let after = entries.push(entry);
    let last = entries.len() as int;
    assert(unique(after)) by {
        assert forall|a: int, b: int| 0 <= a < b < after.len() implies
            #[trigger] after[a].name@ != #[trigger] after[b].name@ by {
            if b < last {
                assert(entries[a].name@ != entries[b].name@);
            } else {
                assert(!holds_at(entries, entry.name@, a));
            }
        }
    }
    let expected = table_of(entries).insert(entry.name@, entry.function@);
    assert forall|name: Seq<char>|
        #![trigger table_of(after).contains_key(name)]
        #![trigger expected.contains_key(name)]
        table_of(after).contains_key(name) == expected.contains_key(name)
            && (expected.contains_key(name) ==> table_of(after)[name] == expected[name]) by {
        if name == entry.name@ {
            assert(holds_at(after, name, last));
            position_is(after, name, last);
        } else if table_of(entries).contains_key(name) {
            let k = key_is_held(entries, name);
            assert(holds_at(after, name, k));
            position_is(after, name, k);
            position_is(entries, name, k);
        } else if table_of(after).contains_key(name) {
            let k = key_is_held(after, name);
            assert(holds_at(entries, name, k));
            position_is(entries, name, k);
        }
    }
    assert(table_of(after) =~= expected);
}

/// Taking out the entry at a place takes its name out of the map.
proof fn removed_table(entries: Seq<Entry>, i: int)
    requires
        unique(entries),
        0 <= i < entries.len(),
    ensures
        unique(entries.remove(i)),
        table_of(entries.remove(i)) == table_of(entries).remove(entries[i].name@),
{
    let after = entries.remove(i);
    let gone = entries[i].name@;
    assert forall|k: int| 0 <= k < after.len() implies
        after[k] == entries[if k < i { k } else { k + 1 }] by {}
    assert(unique(after)) by {
        assert forall|a: int, b: int| 0 <= a < b < after.len() implies
            #[trigger] after[a].name@ != #[trigger] after[b].name@ by {
            let a0 = if a < i { a } else { a + 1 };
            let b0 = if b < i { b } else { b + 1 };
            assert(entries[a0].name@ != entries[b0].name@);
        }
    }
    let expected = table_of(entries).remove(gone);
    assert forall|name: Seq<char>|
        #![trigger table_of(after).contains_key(name)]
        #![trigger expected.contains_key(name)]
        table_of(after).contains_key(name) == expected.contains_key(name)
            && (expected.contains_key(name) ==> table_of(after)[name] == expected[name]) by {
        if table_of(after).contains_key(name) {
            let k = key_is_held(after, name);
            let k0 = if k < i { k } else { k + 1 };
            assert(holds_at(entries, name, k0));
            position_is(entries, name, k0);
            if name == gone {
                if k0 < i {
                    assert(entries[k0].name@ != entries[i].name@);
                } else {
                    assert(entries[i].name@ != entries[k0].name@);
                }
            }
        } else if expected.contains_key(name) {
            let k0 = key_is_held(entries, name);
            assert(k0 != i);
            let k = if k0 < i { k0 } else { k0 - 1 };
            assert(holds_at(after, name, k));
            position_is(after, name, k);
        }
    }
    assert(table_of(after) =~= expected);
}

/// Maps the name of each exported function to its definition. A name occurs
/// at most once; inserting under a name that is taken replaces the entry.
#[derive(Debug)]
pub struct DispatchTable {
    entries: Vec<Entry>,
}

impl View for DispatchTable {
    type V = Map<Seq<char>, DefinitionView>;

    closed spec fn view(&self) -> Map<Seq<char>, DefinitionView> {
        table_of(self.entries@)
    }
}

impl DispatchTable {
    #[verifier::type_invariant]
    spec fn names_are_unique(self) -> bool {
        unique(self.entries@)
    }

    /// A table without entries.
    pub fn new() -> (table: DispatchTable)
        ensures
            table@ == Map::<Seq<char>, DefinitionView>::empty(),
    {
        let table = DispatchTable { entries: Vec::new() };
        assert(table@ =~= Map::<Seq<char>, DefinitionView>::empty()) by {
            assert forall|name: Seq<char>| !table@.contains_key(name) by {
                position_none(table.entries@, name);
            }
        }
        table
    }

    /// The index of the entry registered under `name`.
    fn find(entries: &Vec<Entry>, name: &String) -> (found: Option<usize>)
        ensures
            match found {
                Some(i) => holds_at(entries@, name@, i as int),
                None => forall|i: int| !holds_at(entries@, name@, i),
            },
    {
        let mut i: usize = 0;
        while i < entries.len()
            invariant
                i <= entries.len(),
                forall|k: int| 0 <= k < i ==> !holds_at(entries@, name@, k),
            decreases entries.len() - i,
        {
            if entries[i].name == *name {
                return Some(i);
            }
            i += 1;
        }
        None
    }

    /// The function registered under `name`, if there is one.
    pub fn get_fn(&self, name: &String) -> (function: Option<&FunctionDefinition>)
        ensures
            match function {
                Some(definition) => self@.contains_key(name@) && definition@ == self@[name@],
                None => !self@.contains_key(name@),
            },
    {
        proof {
            use_type_invariant(self);
        }
        match Self::find(&self.entries, name) {
            Some(i) => {
                proof {
                    position_is(self.entries@, name@, i as int);
                }
                Some(&self.entries[i].function)
            },
            None => {
                proof {
                    position_none(self.entries@, name@);
                }
                None
            },
        }
    }

    /// Registers `function` under `name`, in place of whatever was
    /// registered under that name. Returns what was replaced.
    pub fn insert_fn(
        &mut self,
        name: String,
        function: FunctionDefinition,
    ) -> (replaced: Option<FunctionDefinition>)
        ensures
            final(self)@ == old(self)@.insert(name@, function@),
            match replaced {
                Some(definition) => old(self)@.contains_key(name@)
                    && definition@ == old(self)@[name@],
                None => !old(self)@.contains_key(name@),
            },
    {
        proof {
            use_type_invariant(&*self);
        }
        let mut entries: Vec<Entry> = Vec::new();
        std::mem::swap(&mut self.entries, &mut entries);
        let ghost before = entries@;
        let mut entry = Entry { name, function };
        match Self::find(&entries, &entry.name) {
            Some(i) => {
                proof {
                    position_is(before, entry.name@, i as int);
                    replaced_table(before, i as int, entry);
                }
                std::mem::swap(&mut entries[i], &mut entry);
                self.entries = entries;
                Some(entry.function)
            },
            None => {
                proof {
                    position_none(before, entry.name@);
                    pushed_table(before, entry);
                }
                entries.push(entry);
                self.entries = entries;
                None
            },
        }
    }

    /// Takes out whatever is registered under `name`, and returns it.
    pub fn remove_fn(&mut self, name: &String) -> (removed: Option<FunctionDefinition>)
        ensures
            final(self)@ == old(self)@.remove(name@),
            match removed {
                Some(definition) => old(self)@.contains_key(name@)
                    && definition@ == old(self)@[name@],
                None => !old(self)@.contains_key(name@),
            },
    {
        proof {
            use_type_invariant(&*self);
        }
        match Self::find(&self.entries, name) {
            Some(i) => {
                let mut entries: Vec<Entry> = Vec::new();
                std::mem::swap(&mut self.entries, &mut entries);
                proof {
                    position_is(entries@, name@, i as int);
                    removed_table(entries@, i as int);
                }
                let entry = entries.remove(i);
                self.entries = entries;
                Some(entry.function)
            },
            None => {
                proof {
                    position_none(self.entries@, name@);
                    assert(self@ =~= self@.remove(name@));
                }
                None
            },
        }
    }

    /// A copy of the table. What is done to the copy leaves the table as it
    /// is, so a batch of changes can be tried on the copy and dropped.
    pub fn snapshot(&self) -> (copy: DispatchTable)
        ensures
            copy@ == self@,
    {
        proof {
            use_type_invariant(self);
        }
        let mut entries: Vec<Entry> = Vec::with_capacity(self.entries.len());
        let mut i: usize = 0;
        while i < self.entries.len()
            invariant
                i <= self.entries.len(),
                entries.len() == i,
                forall|k: int|
                    0 <= k < i ==>
                        entries@[k].name@ == self.entries@[k].name@ && entries@[k].function@
                        == self.entries@[k].function@,
            decreases self.entries.len() - i,
        {
            entries.push(
                Entry { name: self.entries[i].name.clone(),
                    function: self.entries[i].function.clone() },
            );
            i += 1;
        }
        proof {
            same_table(self.entries@, entries@);
        }
        DispatchTable { entries }
    }
}

impl Clone for DispatchTable {
    fn clone(&self) -> (copy: DispatchTable)
        ensures
            copy@ == self@,
    {
        self.snapshot()
    }
}

} // verus!
