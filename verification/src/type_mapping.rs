//! How the types of one build of an assembly correspond to those of the
//! next.

use crate::abi::{TypeId, TypeInfo, TypeInfoView};
use vstd::prelude::*;

verus! {

/// What becomes of a type when an assembly is swapped for a newer build.
#[derive(Clone, Copy, Debug, PartialEq, Eq, Structural)]
pub enum TypeChange {
    /// The newer build has the type, with the same layout. Objects of the
    /// type stay as they are.
    Unchanged,
    /// The newer build has the type, with another layout. Objects of the
    /// type are migrated.
    Relayout,
    /// The newer build does not have the type. Objects of the type are
    /// orphaned.
    Removed,
}

/// What becomes of one type of the older build.
#[derive(Clone, Copy, Debug, PartialEq, Eq, Structural)]
pub struct MappedType {
    pub id: TypeId,
    pub change: TypeChange,
}

/// What becomes of each type of the older build, in the order of its type
/// table.
#[derive(Debug)]
pub struct TypeMapping {
    pub types: Vec<MappedType>,
}

/// `j` is the first place in `types` of a type with the identity `id`.
pub open spec fn first_with_id(types: Seq<TypeInfoView>, id: TypeId, j: int) -> bool {
    &&& 0 <= j < types.len()
    &&& types[j].id == id
    &&& forall|i: int| 0 <= i < j ==> (#[trigger] types[i]).id != id
}

/// What becomes of the type `ty` when the newer build has the types
/// `new_types`. Types are matched by identity; of several types with one
/// identity the first counts.
pub open spec fn change_of(ty: TypeInfoView, new_types: Seq<TypeInfoView>) -> TypeChange {
    if exists|j: int| first_with_id(new_types, ty.id, j) {
        let j = choose|j: int| first_with_id(new_types, ty.id, j);
        if new_types[j].layout == ty.layout {
            TypeChange::Unchanged
        } else {
            TypeChange::Relayout
        }
    } else {
        TypeChange::Removed
    }
}

/// What becomes of each of `old_types` when the newer build has
/// `new_types`.
pub open spec fn mapping_of(old_types: Seq<TypeInfoView>, new_types: Seq<TypeInfoView>) -> Seq<
    MappedType,
> {
    Seq::new(
        old_types.len(),
        |i: int| MappedType { id: old_types[i].id, change: change_of(old_types[i], new_types) },
    )
}

impl TypeMapping {
    /// Works out what becomes of each of `old_types` when the newer build
    /// has `new_types`.
    pub fn new(old_types: &Vec<TypeInfo>, new_types: &Vec<TypeInfo>) -> (mapping: TypeMapping)
        ensures
            mapping.types@ == mapping_of(
                old_types@.map_values(|ty: TypeInfo| ty@),
                new_types@.map_values(|ty: TypeInfo| ty@),
            ),
    {
        let ghost olds = old_types@.map_values(|ty: TypeInfo| ty@);
        let ghost news = new_types@.map_values(|ty: TypeInfo| ty@);
        let mut types: Vec<MappedType> = Vec::with_capacity(old_types.len());
        let mut i: usize = 0;
        while i < old_types.len()
            invariant
                i <= old_types.len(),
                olds == old_types@.map_values(|ty: TypeInfo| ty@),
                news == new_types@.map_values(|ty: TypeInfo| ty@),
                types@ == mapping_of(olds, news).take(i as int),
            decreases old_types.len() - i,
        {
            let ty = &old_types[i];
            let mut change = TypeChange::Removed;
            let mut j: usize = 0;
            let mut found = false;
            while j < new_types.len() && !found
                invariant
                    j <= new_types.len(),
                    news == new_types@.map_values(|ty: TypeInfo| ty@),
                    !found ==> forall|k: int| 0 <= k < j ==> (#[trigger] news[k]).id != ty@.id,
                    !found ==> change == TypeChange::Removed,
                    found ==> change == change_of(ty@, news),
                decreases new_types.len() - j, (if found { 0int } else { 1int }),
            {
                if new_types[j].id == ty.id {
                    proof {
                        assert(first_with_id(news, ty@.id, j as int));
                        let chosen = choose|k: int| first_with_id(news, ty@.id, k);
                        if chosen < j {
                            assert(news[chosen].id != ty@.id);
                        } else if j < chosen {
                            assert(news[j as int].id != ty@.id);
                        }
                    }
                    change =
                    if new_types[j].same_layout(ty) {
                        TypeChange::Unchanged
                    } else {
                        TypeChange::Relayout
                    };
                    found = true;
                } else {
                    j += 1;
                }
            }
            proof {
                if !found {
                    if exists|k: int| first_with_id(news, ty@.id, k) {
                        let k = choose|k: int| first_with_id(news, ty@.id, k);
                        assert(news[k].id != ty@.id);
                    }
                }
            }
            types.push(MappedType { id: ty.id, change });
            proof {
                assert(types@ =~= mapping_of(olds, news).take(i + 1));
            }
            i += 1;
        }
        proof {
            assert(mapping_of(olds, news).take(i as int) =~= mapping_of(olds, news));
        }
        TypeMapping { types }
    }
}

} // verus!
