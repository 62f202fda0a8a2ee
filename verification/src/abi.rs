//! The metadata that a compiled assembly carries: type identities, function
//! prototypes and definitions, and the call sites that await resolution.

use vstd::prelude::*;

verus! {

/// The ABI version that this runtime understands.
pub const ABI_VERSION: u32 = 300;

/// The identity of a type. It is stable across versions of an assembly: two
/// builds that define the same type give it the same identity.
#[derive(Clone, Copy, Debug, PartialEq, Eq, Hash, Structural)]
pub struct TypeId {
    pub guid: u128,
}

impl TypeId {
    /// The identity with the given GUID.
    pub fn new(guid: u128) -> (id: TypeId)
        ensures
            id.guid == guid,
    {
        TypeId { guid }
    }
}

/// The types that a function takes, in order, and the type it returns.
#[derive(Debug)]
pub struct FunctionSignature {
    pub arg_types: Vec<TypeId>,
    pub return_type: Option<TypeId>,
}

/// What a [`FunctionSignature`] stands for in contracts.
pub struct SignatureView {
    pub arg_types: Seq<TypeId>,
    pub return_type: Option<TypeId>,
}

impl View for FunctionSignature {
    type V = SignatureView;

    open spec fn view(&self) -> SignatureView {
        SignatureView { arg_types: self.arg_types@, return_type: self.return_type }
    }
}

impl FunctionSignature {
    /// A signature with the given argument types and return type.
    pub fn new(arg_types: Vec<TypeId>, return_type: Option<TypeId>) -> (signature:
        FunctionSignature)
        ensures
            signature@.arg_types == arg_types@,
            signature@.return_type == return_type,
    {
        FunctionSignature { arg_types, return_type }
    }
}

impl Clone for FunctionSignature {
    fn clone(&self) -> (copy: FunctionSignature)
        ensures
            copy@ == self@,
    {
        let mut arg_types: Vec<TypeId> = Vec::with_capacity(self.arg_types.len());
        let mut i: usize = 0;
        while i < self.arg_types.len()
            invariant
                i <= self.arg_types.len(),
                arg_types@ == self.arg_types@.take(i as int),
            decreases self.arg_types.len() - i,
        {
            arg_types.push(self.arg_types[i]);
            i += 1;
        }
        let copy = FunctionSignature { arg_types, return_type: self.return_type };
        assert(copy@.arg_types =~= self@.arg_types);
        copy
    }
}

impl PartialEq for FunctionSignature {
    fn eq(&self, other: &FunctionSignature) -> (equal: bool) {
        if self.arg_types.len() != other.arg_types.len() {
            return false;
        }
        let mut i: usize = 0;
        while i < self.arg_types.len()
            invariant
                i <= self.arg_types.len(),
                self.arg_types.len() == other.arg_types.len(),
                self.arg_types@.take(i as int) == other.arg_types@.take(i as int),
            decreases self.arg_types.len() - i,
        {
            if self.arg_types[i] != other.arg_types[i] {
                assert(self.arg_types@[i as int] != other.arg_types@[i as int]);
                return false;
            }
            assert(self.arg_types@.take(i + 1) =~= self.arg_types@.take(i as int).push(
                self.arg_types@[i as int],
            ));
            assert(other.arg_types@.take(i + 1) =~= other.arg_types@.take(i as int).push(
                other.arg_types@[i as int],
            ));
            i += 1;
        }
        assert(self.arg_types@ =~= self.arg_types@.take(i as int));
        assert(other.arg_types@ =~= other.arg_types@.take(i as int));
        match (self.return_type, other.return_type) {
            (Some(a), Some(b)) => a == b,
            (None, None) => true,
            _ => false,
        }
    }
}

impl Eq for FunctionSignature {}

impl vstd::std_specs::cmp::PartialEqSpecImpl for FunctionSignature {
    open spec fn obeys_eq_spec() -> bool {
        true
    }

    open spec fn eq_spec(&self, other: &FunctionSignature) -> bool {
        self@ == other@
    }
}


/// The name of a function together with its signature. Two functions can
/// stand in for each other only if their prototypes are the same: the same
/// name, the same argument types in the same order, the same return type.
#[derive(Debug)]
pub struct FunctionPrototype {
    pub name: String,
    pub signature: FunctionSignature,
}

/// What a [`FunctionPrototype`] stands for in contracts.
pub struct PrototypeView {
    pub name: Seq<char>,
    pub signature: SignatureView,
}

impl View for FunctionPrototype {
    type V = PrototypeView;

    open spec fn view(&self) -> PrototypeView {
        PrototypeView { name: self.name@, signature: self.signature@ }
    }
}

impl FunctionPrototype {
    /// The prototype of the function `name` with the given signature.
    pub fn new(name: String, signature: FunctionSignature) -> (prototype: FunctionPrototype)
        ensures
            prototype@.name == name@,
            prototype@.signature == signature@,
    {
        FunctionPrototype { name, signature }
    }

    /// The function's name.
    pub fn name(&self) -> (name: &String)
        ensures
            name@ == self@.name,
    {
        &self.name
    }
}

impl Clone for FunctionPrototype {
    fn clone(&self) -> (copy: FunctionPrototype)
        ensures
            copy@ == self@,
    {
        FunctionPrototype { name: self.name.clone(), signature: self.signature.clone() }
    }
}

impl PartialEq for FunctionPrototype {
    fn eq(&self, other: &FunctionPrototype) -> (equal: bool) {
        self.name == other.name && self.signature == other.signature
    }
}

impl Eq for FunctionPrototype {}

impl vstd::std_specs::cmp::PartialEqSpecImpl for FunctionPrototype {
    open spec fn obeys_eq_spec() -> bool {
        true
    }

    open spec fn eq_spec(&self, other: &FunctionPrototype) -> bool {
        self@ == other@
    }
}

/// A function that an assembly exports: its prototype and the address of
/// its code.
#[derive(Debug)]
pub struct FunctionDefinition {
    pub prototype: FunctionPrototype,
    pub fn_ptr: usize,
}

/// What a [`FunctionDefinition`] stands for in contracts.
pub struct DefinitionView {
    pub prototype: PrototypeView,
    pub fn_ptr: usize,
}

impl View for FunctionDefinition {
    type V = DefinitionView;

    open spec fn view(&self) -> DefinitionView {
        DefinitionView { prototype: self.prototype@, fn_ptr: self.fn_ptr }
    }
}

impl FunctionDefinition {
    /// The definition of the function with the given prototype, whose code
    /// starts at `fn_ptr`.
    pub fn new(prototype: FunctionPrototype, fn_ptr: usize) -> (definition: FunctionDefinition)
        ensures
            definition@.prototype == prototype@,
            definition@.fn_ptr == fn_ptr,
    {
        FunctionDefinition { prototype, fn_ptr }
    }
}

impl Clone for FunctionDefinition {
    fn clone(&self) -> (copy: FunctionDefinition)
        ensures
            copy@ == self@,
    {
        FunctionDefinition { prototype: self.prototype.clone(), fn_ptr: self.fn_ptr }
    }
}

impl PartialEq for FunctionDefinition {
    fn eq(&self, other: &FunctionDefinition) -> (equal: bool) {
        self.prototype == other.prototype && self.fn_ptr == other.fn_ptr
    }
}

impl Eq for FunctionDefinition {}

impl vstd::std_specs::cmp::PartialEqSpecImpl for FunctionDefinition {
    open spec fn obeys_eq_spec() -> bool {
        true
    }

    open spec fn eq_spec(&self, other: &FunctionDefinition) -> bool {
        self@ == other@
    }
}

/// A place in an assembly's code that calls a function defined elsewhere.
/// It holds the prototype that the caller expects and, once the call site is
/// resolved, the address of the function's code.
#[derive(Debug)]
pub struct CallSite {
    pub prototype: FunctionPrototype,
    pub fn_ptr: Option<usize>,
}

/// What a [`CallSite`] stands for in contracts.
pub struct CallSiteView {
    pub prototype: PrototypeView,
    pub fn_ptr: Option<usize>,
}

impl CallSiteView {
    /// Whether the call site holds an address.
    pub open spec fn is_resolved(self) -> bool {
        self.fn_ptr is Some
    }

    /// This call site, holding `fn_ptr`.
    pub open spec fn resolved_to(self, fn_ptr: usize) -> CallSiteView {
        CallSiteView { prototype: self.prototype, fn_ptr: Some(fn_ptr) }
    }

    /// This call site, holding no address.
    pub open spec fn reverted(self) -> CallSiteView {
        CallSiteView { prototype: self.prototype, fn_ptr: None }
    }
}

impl View for CallSite {
    type V = CallSiteView;

    open spec fn view(&self) -> CallSiteView {
        CallSiteView { prototype: self.prototype@, fn_ptr: self.fn_ptr }
    }
}

impl CallSite {
    /// A call site that awaits resolution.
    pub fn unresolved(prototype: FunctionPrototype) -> (site: CallSite)
        ensures
            site@.prototype == prototype@,
            site@.fn_ptr is None,
    {
        CallSite { prototype, fn_ptr: None }
    }

    /// A call site that already holds the address `fn_ptr`.
    pub fn resolved(prototype: FunctionPrototype, fn_ptr: usize) -> (site: CallSite)
        ensures
            site@.prototype == prototype@,
            site@.fn_ptr == Some(fn_ptr),
    {
        CallSite { prototype, fn_ptr: Some(fn_ptr) }
    }

    /// Whether the call site holds an address.
    pub fn is_resolved(&self) -> (resolved: bool)
        ensures
            resolved == self@.is_resolved(),
    {
        self.fn_ptr.is_some()
    }
}

/// The call sites of one assembly that need a function from elsewhere.
#[derive(Debug)]
pub struct ForeignCodeTable {
    pub slots: Vec<CallSite>,
}

impl View for ForeignCodeTable {
    type V = Seq<CallSiteView>;

    open spec fn view(&self) -> Seq<CallSiteView> {
        self.slots@.map_values(|site: CallSite| site@)
    }
}

impl ForeignCodeTable {
    /// The table with the given call sites.
    pub fn new(slots: Vec<CallSite>) -> (table: ForeignCodeTable)
        ensures
            table.slots == slots,
    {
        ForeignCodeTable { slots }
    }

    /// The number of call sites.
    pub fn len(&self) -> (len: usize)
        ensures
            len == self@.len(),
    {
        self.slots.len()
    }

    /// The call site at `index`.
    pub fn get(&self, index: usize) -> (site: &CallSite)
        requires
            index < self@.len(),
        ensures
            site@ == self@[index as int],
    {
        &self.slots[index]
    }

    /// Writes the address `fn_ptr` into the call site at `index`.
    pub fn resolve(&mut self, index: usize, fn_ptr: usize)
        requires
            index < old(self)@.len(),
        ensures
            final(self)@
                == old(self)@.update(index as int, old(self)@[index as int].resolved_to(fn_ptr)),
    {
        self.slots[index].fn_ptr = Some(fn_ptr);
        assert(self@
            =~= old(self)@.update(index as int, old(self)@[index as int].resolved_to(fn_ptr)));
    }

    /// Takes the address out of the call site at `index`.
    pub fn revert(&mut self, index: usize)
        requires
            index < old(self)@.len(),
        ensures
            final(self)@ == old(self)@.update(index as int, old(self)@[index as int].reverted()),
    {
        self.slots[index].fn_ptr = None;
        assert(self@ =~= old(self)@.update(index as int, old(self)@[index as int].reverted()));
    }
}

/// A type that an assembly exports: its identity and a descriptor of its
/// memory layout. The runtime compares descriptors and never looks inside
/// one.
#[derive(Debug)]
pub struct TypeInfo {
    pub id: TypeId,
    pub layout: Vec<u8>,
}

/// What a [`TypeInfo`] stands for in contracts.
pub struct TypeInfoView {
    pub id: TypeId,
    pub layout: Seq<u8>,
}

impl View for TypeInfo {
    type V = TypeInfoView;

    open spec fn view(&self) -> TypeInfoView {
        TypeInfoView { id: self.id, layout: self.layout@ }
    }
}

impl TypeInfo {
    /// The type with the given identity and layout descriptor.
    pub fn new(id: TypeId, layout: Vec<u8>) -> (info: TypeInfo)
        ensures
            info@.id == id,
            info@.layout == layout@,
    {
        TypeInfo { id, layout }
    }

    /// Whether the two layout descriptors are the same.
    pub fn same_layout(&self, other: &TypeInfo) -> (same: bool)
        ensures
            same == (self@.layout == other@.layout),
    {
        if self.layout.len() != other.layout.len() {
            return false;
        }
        let mut i: usize = 0;
        while i < self.layout.len()
            invariant
                i <= self.layout.len(),
                self.layout.len() == other.layout.len(),
                forall|k: int| 0 <= k < i ==> self.layout@[k] == other.layout@[k],
            decreases self.layout.len() - i,
        {
            if self.layout[i] != other.layout[i] {
                return false;
            }
            i += 1;
        }
        assert(self.layout@ =~= other.layout@);
        true
    }
}

/// Everything that an assembly says of itself.
#[derive(Debug)]
pub struct AssemblyInfo {
    /// The ABI version that the assembly was compiled for.
    pub abi_version: u32,
    /// The functions that the assembly exports.
    pub functions: Vec<FunctionDefinition>,
    /// The types that the assembly exports.
    pub types: Vec<TypeInfo>,
    /// The call sites of the assembly that need a function from elsewhere.
    pub dispatch_table: ForeignCodeTable,
}

/// What an [`AssemblyInfo`] stands for in contracts.
pub struct AssemblyInfoView {
    pub abi_version: u32,
    pub functions: Seq<DefinitionView>,
    pub types: Seq<TypeInfoView>,
    pub dispatch_table: Seq<CallSiteView>,
}

impl View for AssemblyInfo {
    type V = AssemblyInfoView;

    open spec fn view(&self) -> AssemblyInfoView {
        AssemblyInfoView {
            abi_version: self.abi_version,
            functions: self.functions@.map_values(|function: FunctionDefinition| function@),
            types: self.types@.map_values(|ty: TypeInfo| ty@),
            dispatch_table: self.dispatch_table@,
        }
    }
}

impl AssemblyInfo {
    /// The information of an assembly compiled for `abi_version` that
    /// exports `functions` and `types` and has the call sites of
    /// `dispatch_table`.
    pub fn new(
        abi_version: u32,
        functions: Vec<FunctionDefinition>,
        types: Vec<TypeInfo>,
        dispatch_table: ForeignCodeTable,
    ) -> (info: AssemblyInfo)
        ensures
            info.abi_version == abi_version,
            info.functions == functions,
            info.types == types,
            info.dispatch_table == dispatch_table,
    {
        AssemblyInfo { abi_version, functions, types, dispatch_table }
    }
}

} // verus!
