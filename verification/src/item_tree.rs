//! The items that a source file defines, without their bodies.

use crate::arena::{Arena, Idx};
use std::hash::{Hash, Hasher};
use std::marker::PhantomData;
use std::ops::{Index, Range};
use vstd::prelude::*;

verus! {

/// The name of an item or of a field.
pub type Name = String;

/// The file that an item tree was made of.
#[derive(Clone, Copy, Debug, PartialEq, Eq, Hash, Structural)]
pub struct FileId {
    pub raw: u32,
}

/// A value together with the file that it belongs to.
#[derive(Clone, Copy, Debug, PartialEq, Eq)]
pub struct InFile<T> {
    pub file_id: FileId,
    pub value: T,
}

/// A type as the source names it.
#[derive(Clone, Debug, PartialEq, Eq)]
pub enum TypeRef {
    /// A type named by a path, segment by segment.
    Path(Vec<Name>),
    /// The type of an expression that never yields a value.
    Never,
    /// The type without values.
    Empty,
    /// A type that could not be read.
    Error,
}

/// The kind of syntax that defines a function.
#[derive(Clone, Copy, Debug, PartialEq, Eq, Structural)]
pub struct FunctionDef;

/// The kind of syntax that defines a struct.
#[derive(Clone, Copy, Debug, PartialEq, Eq, Structural)]
pub struct StructDef;

/// The kind of syntax that defines a type alias.
#[derive(Clone, Copy, Debug, PartialEq, Eq, Structural)]
pub struct TypeAliasDef;

/// What identifies, within its file, a piece of syntax of the kind `N`.
#[derive(Debug, PartialEq, Eq)]
pub struct FileAstId<N> {
    raw: u32,
    _ty: PhantomData<N>,
}

impl<N> FileAstId<N> {
    /// The number that the identifier wraps.
    pub closed spec fn raw(self) -> u32 {
        self.raw
    }

    /// The identifier that wraps `raw`.
    pub fn from_raw(raw: u32) -> (id: FileAstId<N>)
        ensures
            id.raw() == raw,
    {
        FileAstId { raw, _ty: PhantomData }
    }

    /// The number that the identifier wraps.
    pub fn into_raw(self) -> (raw: u32)
        ensures
            raw == self.raw(),
    {
        self.raw
    }
}

impl<N> Clone for FileAstId<N> {
    fn clone(&self) -> (copy: FileAstId<N>)
        ensures
            copy == *self,
    {
        FileAstId { raw: self.raw, _ty: PhantomData }
    }
}

impl<N> Copy for FileAstId<N> {

}

/// The typed identifier of an item in an [`ItemTree`].
#[derive(Debug)]
pub struct LocalItemTreeId<N> {
    index: Idx<N>,
    _p: PhantomData<N>,
}

impl<N> LocalItemTreeId<N> {
    /// The index of the item among the items of its type.
    pub closed spec fn index(self) -> Idx<N> {
        self.index
    }

    /// The identifier of the item at `index`.
    pub fn new(index: Idx<N>) -> (id: LocalItemTreeId<N>)
        ensures
            id.index() == index,
    {
        LocalItemTreeId { index, _p: PhantomData }
    }
}

impl<N> Clone for LocalItemTreeId<N> {
    fn clone(&self) -> (copy: LocalItemTreeId<N>)
        ensures
            copy == *self,
    {
        LocalItemTreeId { index: self.index, _p: PhantomData }
    }
}

impl<N> Copy for LocalItemTreeId<N> {

}

impl<N> PartialEq for LocalItemTreeId<N> {
    fn eq(&self, other: &LocalItemTreeId<N>) -> (equal: bool) {
        self.index == other.index
    }
}

impl<N> Eq for LocalItemTreeId<N> {

}

impl<N> Hash for LocalItemTreeId<N> {
    fn hash<H: Hasher>(&self, state: &mut H) {
        self.index.hash(state)
    }
}

impl<N> vstd::std_specs::cmp::PartialEqSpecImpl for LocalItemTreeId<N> {
    open spec fn obeys_eq_spec() -> bool {
        true
    }

    open spec fn eq_spec(&self, other: &LocalItemTreeId<N>) -> bool {
        self.index().raw() == other.index().raw()
    }
}

/// The identifier of an item in the item tree of a file.
pub type ItemTreeId<N> = InFile<LocalItemTreeId<N>>;

/// An item at the top level of a file.
#[derive(Clone, Copy, Debug, PartialEq, Eq, Hash)]
pub enum ModItem {
    Function(LocalItemTreeId<Function>),
    Struct(LocalItemTreeId<Struct>),
    TypeAlias(LocalItemTreeId<TypeAlias>),
}

impl From<LocalItemTreeId<Function>> for ModItem {
    fn from(id: LocalItemTreeId<Function>) -> (mod_item: ModItem) {
        ModItem::Function(id)
    }
}

impl vstd::std_specs::convert::FromSpecImpl<LocalItemTreeId<Function>> for ModItem {
    open spec fn obeys_from_spec() -> bool {
        true
    }

    open spec fn from_spec(id: LocalItemTreeId<Function>) -> ModItem {
        ModItem::Function(id)
    }
}

impl From<LocalItemTreeId<Struct>> for ModItem {
    fn from(id: LocalItemTreeId<Struct>) -> (mod_item: ModItem) {
        ModItem::Struct(id)
    }
}

impl vstd::std_specs::convert::FromSpecImpl<LocalItemTreeId<Struct>> for ModItem {
    open spec fn obeys_from_spec() -> bool {
        true
    }

    open spec fn from_spec(id: LocalItemTreeId<Struct>) -> ModItem {
        ModItem::Struct(id)
    }
}

impl From<LocalItemTreeId<TypeAlias>> for ModItem {
    fn from(id: LocalItemTreeId<TypeAlias>) -> (mod_item: ModItem) {
        ModItem::TypeAlias(id)
    }
}

impl vstd::std_specs::convert::FromSpecImpl<LocalItemTreeId<TypeAlias>> for ModItem {
    open spec fn obeys_from_spec() -> bool {
        true
    }

    open spec fn from_spec(id: LocalItemTreeId<TypeAlias>) -> ModItem {
        ModItem::TypeAlias(id)
    }
}

/// A function definition.
#[derive(Clone, Debug, PartialEq, Eq)]
pub struct Function {
    pub name: Name,
    pub is_extern: bool,
    pub params: Vec<TypeRef>,
    pub ret_type: TypeRef,
    pub ast_id: FileAstId<FunctionDef>,
}

/// A struct definition.
#[derive(Clone, Debug, PartialEq, Eq)]
pub struct Struct {
    pub name: Name,
    pub fields: Fields,
    pub ast_id: FileAstId<StructDef>,
    pub kind: StructDefKind,
}

/// A type alias definition.
#[derive(Clone, Debug, PartialEq, Eq)]
pub struct TypeAlias {
    pub name: Name,
    pub type_ref: Option<TypeRef>,
    pub ast_id: FileAstId<TypeAliasDef>,
}

/// The form in which a struct is written.
#[derive(Clone, Copy, Debug, PartialEq, Eq, Structural)]
pub enum StructDefKind {
    /// `struct S { ... }`
    Record,
    /// `struct S(...);`
    Tuple,
    /// `struct S;`
    Unit,
}

/// The fields of a struct.
#[derive(Clone, Debug, PartialEq, Eq)]
pub enum Fields {
    Record(IdRange<Field>),
    Tuple(IdRange<Field>),
    Unit,
}

/// A single field of a struct.
#[derive(Clone, Debug, PartialEq, Eq)]
pub struct Field {
    pub name: Name,
    pub type_ref: TypeRef,
}

/// A run of consecutive indices of values of type `T`.
#[derive(Debug)]
pub struct IdRange<T> {
    range: Range<u32>,
    _p: PhantomData<T>,
}

impl<T> IdRange<T> {
    /// The number of the first index of the run.
    pub closed spec fn start(self) -> u32 {
        self.range.start
    }

    /// The number of the index at which the run ends, which is itself not
    /// part of the run.
    pub closed spec fn end(self) -> u32 {
        self.range.end
    }

    /// The indices from `range.start` up to `range.end`, which is left out.
    pub fn new(range: Range<Idx<T>>) -> (ids: IdRange<T>)
        ensures
            ids.start() == range.start.raw(),
            ids.end() == range.end.raw(),
    {
        let start = range.start.into_raw();
        let end = range.end.into_raw();
        IdRange { range: start..end, _p: PhantomData }
    }

    /// Takes the first index out of the run and returns it, if one is left.
    pub fn next(&mut self) -> (index: Option<Idx<T>>)
        ensures
            final(self).end() == old(self).end(),
            match index {
                Some(index) => old(self).start() < old(self).end()
                    && index.raw() == old(self).start()
                    && final(self).start() == old(self).start() + 1,
                None => old(self).start() >= old(self).end()
                    && final(self).start() == old(self).start(),
            },
    {
        if self.range.start < self.range.end {
            let raw = self.range.start;
            self.range.start = raw + 1;
            Some(Idx::from_raw(raw))
        } else {
            None
        }
    }
}

impl<T> Clone for IdRange<T> {
    fn clone(&self) -> (copy: IdRange<T>)
        ensures
            copy.start() == self.start(),
            copy.end() == self.end(),
    {
        IdRange { range: self.range.start..self.range.end, _p: PhantomData }
    }
}

impl<T> PartialEq for IdRange<T> {
    fn eq(&self, other: &IdRange<T>) -> (equal: bool) {
        self.range.start == other.range.start && self.range.end == other.range.end
    }
}

impl<T> Eq for IdRange<T> {

}

impl<T> vstd::std_specs::cmp::PartialEqSpecImpl for IdRange<T> {
    open spec fn obeys_eq_spec() -> bool {
        true
    }

    open spec fn eq_spec(&self, other: &IdRange<T>) -> bool {
        self.start() == other.start() && self.end() == other.end()
    }
}

/// The items of a file, by type.
#[derive(Debug, PartialEq, Eq)]
struct ItemTreeData {
    functions: Arena<Function>,
    structs: Arena<Struct>,
    fields: Arena<Field>,
    type_aliases: Arena<TypeAlias>,
}

/// The items that a file defines: what its syntax tree says of them, and
/// nothing of their bodies.
#[derive(Debug, PartialEq, Eq)]
pub struct ItemTree {
    top_level: Vec<ModItem>,
    data: ItemTreeData,
}

/// An item of a type that an [`ItemTree`] holds.
pub trait ItemTreeNode: Clone + Sized {
    /// The kind of syntax that defines an item of this type.
    type Source;

    /// The items of this type that `tree` holds, by index.
    spec fn items_of(tree: &ItemTree) -> Seq<Self>;

    /// What identifies the syntax that this item was made of.
    spec fn source_of(&self) -> FileAstId<Self::Source>;

    /// The identifier that `mod_item` holds, if it is an item of this type.
    spec fn id_in(mod_item: ModItem) -> Option<LocalItemTreeId<Self>>;

    /// What identifies the syntax that this item was made of.
    fn ast_id(&self) -> (id: FileAstId<Self::Source>)
        ensures
            id == self.source_of(),
    ;

    /// The number of items of this type that `tree` holds.
    fn count(tree: &ItemTree) -> (count: usize)
        ensures
            count == Self::items_of(tree).len(),
    ;

    /// The item at `index` among the items of this type in `tree`.
    fn lookup(tree: &ItemTree, index: Idx<Self>) -> (item: &Self)
        requires
            index.raw() < Self::items_of(tree).len(),
        ensures
            *item == Self::items_of(tree)[index.raw() as int],
    ;

    /// The identifier that `mod_item` holds, if it is an item of this type.
    fn id_from_mod_item(mod_item: ModItem) -> (id: Option<LocalItemTreeId<Self>>)
        ensures
            id == Self::id_in(mod_item),
    ;

    /// The top-level item that the identifier stands for.
    fn id_to_mod_item(id: LocalItemTreeId<Self>) -> (mod_item: ModItem)
        ensures
            Self::id_in(mod_item) == Some(id),
    ;
}

impl ItemTreeNode for Function {
    type Source = FunctionDef;

    open spec fn items_of(tree: &ItemTree) -> Seq<Function> {
        tree.functions()
    }

    open spec fn source_of(&self) -> FileAstId<FunctionDef> {
        self.ast_id
    }

    open spec fn id_in(mod_item: ModItem) -> Option<LocalItemTreeId<Function>> {
        match mod_item {
            ModItem::Function(id) => Some(id),
            _ => None,
        }
    }

    fn ast_id(&self) -> (id: FileAstId<FunctionDef>) {
        self.ast_id
    }

    fn count(tree: &ItemTree) -> (count: usize) {
        tree.data.functions.len()
    }

    fn lookup(tree: &ItemTree, index: Idx<Function>) -> (item: &Function) {
        tree.data.functions.get(index).unwrap()
    }

    fn id_from_mod_item(mod_item: ModItem) -> (id: Option<LocalItemTreeId<Function>>) {
        if let ModItem::Function(id) = mod_item {
            Some(id)
        } else {
            None
        }
    }

    fn id_to_mod_item(id: LocalItemTreeId<Function>) -> (mod_item: ModItem) {
        ModItem::Function(id)
    }
}

impl ItemTreeNode for Struct {
    type Source = StructDef;

    open spec fn items_of(tree: &ItemTree) -> Seq<Struct> {
        tree.structs()
    }

    open spec fn source_of(&self) -> FileAstId<StructDef> {
        self.ast_id
    }

    open spec fn id_in(mod_item: ModItem) -> Option<LocalItemTreeId<Struct>> {
        match mod_item {
            ModItem::Struct(id) => Some(id),
            _ => None,
        }
    }

    fn ast_id(&self) -> (id: FileAstId<StructDef>) {
        self.ast_id
    }

    fn count(tree: &ItemTree) -> (count: usize) {
        tree.data.structs.len()
    }

    fn lookup(tree: &ItemTree, index: Idx<Struct>) -> (item: &Struct) {
        tree.data.structs.get(index).unwrap()
    }

    fn id_from_mod_item(mod_item: ModItem) -> (id: Option<LocalItemTreeId<Struct>>) {
        if let ModItem::Struct(id) = mod_item {
            Some(id)
        } else {
            None
        }
    }

    fn id_to_mod_item(id: LocalItemTreeId<Struct>) -> (mod_item: ModItem) {
        ModItem::Struct(id)
    }
}

impl ItemTreeNode for TypeAlias {
    type Source = TypeAliasDef;

    open spec fn items_of(tree: &ItemTree) -> Seq<TypeAlias> {
        tree.type_aliases()
    }

    open spec fn source_of(&self) -> FileAstId<TypeAliasDef> {
        self.ast_id
    }

    open spec fn id_in(mod_item: ModItem) -> Option<LocalItemTreeId<TypeAlias>> {
        match mod_item {
            ModItem::TypeAlias(id) => Some(id),
            _ => None,
        }
    }

    fn ast_id(&self) -> (id: FileAstId<TypeAliasDef>) {
        self.ast_id
    }

    fn count(tree: &ItemTree) -> (count: usize) {
        tree.data.type_aliases.len()
    }

    fn lookup(tree: &ItemTree, index: Idx<TypeAlias>) -> (item: &TypeAlias) {
        tree.data.type_aliases.get(index).unwrap()
    }

    fn id_from_mod_item(mod_item: ModItem) -> (id: Option<LocalItemTreeId<TypeAlias>>) {
        if let ModItem::TypeAlias(id) = mod_item {
            Some(id)
        } else {
            None
        }
    }

    fn id_to_mod_item(id: LocalItemTreeId<TypeAlias>) -> (mod_item: ModItem) {
        ModItem::TypeAlias(id)
    }
}

impl ItemTree {
    /// The items at the top level of the file, in order.
    pub closed spec fn top_level(&self) -> Seq<ModItem> {
        self.top_level@
    }

    /// The functions of the file, by index.
    pub closed spec fn functions(&self) -> Seq<Function> {
        self.data.functions@
    }

    /// The structs of the file, by index.
    pub closed spec fn structs(&self) -> Seq<Struct> {
        self.data.structs@
    }

    /// The type aliases of the file, by index.
    pub closed spec fn type_aliases(&self) -> Seq<TypeAlias> {
        self.data.type_aliases@
    }

    /// The fields of all the structs of the file, by index.
    pub closed spec fn fields(&self) -> Seq<Field> {
        self.data.fields@
    }

    /// The tree of a file that has `top_level` at its top level, and whose
    /// items are those of the four arenas.
    pub fn new(
        top_level: Vec<ModItem>,
        functions: Arena<Function>,
        structs: Arena<Struct>,
        fields: Arena<Field>,
        type_aliases: Arena<TypeAlias>,
    ) -> (tree: ItemTree)
        ensures
            tree.top_level() == top_level@,
            tree.functions() == functions@,
            tree.structs() == structs@,
            tree.fields() == fields@,
            tree.type_aliases() == type_aliases@,
    {
        ItemTree { top_level, data: ItemTreeData { functions, structs, fields, type_aliases } }
    }

    /// The items at the top level of the file, in order.
    pub fn top_level_items(&self) -> (items: &[ModItem])
        ensures
            items@ == self.top_level(),
    {
        self.top_level.as_slice()
    }

    /// Whether the tree holds the item that `id` stands for.
    pub fn holds<N: ItemTreeNode>(&self, id: LocalItemTreeId<N>) -> (held: bool)
        ensures
            held == (id.index().raw() < N::items_of(self).len()),
    {
        let raw = id.index.into_raw();
        (raw as usize) < N::count(self)
    }

    /// What identifies the syntax that the item `item` was made of. The
    /// tree must be the one of the item's file.
    pub fn source<S: ItemTreeNode>(&self, item: ItemTreeId<S>) -> (id: FileAstId<S::Source>)
        requires
            item.value.index().raw() < S::items_of(self).len(),
        ensures
            id == S::items_of(self)[item.value.index().raw() as int].source_of(),
    {
        self.index(item.value).ast_id()
    }
}

impl Index<Idx<Function>> for ItemTree {
    type Output = Function;

    /// The function at `index`.
    fn index(&self, index: Idx<Function>) -> (item: &Function)
        ensures
            *item == self.functions()[index.raw() as int],
    {
        self.data.functions.get(index).unwrap()
    }
}

impl vstd::std_specs::core::IndexSpecImpl<Idx<Function>> for ItemTree {
    open spec fn index_req(&self, index: &Idx<Function>) -> bool {
        index.raw() < self.functions().len()
    }
}

impl Index<Idx<Struct>> for ItemTree {
    type Output = Struct;

    /// The struct at `index`.
    fn index(&self, index: Idx<Struct>) -> (item: &Struct)
        ensures
            *item == self.structs()[index.raw() as int],
    {
        self.data.structs.get(index).unwrap()
    }
}

impl vstd::std_specs::core::IndexSpecImpl<Idx<Struct>> for ItemTree {
    open spec fn index_req(&self, index: &Idx<Struct>) -> bool {
        index.raw() < self.structs().len()
    }
}

impl Index<Idx<TypeAlias>> for ItemTree {
    type Output = TypeAlias;

    /// The type alias at `index`.
    fn index(&self, index: Idx<TypeAlias>) -> (item: &TypeAlias)
        ensures
            *item == self.type_aliases()[index.raw() as int],
    {
        self.data.type_aliases.get(index).unwrap()
    }
}

impl vstd::std_specs::core::IndexSpecImpl<Idx<TypeAlias>> for ItemTree {
    open spec fn index_req(&self, index: &Idx<TypeAlias>) -> bool {
        index.raw() < self.type_aliases().len()
    }
}

impl Index<Idx<Field>> for ItemTree {
    type Output = Field;

    /// The field at `index`.
    fn index(&self, index: Idx<Field>) -> (item: &Field)
        ensures
            *item == self.fields()[index.raw() as int],
    {
        self.data.fields.get(index).unwrap()
    }
}

impl vstd::std_specs::core::IndexSpecImpl<Idx<Field>> for ItemTree {
    open spec fn index_req(&self, index: &Idx<Field>) -> bool {
        index.raw() < self.fields().len()
    }
}

impl<N: ItemTreeNode> Index<LocalItemTreeId<N>> for ItemTree {
    type Output = N;

    /// The item that `id` stands for.
    fn index(&self, id: LocalItemTreeId<N>) -> (item: &N)
        ensures
            *item == N::items_of(self)[id.index().raw() as int],
    {
        N::lookup(self, id.index)
    }
}

impl<N: ItemTreeNode> vstd::std_specs::core::IndexSpecImpl<LocalItemTreeId<N>> for ItemTree {
    open spec fn index_req(&self, id: &LocalItemTreeId<N>) -> bool {
        id.index().raw() < N::items_of(self).len()
    }
}

} // verus!
