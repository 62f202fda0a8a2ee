//! Hot-reloadable module runtime: assemblies, their dispatch table, the
//! linker that resolves call sites across assemblies, and the coordinator
//! that swaps an assembly for a newer build while objects of the old one
//! are still alive. Beside it, the item tree: the items that a source file
//! defines, as the front end hands them on.

pub mod abi;
pub mod arena;
pub mod assembly;
pub mod dispatch_table;
pub mod error;
pub mod item_tree;
pub mod linker;
pub mod type_mapping;
