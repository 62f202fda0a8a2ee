use mun_runtime::abi::{
    AssemblyInfo, CallSite, ForeignCodeTable, FunctionDefinition, FunctionPrototype,
    FunctionSignature, TypeId, TypeInfo, ABI_VERSION,
};
use mun_runtime::assembly::{check_abi_version, Assembly};
use mun_runtime::dispatch_table::DispatchTable;
use mun_runtime::error::{Error, SwapError};
use mun_runtime::type_mapping::{MappedType, TypeChange, TypeMapping};

const POINT: u128 = 0x901;
const LINE: u128 = 0x902;
const F32: u128 = 0xF32;

fn prototype(name: &str, args: &[u128], ret: Option<u128>) -> FunctionPrototype {
    let arg_types = args.iter().map(|guid| TypeId::new(*guid)).collect();
    FunctionPrototype::new(
        name.to_string(),
        FunctionSignature::new(arg_types, ret.map(TypeId::new)),
    )
}

fn export(name: &str, fn_ptr: usize) -> FunctionDefinition {
    FunctionDefinition::new(prototype(name, &[], None), fn_ptr)
}

fn call(name: &str) -> CallSite {
    CallSite::unresolved(prototype(name, &[], None))
}

fn build(
    library: &'static str,
    exports: Vec<FunctionDefinition>,
    types: Vec<TypeInfo>,
    calls: Vec<CallSite>,
) -> Assembly<&'static str, u8> {
    let info = AssemblyInfo::new(ABI_VERSION, exports, types, ForeignCodeTable::new(calls));
    Assembly::load(format!("{}.munlib", library), library, info, 1u8).expect("same ABI version")
}

fn addresses(assembly: &Assembly<&'static str, u8>) -> Vec<Option<usize>> {
    assembly
        .info()
        .dispatch_table
        .slots
        .iter()
        .map(|site| site.fn_ptr)
        .collect()
}

fn layout(fields: &[&str]) -> Vec<u8> {
    fields.join(",").into_bytes()
}

#[test]
fn load_accepts_the_runtime_abi_version() {
    let info = AssemblyInfo::new(
        ABI_VERSION,
        vec![export("main", 0x10)],
        vec![TypeInfo::new(TypeId::new(POINT), layout(&["x", "y"]))],
        ForeignCodeTable::new(vec![call("print"), CallSite::resolved(prototype("own", &[], None), 0x20)]),
    );
    let assembly: Assembly<u32, &str> =
        Assembly::load("game.munlib".to_string(), 42, info, "gc").expect("same ABI version");
    assert_eq!(assembly.library_path(), "game.munlib");
    assert_eq!(*assembly.allocator(), "gc");
    assert!(assembly.legacy_libs().is_empty());
    assert_eq!(assembly.info().abi_version, ABI_VERSION);
    assert_eq!(assembly.info().functions, vec![export("main", 0x10)]);
    assert_eq!(assembly.info().types.len(), 1);
    assert_eq!(assembly.info().types[0].id, TypeId::new(POINT));
    let sites: Vec<_> = assembly.info().dispatch_table.slots.iter().map(|s| s.fn_ptr).collect();
    assert_eq!(sites, vec![None, Some(0x20)]);
    assert_eq!(assembly.into_library(), 42);
}

#[test]
fn load_rejects_another_abi_version() {
    let info = AssemblyInfo::new(ABI_VERSION + 1, vec![], vec![], ForeignCodeTable::new(vec![]));
    let outcome: Result<Assembly<u32, u8>, Error> =
        Assembly::load("old.munlib".to_string(), 1, info, 0);
    match outcome {
        Err(Error::AbiMismatch(expected, found)) => {
            assert_eq!(expected, ABI_VERSION);
            assert_eq!(found, ABI_VERSION + 1);
        }
        other => panic!("expected an ABI mismatch, got {:?}", other.map(|_| ())),
    }
}

#[test]
fn abi_version_check_is_exact() {
    assert_eq!(ABI_VERSION, 300);
    assert!(check_abi_version(300).is_ok());
    assert!(matches!(check_abi_version(299), Err(Error::AbiMismatch(300, 299))));
    assert!(matches!(check_abi_version(0), Err(Error::AbiMismatch(300, 0))));
    assert!(matches!(
        check_abi_version(u32::MAX),
        Err(Error::AbiMismatch(300, u32::MAX))
    ));
}

#[test]
fn type_with_an_added_field_is_relayouted() {
    let v1 = vec![TypeInfo::new(TypeId::new(POINT), layout(&["x", "y"]))];
    let v2 = vec![TypeInfo::new(TypeId::new(POINT), layout(&["x", "y", "z"]))];
    let mapping = TypeMapping::new(&v1, &v2);
    assert_eq!(
        mapping.types,
        vec![MappedType { id: TypeId::new(POINT), change: TypeChange::Relayout }]
    );
}

#[test]
fn type_missing_from_the_new_build_is_removed() {
    let v1 = vec![
        TypeInfo::new(TypeId::new(POINT), layout(&["x", "y"])),
        TypeInfo::new(TypeId::new(LINE), layout(&["from", "to"])),
    ];
    let v2 = vec![TypeInfo::new(TypeId::new(LINE), layout(&["from", "to"]))];
    let mapping = TypeMapping::new(&v1, &v2);
    assert_eq!(
        mapping.types,
        vec![
            MappedType { id: TypeId::new(POINT), change: TypeChange::Removed },
            MappedType { id: TypeId::new(LINE), change: TypeChange::Unchanged },
        ]
    );
}

#[test]
fn types_are_matched_by_identity_not_by_place() {
    let v1 = vec![
        TypeInfo::new(TypeId::new(1), vec![1]),
        TypeInfo::new(TypeId::new(2), vec![2]),
        TypeInfo::new(TypeId::new(3), vec![3]),
    ];
    let v2 = vec![
        TypeInfo::new(TypeId::new(4), vec![1]),
        TypeInfo::new(TypeId::new(3), vec![3]),
        TypeInfo::new(TypeId::new(1), vec![1, 1]),
        TypeInfo::new(TypeId::new(1), vec![1]),
    ];
    let mapping = TypeMapping::new(&v1, &v2);
    let changes: Vec<_> = mapping.types.iter().map(|ty| ty.change).collect();
    assert_eq!(
        changes,
        vec![TypeChange::Relayout, TypeChange::Removed, TypeChange::Unchanged]
    );
    let ids: Vec<_> = mapping.types.iter().map(|ty| ty.id.guid).collect();
    assert_eq!(ids, vec![1, 2, 3]);
}

#[test]
fn mapping_of_no_types_is_empty() {
    let none: Vec<TypeInfo> = Vec::new();
    let some = vec![TypeInfo::new(TypeId::new(1), vec![])];
    assert!(TypeMapping::new(&none, &some).types.is_empty());
    assert_eq!(
        TypeMapping::new(&some, &none).types,
        vec![MappedType { id: TypeId::new(1), change: TypeChange::Removed }]
    );
}

#[test]
fn layouts_compare_byte_by_byte() {
    let a = TypeInfo::new(TypeId::new(1), vec![1, 2, 3]);
    assert!(a.same_layout(&TypeInfo::new(TypeId::new(9), vec![1, 2, 3])));
    assert!(!a.same_layout(&TypeInfo::new(TypeId::new(1), vec![1, 2])));
    assert!(!a.same_layout(&TypeInfo::new(TypeId::new(1), vec![1, 2, 4])));
    assert!(TypeInfo::new(TypeId::new(1), vec![]).same_layout(&TypeInfo::new(TypeId::new(2), vec![])));
}

#[test]
fn map_types_compares_the_two_builds() {
    let v1 = build(
        "v1",
        vec![],
        vec![
            TypeInfo::new(TypeId::new(POINT), layout(&["x", "y"])),
            TypeInfo::new(TypeId::new(LINE), layout(&["from", "to"])),
        ],
        vec![],
    );
    let v2 = build(
        "v2",
        vec![],
        vec![TypeInfo::new(TypeId::new(POINT), layout(&["x", "y", "z"]))],
        vec![],
    );
    let changes: Vec<_> = v1.map_types(&v2).types.iter().map(|ty| ty.change).collect();
    assert_eq!(changes, vec![TypeChange::Relayout, TypeChange::Removed]);
}

#[test]
fn swap_with_migrated_objects_drops_the_old_library() {
    let mut table = DispatchTable::new();
    let mut batch = vec![build(
        "v1",
        vec![export("origin", 0x100)],
        vec![TypeInfo::new(TypeId::new(POINT), layout(&["x", "y"]))],
        vec![],
    )];
    table = Assembly::link_all(&mut batch, &table).expect("links");
    let mut assembly = batch.pop().expect("one assembly");
    let v2 = build(
        "v2",
        vec![export("origin", 0x200)],
        vec![TypeInfo::new(TypeId::new(POINT), layout(&["x", "y", "z"]))],
        vec![],
    );
    let mapping = assembly.map_types(&v2);
    assert_eq!(mapping.types[0].change, TypeChange::Relayout);
    let orphans: Vec<u64> = Vec::new();
    let mut dependents = Vec::new();
    assembly
        .swap(v2, &orphans, &mut table, &mut dependents)
        .expect("the replacement links");
    assert!(assembly.legacy_libs().is_empty());
    assert_eq!(assembly.library_path(), "v2.munlib");
    assert_eq!(table.get_fn(&"origin".to_string()), Some(&export("origin", 0x200)));
    assert_eq!(assembly.into_library(), "v2");
}

#[test]
fn swap_with_orphaned_objects_keeps_the_old_library() {
    let mut table = DispatchTable::new();
    let mut assembly = build(
        "v1",
        vec![],
        vec![TypeInfo::new(TypeId::new(POINT), layout(&["x", "y"]))],
        vec![],
    );
    let v2 = build("v2", vec![], vec![], vec![]);
    assert_eq!(assembly.map_types(&v2).types[0].change, TypeChange::Removed);
    let orphans: Vec<u64> = vec![0xDEAD];
    assembly
        .swap(v2, &orphans, &mut table, &mut Vec::new())
        .expect("the replacement links");
    assert_eq!(assembly.legacy_libs(), &vec!["v1"]);
    assert_eq!(assembly.into_library(), "v2");
}

#[test]
fn kept_library_survives_later_swaps() {
    let mut table = DispatchTable::new();
    let mut assembly = build("v1", vec![], vec![], vec![]);
    assembly
        .swap(build("v2", vec![], vec![], vec![]), &vec![1, 2], &mut table, &mut Vec::new())
        .expect("links");
    assert_eq!(assembly.legacy_libs(), &vec!["v1"]);
    assembly
        .swap(build("v3", vec![], vec![], vec![]), &Vec::new(), &mut table, &mut Vec::new())
        .expect("links");
    assert_eq!(assembly.legacy_libs(), &vec!["v1"]);
    assembly
        .swap(build("v4", vec![], vec![], vec![]), &vec![3], &mut table, &mut Vec::new())
        .expect("links");
    assert_eq!(assembly.legacy_libs(), &vec!["v1", "v3"]);
    assert_eq!(assembly.into_library(), "v4");
}

#[test]
fn swap_keeps_the_allocator_of_the_replacement() {
    let mut table = DispatchTable::new();
    let info = AssemblyInfo::new(ABI_VERSION, vec![], vec![], ForeignCodeTable::new(vec![]));
    let mut assembly: Assembly<u8, &str> =
        Assembly::load("a".to_string(), 1, info, "shared").expect("loads");
    let info = AssemblyInfo::new(ABI_VERSION, vec![], vec![], ForeignCodeTable::new(vec![]));
    let next: Assembly<u8, &str> = Assembly::load("b".to_string(), 2, info, "shared").expect("loads");
    assembly
        .swap(next, &Vec::new(), &mut table, &mut Vec::new())
        .expect("links");
    assert_eq!(*assembly.allocator(), "shared");
}

#[test]
fn swap_replaces_exports_and_links_the_replacement() {
    let mut table = DispatchTable::new();
    table.insert_fn("host".to_string(), export("host", 0x1));
    let mut batch = vec![build("v1", vec![export("f", 0x10), export("g", 0x11)], vec![], vec![call("host")])];
    table = Assembly::link_all(&mut batch, &table).expect("links");
    let mut assembly = batch.pop().expect("one assembly");
    let v2 = build(
        "v2",
        vec![export("g", 0x21), export("h", 0x22)],
        vec![],
        vec![call("host"), call("h"), CallSite::resolved(prototype("static", &[], None), 0x99)],
    );
    assembly
        .swap(v2, &Vec::new(), &mut table, &mut Vec::new())
        .expect("the replacement links");
    assert!(table.get_fn(&"f".to_string()).is_none());
    assert_eq!(table.get_fn(&"g".to_string()), Some(&export("g", 0x21)));
    assert_eq!(table.get_fn(&"h".to_string()), Some(&export("h", 0x22)));
    assert_eq!(table.get_fn(&"host".to_string()), Some(&export("host", 0x1)));
    assert_eq!(addresses(&assembly), vec![Some(0x1), Some(0x22), Some(0x99)]);
    assert_eq!(assembly.info().functions, vec![export("g", 0x21), export("h", 0x22)]);
}

#[test]
fn swapping_out_a_function_unlinks_its_callers() {
    let mut batch = vec![
        build("a1", vec![export("f", 0x10), export("keep", 0x11)], vec![], vec![]),
        build("b", vec![export("other", 0x30)], vec![], vec![call("f"), call("other"), call("keep")]),
    ];
    let mut table = Assembly::link_all(&mut batch, &DispatchTable::new()).expect("links");
    let mut dependents = vec![batch.pop().expect("b")];
    let mut a = batch.pop().expect("a");
    assert_eq!(addresses(&dependents[0]), vec![Some(0x10), Some(0x30), Some(0x11)]);

    let a2 = build("a2", vec![export("keep", 0x21)], vec![], vec![]);
    a.swap(a2, &Vec::new(), &mut table, &mut dependents).expect("a2 links");
    assert_eq!(addresses(&dependents[0]), vec![None, Some(0x30), None]);
    assert!(table.get_fn(&"f".to_string()).is_none());

    match Assembly::link_all(&mut dependents, &table) {
        Err(Error::MissingDependency(names)) => assert_eq!(names, vec!["f".to_string()]),
        other => panic!("expected missing dependencies, got {:?}", other.map(|_| ())),
    }
    assert_eq!(addresses(&dependents[0]), vec![None, Some(0x30), Some(0x21)]);
}

#[test]
fn callers_relink_to_the_replacement() {
    let mut batch = vec![
        build("a1", vec![export("f", 0x10)], vec![], vec![]),
        build("b", vec![], vec![], vec![call("f")]),
    ];
    let mut table = Assembly::link_all(&mut batch, &DispatchTable::new()).expect("links");
    let mut dependents = vec![batch.pop().expect("b")];
    let mut a = batch.pop().expect("a");
    a.swap(build("a2", vec![export("f", 0x20)], vec![], vec![]), &Vec::new(), &mut table, &mut dependents)
        .expect("a2 links");
    assert_eq!(addresses(&dependents[0]), vec![None]);
    table = Assembly::link_all(&mut dependents, &table).expect("f is exported again");
    assert_eq!(addresses(&dependents[0]), vec![Some(0x20)]);
    assert_eq!(table.get_fn(&"f".to_string()), Some(&export("f", 0x20)));
}

#[test]
fn failed_swap_changes_nothing() {
    let mut batch = vec![
        build("a1", vec![export("f", 0x10)], vec![], vec![]),
        build("b", vec![], vec![], vec![call("f")]),
    ];
    let mut table = Assembly::link_all(&mut batch, &DispatchTable::new()).expect("links");
    let mut dependents = vec![batch.pop().expect("b")];
    let mut a = batch.pop().expect("a");

    let broken = build("a2", vec![export("g", 0x20)], vec![], vec![call("nowhere")]);
    match a.swap(broken, &vec![7], &mut table, &mut dependents) {
        Err(SwapError::Link(Error::MissingDependency(names))) => {
            assert_eq!(names, vec!["nowhere".to_string()])
        }
        other => panic!("expected a link failure, got {:?}", other),
    }
    assert_eq!(a.library_path(), "a1.munlib");
    assert!(a.legacy_libs().is_empty());
    assert_eq!(a.info().functions, vec![export("f", 0x10)]);
    assert_eq!(table.get_fn(&"f".to_string()), Some(&export("f", 0x10)));
    assert!(table.get_fn(&"g".to_string()).is_none());
    assert_eq!(addresses(&dependents[0]), vec![Some(0x10)]);
    assert_eq!(a.into_library(), "a1");
}

#[test]
fn swap_fails_on_a_conflicting_signature() {
    let mut table = DispatchTable::new();
    table.insert_fn(
        "host".to_string(),
        FunctionDefinition::new(prototype("host", &[F32], None), 0x1),
    );
    let mut a = build("a1", vec![], vec![], vec![]);
    let a2 = build("a2", vec![], vec![], vec![call("host")]);
    match a.swap(a2, &Vec::new(), &mut table, &mut Vec::new()) {
        Err(SwapError::Link(Error::SignatureMismatch(name, expected, found))) => {
            assert_eq!(name, "host");
            assert_eq!(expected, prototype("host", &[], None));
            assert_eq!(found, prototype("host", &[F32], None));
        }
        other => panic!("expected a link failure, got {:?}", other),
    }
    assert_eq!(a.into_library(), "a1");
}

#[test]
fn replacement_cannot_call_what_the_old_build_exported() {
    let mut batch = vec![build("a1", vec![export("helper", 0x10)], vec![], vec![])];
    let mut table = Assembly::link_all(&mut batch, &DispatchTable::new()).expect("links");
    let mut a = batch.pop().expect("a");
    let a2 = build("a2", vec![], vec![], vec![call("helper")]);
    assert!(matches!(
        a.swap(a2, &Vec::new(), &mut table, &mut Vec::new()),
        Err(SwapError::Link(Error::MissingDependency(_)))
    ));
    assert_eq!(table.get_fn(&"helper".to_string()), Some(&export("helper", 0x10)));
}

#[test]
fn legacy_libraries_of_the_replacement_come_first() {
    let mut table = DispatchTable::new();
    let mut first = build("a1", vec![], vec![], vec![]);
    first
        .swap(build("a2", vec![], vec![], vec![]), &vec![1], &mut table, &mut Vec::new())
        .expect("links");
    let mut second = build("b1", vec![], vec![], vec![]);
    second
        .swap(build("b2", vec![], vec![], vec![]), &vec![1], &mut table, &mut Vec::new())
        .expect("links");
    first
        .swap(second, &vec![1], &mut table, &mut Vec::new())
        .expect("links");
    assert_eq!(first.legacy_libs(), &vec!["b1", "a1", "a2"]);
    assert_eq!(first.into_library(), "b2");
}
