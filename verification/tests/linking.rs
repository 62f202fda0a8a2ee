use mun_runtime::abi::{
    AssemblyInfo, CallSite, ForeignCodeTable, FunctionDefinition, FunctionPrototype,
    FunctionSignature, TypeId, ABI_VERSION,
};
use mun_runtime::assembly::Assembly;
use mun_runtime::dispatch_table::DispatchTable;
use mun_runtime::error::Error;
use mun_runtime::linker::SlotRef;

const CIRCLE: u128 = 0xC1;
const F32: u128 = 0xF32;
const F64: u128 = 0xF64;

fn prototype(name: &str, args: &[u128], ret: Option<u128>) -> FunctionPrototype {
    let arg_types = args.iter().map(|guid| TypeId::new(*guid)).collect();
    FunctionPrototype::new(
        name.to_string(),
        FunctionSignature::new(arg_types, ret.map(TypeId::new)),
    )
}

fn export(name: &str, args: &[u128], ret: Option<u128>, fn_ptr: usize) -> FunctionDefinition {
    FunctionDefinition::new(prototype(name, args, ret), fn_ptr)
}

fn call(name: &str, args: &[u128], ret: Option<u128>) -> CallSite {
    CallSite::unresolved(prototype(name, args, ret))
}

fn assembly(id: u32, exports: Vec<FunctionDefinition>, calls: Vec<CallSite>) -> Assembly<u32, u8> {
    let info = AssemblyInfo::new(ABI_VERSION, exports, Vec::new(), ForeignCodeTable::new(calls));
    Assembly::load(format!("lib{}.munlib", id), id, info, 0u8).expect("same ABI version")
}

fn addresses(assembly: &Assembly<u32, u8>) -> Vec<Option<usize>> {
    assembly
        .info()
        .dispatch_table
        .slots
        .iter()
        .map(|site| site.fn_ptr)
        .collect()
}

fn table_with(entries: Vec<FunctionDefinition>) -> DispatchTable {
    let mut table = DispatchTable::new();
    for entry in entries {
        table.insert_fn(entry.prototype.name.clone(), entry);
    }
    table
}

#[test]
fn linking_nothing_returns_the_table() {
    let base = table_with(vec![export("f", &[], None, 1)]);
    let mut batch: Vec<Assembly<u32, u8>> = Vec::new();
    let linked = Assembly::link_all(&mut batch, &base).expect("nothing to resolve");
    assert_eq!(linked.get_fn(&"f".to_string()), Some(&export("f", &[], None, 1)));
}

#[test]
fn linked_assembly_only_adds_its_exports() {
    let base = table_with(vec![export("old", &[], None, 1), export("both", &[], None, 2)]);
    let resolved = CallSite::resolved(prototype("anything", &[], None), 0xABC);
    let mut batch = vec![assembly(
        1,
        vec![export("new", &[F32], Some(F32), 10), export("both", &[], None, 20)],
        vec![resolved],
    )];
    let linked = Assembly::link_all(&mut batch, &base).expect("no call site is unresolved");
    assert_eq!(linked.get_fn(&"old".to_string()), Some(&export("old", &[], None, 1)));
    assert_eq!(linked.get_fn(&"both".to_string()), Some(&export("both", &[], None, 20)));
    assert_eq!(
        linked.get_fn(&"new".to_string()),
        Some(&export("new", &[F32], Some(F32), 10))
    );
    assert!(linked.get_fn(&"anything".to_string()).is_none());
    assert_eq!(addresses(&batch[0]), vec![Some(0xABC)]);
    assert_eq!(base.get_fn(&"both".to_string()), Some(&export("both", &[], None, 2)));
    assert!(base.get_fn(&"new".to_string()).is_none());
}

#[test]
fn call_sites_resolve_against_the_base_table() {
    let base = table_with(vec![export("log", &[F32], None, 0x500)]);
    let mut batch = vec![assembly(1, vec![], vec![call("log", &[F32], None)])];
    Assembly::link_all(&mut batch, &base).expect("log is registered");
    assert_eq!(addresses(&batch[0]), vec![Some(0x500)]);
}

#[test]
fn assemblies_resolve_against_each_other_in_any_order() {
    let base = DispatchTable::new();
    let mut batch = vec![
        assembly(1, vec![export("a", &[], None, 0x10)], vec![call("b", &[], Some(F32))]),
        assembly(2, vec![export("b", &[], Some(F32), 0x20)], vec![call("c", &[], None), call("a", &[], None)]),
        assembly(3, vec![export("c", &[], None, 0x30)], vec![]),
    ];
    let linked = Assembly::link_all(&mut batch, &base).expect("every dependency is in the batch");
    assert_eq!(addresses(&batch[0]), vec![Some(0x20)]);
    assert_eq!(addresses(&batch[1]), vec![Some(0x30), Some(0x10)]);
    assert_eq!(addresses(&batch[2]), Vec::<Option<usize>>::new());
    assert_eq!(linked.get_fn(&"a".to_string()), Some(&export("a", &[], None, 0x10)));
    assert_eq!(linked.get_fn(&"b".to_string()), Some(&export("b", &[], Some(F32), 0x20)));
    assert_eq!(linked.get_fn(&"c".to_string()), Some(&export("c", &[], None, 0x30)));
    assert!(base.get_fn(&"a".to_string()).is_none());
}

#[test]
fn later_export_of_a_name_wins() {
    let base = table_with(vec![export("f", &[], None, 1)]);
    let mut batch = vec![
        assembly(1, vec![export("f", &[], None, 2)], vec![call("f", &[], None)]),
        assembly(2, vec![export("f", &[], None, 3)], vec![]),
    ];
    let linked = Assembly::link_all(&mut batch, &base).expect("f is exported");
    assert_eq!(linked.get_fn(&"f".to_string()), Some(&export("f", &[], None, 3)));
    assert_eq!(addresses(&batch[0]), vec![Some(3)]);
}

#[test]
fn success_leaves_no_call_site_unresolved() {
    let base = table_with(vec![export("x", &[], None, 7)]);
    let mut batch = vec![
        assembly(1, vec![export("y", &[], None, 8)], vec![call("x", &[], None), call("y", &[], None)]),
        assembly(2, vec![], vec![call("y", &[], None)]),
    ];
    assert!(Assembly::link_all(&mut batch, &base).is_ok());
    for assembly in &batch {
        assert!(assembly.info().dispatch_table.slots.iter().all(|site| site.is_resolved()));
    }
}

#[test]
fn relinking_a_linked_batch_changes_nothing() {
    let base = table_with(vec![export("x", &[], None, 7)]);
    let mut batch = vec![
        assembly(1, vec![export("y", &[], None, 8)], vec![call("x", &[], None)]),
        assembly(2, vec![export("z", &[], None, 9)], vec![call("y", &[], None)]),
    ];
    let first = Assembly::link_all(&mut batch, &base).expect("links");
    let before: Vec<_> = batch.iter().map(addresses).collect();
    let second = Assembly::link_all(&mut batch, &first).expect("links again");
    let after: Vec<_> = batch.iter().map(addresses).collect();
    assert_eq!(before, after);
    for name in ["x", "y", "z"] {
        assert_eq!(first.get_fn(&name.to_string()), second.get_fn(&name.to_string()));
        assert!(second.get_fn(&name.to_string()).is_some());
    }
    let pending = Assembly::collect_unresolved(&batch);
    assert!(pending.is_empty());
}

#[test]
fn area_returning_f32_does_not_satisfy_area_returning_f64() {
    let base = DispatchTable::new();
    let mut batch = vec![
        assembly(1, vec![export("area", &[CIRCLE], Some(F32), 0x40)], vec![]),
        assembly(2, vec![], vec![call("area", &[CIRCLE], Some(F64))]),
    ];
    match Assembly::link_all(&mut batch, &base) {
        Err(Error::SignatureMismatch(name, expected, found)) => {
            assert_eq!(name, "area");
            assert_eq!(expected, prototype("area", &[CIRCLE], Some(F64)));
            assert_eq!(found, prototype("area", &[CIRCLE], Some(F32)));
        }
        other => panic!("expected a signature mismatch, got {:?}", other.map(|_| ())),
    }
    assert_eq!(addresses(&batch[1]), vec![None]);
    assert!(base.get_fn(&"area".to_string()).is_none());
}

#[test]
fn mismatch_in_argument_types_is_rejected() {
    let base = table_with(vec![export("f", &[F32, F64], None, 1)]);
    let mut batch = vec![assembly(1, vec![], vec![call("f", &[F64, F32], None)])];
    assert!(matches!(
        Assembly::link_all(&mut batch, &base),
        Err(Error::SignatureMismatch(..))
    ));
}

#[test]
fn mismatch_wins_over_missing_dependencies() {
    let base = table_with(vec![export("f", &[], Some(F32), 1)]);
    let mut batch = vec![assembly(
        1,
        vec![],
        vec![call("missing", &[], None), call("f", &[], Some(F64)), call("f", &[], Some(F32))],
    )];
    match Assembly::link_all(&mut batch, &base) {
        Err(Error::SignatureMismatch(name, _, _)) => assert_eq!(name, "f"),
        other => panic!("expected a signature mismatch, got {:?}", other.map(|_| ())),
    }
    assert_eq!(addresses(&batch[0]), vec![None, None, None]);
}

#[test]
fn call_sites_before_the_first_mismatch_are_resolved() {
    let base = table_with(vec![export("ok", &[], None, 5), export("bad", &[], None, 6)]);
    let mut batch = vec![
        assembly(1, vec![], vec![call("ok", &[], None)]),
        assembly(2, vec![], vec![call("bad", &[F32], None), call("ok", &[], None)]),
    ];
    match Assembly::link_all(&mut batch, &base) {
        Err(Error::SignatureMismatch(name, expected, found)) => {
            assert_eq!(name, "bad");
            assert_eq!(expected, prototype("bad", &[F32], None));
            assert_eq!(found, prototype("bad", &[], None));
        }
        other => panic!("expected a signature mismatch, got {:?}", other.map(|_| ())),
    }
    assert_eq!(addresses(&batch[0]), vec![Some(5)]);
    assert_eq!(addresses(&batch[1]), vec![None, None]);
}

#[test]
fn missing_dependencies_are_all_named_in_order() {
    let base = table_with(vec![export("here", &[], None, 5)]);
    let mut batch = vec![
        assembly(1, vec![], vec![call("gone", &[], None), call("here", &[], None)]),
        assembly(2, vec![], vec![call("lost", &[], None), call("gone", &[], None)]),
    ];
    match Assembly::link_all(&mut batch, &base) {
        Err(Error::MissingDependency(names)) => {
            assert_eq!(names, vec!["gone".to_string(), "lost".to_string(), "gone".to_string()]);
        }
        other => panic!("expected missing dependencies, got {:?}", other.map(|_| ())),
    }
    assert_eq!(addresses(&batch[0]), vec![None, Some(5)]);
    assert_eq!(addresses(&batch[1]), vec![None, None]);
    assert!(base.get_fn(&"gone".to_string()).is_none());
}

#[test]
fn failed_link_leaves_the_given_table_untouched() {
    let base = table_with(vec![export("f", &[], None, 1)]);
    let mut batch = vec![assembly(1, vec![export("g", &[], None, 2), export("f", &[], None, 3)], vec![call("h", &[], None)])];
    assert!(matches!(
        Assembly::link_all(&mut batch, &base),
        Err(Error::MissingDependency(_))
    ));
    assert_eq!(base.get_fn(&"f".to_string()), Some(&export("f", &[], None, 1)));
    assert!(base.get_fn(&"g".to_string()).is_none());
}

#[test]
fn resolved_call_sites_are_not_looked_up() {
    let base = table_with(vec![export("f", &[], Some(F32), 1)]);
    let kept = CallSite::resolved(prototype("f", &[], Some(F64)), 0x77);
    let unknown = CallSite::resolved(prototype("nowhere", &[], None), 0x78);
    let mut batch = vec![assembly(1, vec![], vec![kept, unknown])];
    assert!(Assembly::link_all(&mut batch, &base).is_ok());
    assert_eq!(addresses(&batch[0]), vec![Some(0x77), Some(0x78)]);
}

#[test]
fn collect_unresolved_lists_slots_in_batch_order() {
    let batch = vec![
        assembly(1, vec![], vec![call("a", &[], None), CallSite::resolved(prototype("b", &[], None), 1), call("c", &[], None)]),
        assembly(2, vec![], vec![]),
        assembly(3, vec![], vec![CallSite::resolved(prototype("d", &[], None), 2), call("e", &[], None)]),
    ];
    assert_eq!(
        Assembly::collect_unresolved(&batch),
        vec![
            SlotRef { assembly: 0, slot: 0 },
            SlotRef { assembly: 0, slot: 2 },
            SlotRef { assembly: 2, slot: 1 },
        ]
    );
}

#[test]
fn sweep_defers_what_the_table_lacks() {
    let table = table_with(vec![export("a", &[], None, 0xA), export("c", &[], None, 0xC)]);
    let mut batch = vec![assembly(
        1,
        vec![],
        vec![call("a", &[], None), call("b", &[], None), call("c", &[], None), call("d", &[], None)],
    )];
    let pending = Assembly::collect_unresolved(&batch);
    let deferred = Assembly::sweep(&mut batch, &table, &pending).expect("no conflict");
    assert_eq!(
        deferred,
        vec![SlotRef { assembly: 0, slot: 1 }, SlotRef { assembly: 0, slot: 3 }]
    );
    assert!(deferred.len() <= pending.len());
    assert_eq!(addresses(&batch[0]), vec![Some(0xA), None, Some(0xC), None]);
}

#[test]
fn sweep_visits_only_what_it_is_given() {
    let table = table_with(vec![export("a", &[], None, 0xA)]);
    let mut batch = vec![assembly(1, vec![], vec![call("a", &[], None), call("a", &[], None)])];
    let deferred = Assembly::sweep(&mut batch, &table, &vec![SlotRef { assembly: 0, slot: 1 }])
        .expect("no conflict");
    assert!(deferred.is_empty());
    assert_eq!(addresses(&batch[0]), vec![None, Some(0xA)]);
}

#[test]
fn sweep_stops_at_the_first_conflict() {
    let table = table_with(vec![export("a", &[], None, 0xA), export("b", &[F32], None, 0xB)]);
    let mut batch = vec![assembly(
        1,
        vec![],
        vec![call("a", &[], None), call("b", &[], None), call("a", &[], None)],
    )];
    let pending = Assembly::collect_unresolved(&batch);
    assert!(matches!(
        Assembly::sweep(&mut batch, &table, &pending),
        Err(Error::SignatureMismatch(..))
    ));
    assert_eq!(addresses(&batch[0]), vec![Some(0xA), None, None]);
}

#[test]
fn resolve_of_nothing_makes_no_sweep() {
    let table = DispatchTable::new();
    let mut batch = vec![assembly(1, vec![], vec![])];
    let resolution = Assembly::resolve(&mut batch, &table, Vec::new()).expect("nothing to do");
    assert_eq!(resolution.sweeps, 0);
    assert!(resolution.outstanding.is_empty());
}

#[test]
fn resolve_of_one_call_site_makes_one_sweep() {
    let table = table_with(vec![export("a", &[], None, 0xA)]);
    let mut batch = vec![assembly(1, vec![], vec![call("a", &[], None)])];
    let pending = Assembly::collect_unresolved(&batch);
    let resolution = Assembly::resolve(&mut batch, &table, pending).expect("no conflict");
    assert_eq!(resolution.sweeps, 1);
    assert!(resolution.outstanding.is_empty());
    assert_eq!(addresses(&batch[0]), vec![Some(0xA)]);

    let mut lonely = vec![assembly(2, vec![], vec![call("zzz", &[], None)])];
    let pending = Assembly::collect_unresolved(&lonely);
    let resolution = Assembly::resolve(&mut lonely, &table, pending).expect("no conflict");
    assert_eq!(resolution.sweeps, 1);
    assert_eq!(resolution.outstanding, vec![SlotRef { assembly: 0, slot: 0 }]);
}

#[test]
fn resolve_stops_after_a_sweep_without_progress() {
    let table = table_with(vec![export("a", &[], None, 0xA)]);
    let mut batch = vec![assembly(
        1,
        vec![],
        vec![call("a", &[], None), call("b", &[], None), call("a", &[], None), call("c", &[], None)],
    )];
    let pending = Assembly::collect_unresolved(&batch);
    let total = pending.len();
    let resolution = Assembly::resolve(&mut batch, &table, pending).expect("no conflict");
    assert_eq!(resolution.sweeps, 2);
    assert!(resolution.sweeps <= total);
    assert_eq!(
        resolution.outstanding,
        vec![SlotRef { assembly: 0, slot: 1 }, SlotRef { assembly: 0, slot: 3 }]
    );
    assert_eq!(addresses(&batch[0]), vec![Some(0xA), None, Some(0xA), None]);
}

#[test]
fn resolve_reports_a_conflict() {
    let table = table_with(vec![export("a", &[], Some(F32), 0xA)]);
    let mut batch = vec![assembly(1, vec![], vec![call("a", &[], Some(F64))])];
    let pending = Assembly::collect_unresolved(&batch);
    assert!(matches!(
        Assembly::resolve(&mut batch, &table, pending),
        Err(Error::SignatureMismatch(..))
    ));
}
