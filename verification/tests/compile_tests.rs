use blockifier_utils::compile::{compile_sierra_class, CompileError};
use cairo_lang_sierra::program::Program;
use cairo_lang_starknet_classes::contract_class::{ContractClass, ContractEntryPoints};
use cairo_lang_utils::ordered_hash_map::OrderedHashMap;

fn minimal_artifact_json() -> String {
    let program = Program {
        type_declarations: vec![],
        libfunc_declarations: vec![],
        statements: vec![],
        funcs: vec![],
    };
    let class = ContractClass::new(
        &program,
        ContractEntryPoints::default(),
        None,
        OrderedHashMap::default(),
    )
    .unwrap();
    serde_json::to_string(&class).unwrap()
}

#[test]
fn compile_minimal_artifact_succeeds_with_its_version() {
    let json = minimal_artifact_json();
    let class = compile_sierra_class(&json).unwrap();
    assert_eq!(class.version, "0.1.0");
}

#[test]
fn compile_empty_object_cites_the_program_body() {
    match compile_sierra_class("{}") {
        Err(CompileError::Schema(field)) => assert_eq!(field, "sierra_program"),
        other => panic!("expected a schema error, got {:?}", other.map(|c| c.version)),
    }
}

#[test]
fn compile_rejects_unparseable_input() {
    match compile_sierra_class("this is not json") {
        Err(CompileError::MalformedInput) => {}
        other => panic!("expected malformed input, got {:?}", other.map(|c| c.version)),
    }
}

#[test]
fn compile_tolerates_absent_abi_but_rejects_malformed_abi() {
    let json = minimal_artifact_json();
    let mut doc: serde_json::Value = serde_json::from_str(&json).unwrap();
    doc["abi"] = serde_json::Value::from(5u64);
    match compile_sierra_class(&doc.to_string()) {
        Err(CompileError::Schema(field)) => assert_eq!(field, "abi"),
        other => panic!("expected a schema error, got {:?}", other.map(|c| c.version)),
    }
}

#[test]
fn compile_requires_the_version_tag() {
    let json = minimal_artifact_json();
    let mut doc: serde_json::Value = serde_json::from_str(&json).unwrap();
    doc.as_object_mut().unwrap().remove("contract_class_version");
    match compile_sierra_class(&doc.to_string()) {
        Err(CompileError::Schema(field)) => assert_eq!(field, "contract_class_version"),
        other => panic!("expected a schema error, got {:?}", other.map(|c| c.version)),
    }
}

#[test]
fn compile_requires_the_entry_point_table() {
    let json = minimal_artifact_json();
    let mut doc: serde_json::Value = serde_json::from_str(&json).unwrap();
    doc["entry_points_by_type"] = serde_json::Value::from("wrong");
    match compile_sierra_class(&doc.to_string()) {
        Err(CompileError::Schema(field)) => assert_eq!(field, "entry_points_by_type"),
        other => panic!("expected a schema error, got {:?}", other.map(|c| c.version)),
    }
}

#[test]
fn compile_swallows_malformed_debug_info() {
    let json = minimal_artifact_json();
    let mut doc: serde_json::Value = serde_json::from_str(&json).unwrap();
    doc["sierra_program_debug_info"] = serde_json::Value::from(3u64);
    let class = compile_sierra_class(&doc.to_string()).unwrap();
    assert_eq!(class.version, "0.1.0");
}

#[test]
fn compile_reports_a_lowering_failure() {
    let json = minimal_artifact_json();
    let mut doc: serde_json::Value = serde_json::from_str(&json).unwrap();
    doc["sierra_program"] = serde_json::Value::Array(vec![serde_json::Value::from("0x1")]);
    match compile_sierra_class(&doc.to_string()) {
        Err(CompileError::Lowering(diagnostic)) => assert!(!diagnostic.is_empty()),
        other => panic!("expected a lowering error, got {:?}", other.map(|c| c.version)),
    }
}

#[test]
fn compile_rejects_out_of_range_entry_point_index() {
    let json = minimal_artifact_json();
    let mut doc: serde_json::Value = serde_json::from_str(&json).unwrap();
    doc["entry_points_by_type"]["EXTERNAL"] =
        serde_json::from_str("[{\"selector\":\"0x1\",\"function_idx\":0}]").unwrap();
    match compile_sierra_class(&doc.to_string()) {
        Err(CompileError::Lowering(d)) => {
            assert_eq!(d, "entry point function index out of range")
        }
        other => panic!("expected a lowering error, got {:?}", other.map(|c| c.version)),
    }
}
