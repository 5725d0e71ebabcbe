use vstd::prelude::*;
use vstd::string::StringExecFns;
use serde_json::Value;
use cairo_lang_starknet_classes::casm_contract_class::CasmContractClass;
use cairo_lang_starknet_classes::contract_class::{ContractClass, ContractEntryPoints};

verus! {

/// Declares the lowered, executable instruction form.
#[verifier::external_type_specification]
#[verifier::external_body]
pub struct ExCasmClass(CasmContractClass);

/// Whether a text parses as structured JSON; a function of the text alone.
pub uninterp spec fn json_parses(s: Seq<char>) -> bool;

/// Whether the text's abi field is absent (JSON null) or parses as an ABI
/// description; a function of the text alone.
pub uninterp spec fn abi_ok(s: Seq<char>) -> bool;

/// Whether the text's sierra_program field parses as a felt-encoded program
/// body; a function of the text alone.
pub uninterp spec fn program_ok(s: Seq<char>) -> bool;

/// Whether the text's entry_points_by_type field parses as an entry-point
/// table; a function of the text alone.
pub uninterp spec fn entry_points_ok(s: Seq<char>) -> bool;

/// Whether the text's contract_class_version field parses as a string; a
/// function of the text alone.
pub uninterp spec fn version_ok(s: Seq<char>) -> bool;

/// The text's version tag, where version_ok holds.
pub uninterp spec fn version_of(s: Seq<char>) -> Seq<char>;

/// Whether the text's program body decodes to a Sierra program; a function
/// of the text alone.
pub uninterp spec fn program_decodes(s: Seq<char>) -> bool;

/// How many functions the decoded program declares, where it decodes.
pub uninterp spec fn sierra_function_count_of(s: Seq<char>) -> nat;

/// The function indices the text's entry-point table names, in table order.
pub uninterp spec fn entry_point_indices_of(s: Seq<char>) -> Seq<usize>;

/// Whether the lowering stage accepts the text's artifact; a function of
/// the text alone.
pub uninterp spec fn lowering_ok(s: Seq<char>) -> bool;

/// The diagnostic the lowering stage renders when it rejects the artifact.
pub uninterp spec fn lowering_diagnostic(s: Seq<char>) -> Seq<char>;

/// Every required or optional artifact field is present and well-typed as
/// the schema demands.
pub open spec fn schema_ok(s: Seq<char>) -> bool {
    abi_ok(s) && program_ok(s) && entry_points_ok(s) && version_ok(s)
}

/// The entry points name only functions the decoded program has. The
/// lowering stage indexes the program's function table by these indices, so
/// an out-of-range one must be rejected before it.
pub open spec fn entry_point_indices_in_range(s: Seq<char>) -> bool {
    program_decodes(s) ==> (forall|j: int|
        0 <= j < entry_point_indices_of(s).len() ==> (entry_point_indices_of(s)[j] as nat)
            < sierra_function_count_of(s))
}

/// Why a contract artifact could not be compiled.
#[derive(Clone, Debug, PartialEq, Eq)]
pub enum CompileError {
    /// The input is not parseable structured data at all.
    MalformedInput,
    /// A required artifact field is missing or mistyped; carries its name.
    Schema(String),
    /// The declarative-to-executable compile failed; carries the diagnostic.
    Lowering(String),
}

/// The compiled, versioned, engine-runnable form of a contract artifact.
pub struct ExecutableContractClass {
    pub casm: CasmContractClass,
    pub version: String,
}

/// Relies on serde_json::from_str: whether the text is valid JSON.
#[verifier::external_body]
fn json_wellformed(json: &str) -> (r: bool)
    ensures
        r == json_parses(json@),
{
    serde_json::from_str::<Value>(json).is_ok()
}

/// Relies on serde_json::from_value: whether the abi field is absent (JSON
/// null) or parses as an ABI description.
#[verifier::external_body]
fn abi_field_ok(json: &str) -> (r: bool)
    ensures
        r == abi_ok(json@),
{
    let doc: Value = match serde_json::from_str(json) {
        Ok(d) => d,
        Err(_) => return false,
    };
    let v = doc.get("abi").cloned().unwrap_or(Value::Null);
    v.is_null() || serde_json::from_value::<cairo_lang_starknet_classes::abi::Contract>(v).is_ok()
}

/// Relies on serde_json::from_value: whether the sierra_program field
/// parses as a felt-encoded program body.
#[verifier::external_body]
fn program_field_ok(json: &str) -> (r: bool)
    ensures
        r == program_ok(json@),
{
    let doc: Value = match serde_json::from_str(json) {
        Ok(d) => d,
        Err(_) => return false,
    };
    let v = doc.get("sierra_program").cloned().unwrap_or(Value::Null);
    serde_json::from_value::<Vec<cairo_lang_utils::bigint::BigUintAsHex>>(v).is_ok()
}

/// Relies on serde_json::from_value: whether the entry_points_by_type field
/// parses as an entry-point table.
#[verifier::external_body]
fn entry_points_field_ok(json: &str) -> (r: bool)
    ensures
        r == entry_points_ok(json@),
{
    let doc: Value = match serde_json::from_str(json) {
        Ok(d) => d,
        Err(_) => return false,
    };
    let v = doc.get("entry_points_by_type").cloned().unwrap_or(Value::Null);
    serde_json::from_value::<ContractEntryPoints>(v).is_ok()
}

/// Relies on serde_json::from_value: the contract_class_version field as a
/// string, where it is present and a string.
#[verifier::external_body]
fn version_field(json: &str) -> (r: Option<String>)
    ensures
        r is Some <==> version_ok(json@),
        r matches Some(v) ==> v@ == version_of(json@),
{
    let doc: Value = match serde_json::from_str(json) {
        Ok(d) => d,
        Err(_) => return None,
    };
    serde_json::from_value(doc.get("contract_class_version").cloned().unwrap_or(Value::Null)).ok()
}

/// Relies on ContractClass::extract_sierra_program of
/// cairo-lang-starknet-classes: decodes the program body and counts the
/// functions it declares; `None` where the felts do not decode.
#[verifier::external_body]
fn sierra_function_count(json: &str) -> (r: Option<usize>)
    requires
        json_parses(json@),
        program_ok(json@),
    ensures
        r is Some <==> program_decodes(json@),
        r matches Some(n) ==> n as nat == sierra_function_count_of(json@),
{
    let doc: Value = serde_json::from_str(json).unwrap();
    let v = doc.get("sierra_program").cloned().unwrap_or(Value::Null);
    let class = ContractClass {
        sierra_program: serde_json::from_value(v).unwrap(),
        sierra_program_debug_info: None,
        contract_class_version: String::new(),
        entry_points_by_type: ContractEntryPoints {
            external: vec![],
            l1_handler: vec![],
            constructor: vec![],
        },
        abi: None,
    };
    class.extract_sierra_program().ok().map(|p| p.funcs.len())
}

/// Relies on serde_json::from_value: the function indices the entry-point
/// table names, in the order the lowering walks them (constructor,
/// external, L1 handler).
#[verifier::external_body]
fn entry_point_function_indices(json: &str) -> (r: Vec<usize>)
    requires
        json_parses(json@),
        entry_points_ok(json@),
    ensures
        r@ == entry_point_indices_of(json@),
{
    let doc: Value = serde_json::from_str(json).unwrap();
    let v = doc.get("entry_points_by_type").cloned().unwrap_or(Value::Null);
    let eps: ContractEntryPoints = serde_json::from_value(v).unwrap();
    let all = eps.constructor.iter().chain(eps.external.iter()).chain(eps.l1_handler.iter());
    all.map(|e| e.function_idx).collect()
}

/// Relies on CasmContractClass::from_contract_class of
/// cairo-lang-starknet-classes: assembles the declarative artifact from the
/// text's fields (debug info taken where it parses, dropped otherwise) and
/// lowers it to its executable instruction form, with pythonic hints off
/// and no bytecode-size cap; a failure is rendered as its diagnostic text.
/// The entry points must name only functions the program has, as the
/// lowering indexes the program's function table by them.
#[verifier::external_body]
fn lower_artifact(json: &str) -> (r: Result<CasmContractClass, String>)
    requires
        json_parses(json@),
        schema_ok(json@),
        entry_point_indices_in_range(json@),
    ensures
        r is Ok <==> lowering_ok(json@),
        r matches Err(d) ==> d@ == lowering_diagnostic(json@),
{
    let doc: Value = serde_json::from_str(json).unwrap();
    let get = |k: &str| doc.get(k).cloned().unwrap_or(Value::Null);
    let abi = if get("abi").is_null() {
        None
    } else {
        Some(serde_json::from_value(get("abi")).unwrap())
    };
    let class = ContractClass {
        abi,
        sierra_program: serde_json::from_value(get("sierra_program")).unwrap(),
        entry_points_by_type: serde_json::from_value(get("entry_points_by_type")).unwrap(),
        contract_class_version: serde_json::from_value(get("contract_class_version")).unwrap(),
        sierra_program_debug_info: serde_json::from_value(get("sierra_program_debug_info")).ok(),
    };
    CasmContractClass::from_contract_class(class, false, usize::MAX).map_err(|e| format!("{:#?}", e))
}

/// The four schema field names are pairwise distinct: their lengths differ.
proof fn lemma_schema_field_names()
    ensures
        ("abi")@.len() == 3,
        ("sierra_program")@.len() == 14,
        ("entry_points_by_type")@.len() == 20,
        ("contract_class_version")@.len() == 22,
{
    reveal_strlit("abi");
    reveal_strlit("sierra_program");
    reveal_strlit("entry_points_by_type");
    reveal_strlit("contract_class_version");
}

/// Compiles a declarative (JSON) contract artifact into an executable,
/// versioned contract class. Text that is not JSON fails with
/// MalformedInput. A missing or mistyped required field fails with Schema
/// naming that field, checked in schema order; the ABI is optional
/// (absence tolerated, malformed presence rejected) and debug info is
/// diagnostic-only (absent or malformed both tolerated). An entry point
/// naming a function the program does not have, or any other rejection by
/// the lowering stage, fails with Lowering carrying the diagnostic.
pub fn compile_sierra_class(json: &str) -> (r: Result<ExecutableContractClass, CompileError>)
    ensures
        r is Ok <==> (json_parses(json@) && schema_ok(json@) && entry_point_indices_in_range(
            json@,
        ) && lowering_ok(json@)),
        r matches Ok(c) ==> c.version@ == version_of(json@),
        (r matches Err(e) && e is MalformedInput) <==> !json_parses(json@),
        (r matches Err(e) && e matches CompileError::Schema(f) && f@ == "abi"@) <==> (json_parses(
            json@,
        ) && !abi_ok(json@)),
        (r matches Err(e) && e matches CompileError::Schema(f) && f@ == "sierra_program"@) <==> (
        json_parses(json@) && abi_ok(json@) && !program_ok(json@)),
        (r matches Err(e) && e matches CompileError::Schema(f) && f@ == "entry_points_by_type"@)
            <==> (json_parses(json@) && abi_ok(json@) && program_ok(json@) && !entry_points_ok(
            json@,
        )),
        (r matches Err(e) && e matches CompileError::Schema(f) && f@
            == "contract_class_version"@) <==> (json_parses(json@) && abi_ok(json@) && program_ok(
            json@,
        ) && entry_points_ok(json@) && !version_ok(json@)),
        (r matches Err(e) && e is Lowering) <==> (json_parses(json@) && schema_ok(json@) && !(
        entry_point_indices_in_range(json@) && lowering_ok(json@))),
        r matches Err(e) ==> (e matches CompileError::Lowering(d) ==> (
        if entry_point_indices_in_range(json@) {
            d@ == lowering_diagnostic(json@)
        } else {
            d@ == "entry point function index out of range"@
        })),
{
    if !json_wellformed(json) {
        return Err(CompileError::MalformedInput);
    }
    if !abi_field_ok(json) {
        proof {
            lemma_schema_field_names();
        }
        return Err(CompileError::Schema(String::from_str("abi")));
    }
    if !program_field_ok(json) {
        proof {
            lemma_schema_field_names();
        }
        return Err(CompileError::Schema(String::from_str("sierra_program")));
    }
    if !entry_points_field_ok(json) {
        proof {
            lemma_schema_field_names();
        }
        return Err(CompileError::Schema(String::from_str("entry_points_by_type")));
    }
    let version = match version_field(json) {
        None => {
            proof {
                lemma_schema_field_names();
            }
            return Err(CompileError::Schema(String::from_str("contract_class_version")));
        },
        Some(v) => v,
    };
    match sierra_function_count(json) {
        None => {
            // The program body does not decode: the indices constrain
            // nothing, and the lowering stage reports the decode failure.
        },
        Some(n) => {
            let idxs = entry_point_function_indices(json);
            let mut i: usize = 0;
            while i < idxs.len()
                invariant
                    i <= idxs@.len(),
                    idxs@ == entry_point_indices_of(json@),
                    program_decodes(json@),
                    n as nat == sierra_function_count_of(json@),
                    json_parses(json@),
                    abi_ok(json@),
                    program_ok(json@),
                    entry_points_ok(json@),
                    version_ok(json@),
                    version@ == version_of(json@),
                    forall|j: int| 0 <= j < i ==> (idxs@[j] as nat) < n as nat,
                decreases idxs@.len() - i,
            {
                if idxs[i] >= n {
                    proof {
                        assert((entry_point_indices_of(json@)[i as int] as nat)
                            >= sierra_function_count_of(json@));
                    }
                    return Err(
                        CompileError::Lowering(
                            String::from_str("entry point function index out of range"),
                        ),
                    );
                }
                i += 1;
            }
        },
    }
    proof {
        assert(entry_point_indices_in_range(json@));
    }
    match lower_artifact(json) {
        Ok(casm) => Ok(ExecutableContractClass { casm, version }),
        Err(diagnostic) => Err(CompileError::Lowering(diagnostic)),
    }
}

} // verus!
