use conformance_tool::conformance::{
    check_synctatic_conformance, get_func_spec, get_function_implementation,
    get_function_implementation_contract, get_variables_implementation,
};
use conformance_tool::model::{
    FunctionImplementation, FunctionImplementationContractName, FunctionSignature,
    FunctionSpecification, Implementation, SourceLocation, Specification, VariableDeclaration,
};
use conformance_tool::values::{get_number_argument_constructor, unassigned_constructor_arguments};

fn var(name: &str, typ: &str) -> VariableDeclaration {
    VariableDeclaration { name: name.to_string(), typ: typ.to_string() }
}

fn sig(name: &str, kind: &str, ins: Vec<VariableDeclaration>) -> FunctionSignature {
    FunctionSignature { name: name.to_string(), kind: kind.to_string(), ins }
}

fn func(name: &str, kind: &str, ins: Vec<VariableDeclaration>, offset: u64) -> FunctionImplementation {
    FunctionImplementation { signature: sig(name, kind, ins), src: SourceLocation { offset } }
}

fn spec_func(name: &str, kind: &str, ins: Vec<VariableDeclaration>, text: &str) -> FunctionSpecification {
    FunctionSpecification { signature: sig(name, kind, ins), spec: text.to_string() }
}

fn contract(
    name: &str,
    variables: Vec<VariableDeclaration>,
    functions: Vec<FunctionImplementation>,
    parents: Vec<Implementation>,
) -> Implementation {
    Implementation {
        contract_name: name.to_string(),
        contract_definition: SourceLocation { offset: 0 },
        variables,
        functions,
        contracts_inherited: parents,
    }
}

fn token_spec() -> Specification {
    Specification {
        variables: vec![var("balance", "uint256")],
        functions: vec![
            spec_func("constructor", "constructor", vec![var("initial", "uint256")], "@notice init"),
            spec_func("deposit", "function", vec![var("amount", "uint256")], "@notice postcondition balance > 0"),
        ],
        invariant: "@notice invariant balance >= 0".to_string(),
    }
}

fn token_impl() -> Implementation {
    contract(
        "Token",
        vec![var("balance", "uint256")],
        vec![
            func("constructor", "constructor", vec![var("initial", "uint256")], 10),
            func("deposit", "function", vec![var("amount", "uint256")], 40),
        ],
        vec![],
    )
}

const VARS: &str = "Incompatible variables between the specification and implementation contracts";
const FUNCS: &str = "Incompatible functions between the specification and implementation contracts";
const CTOR: &str = "The contract's implementation cannot have constructor";

#[test]
fn conforming_deployment_passes() {
    assert_eq!(check_synctatic_conformance(&token_spec(), &token_impl(), false), Ok(()));
}

#[test]
fn missing_variable_is_refused() {
    let mut imp = token_impl();
    imp.variables = vec![var("total", "uint256")];
    assert_eq!(check_synctatic_conformance(&token_spec(), &imp, false), Err(VARS.to_string()));
}

#[test]
fn variable_with_other_type_is_refused() {
    let mut imp = token_impl();
    imp.variables = vec![var("balance", "uint128")];
    assert_eq!(check_synctatic_conformance(&token_spec(), &imp, false), Err(VARS.to_string()));
}

#[test]
fn missing_specified_function_is_refused() {
    let mut imp = token_impl();
    imp.functions.pop();
    assert_eq!(check_synctatic_conformance(&token_spec(), &imp, false), Err(FUNCS.to_string()));
}

#[test]
fn unspecified_function_is_refused() {
    let mut imp = token_impl();
    imp.functions.push(func("withdraw", "function", vec![], 90));
    assert_eq!(
        check_synctatic_conformance(&token_spec(), &imp, false),
        Err("Missing Function".to_string())
    );
}

#[test]
fn overload_matched_to_first_specification_of_its_name_is_refused() {
    let spec = Specification {
        variables: vec![],
        functions: vec![
            spec_func("f", "function", vec![var("a", "uint256")], "one"),
            spec_func("f", "function", vec![var("b", "bool")], "two"),
        ],
        invariant: String::new(),
    };
    let imp = contract(
        "C",
        vec![],
        vec![
            func("f", "function", vec![var("a", "uint256")], 5),
            func("f", "function", vec![var("b", "bool")], 9),
        ],
        vec![],
    );
    assert_eq!(check_synctatic_conformance(&spec, &imp, false), Err(FUNCS.to_string()));
}

#[test]
fn upgrade_with_constructor_is_refused() {
    assert_eq!(check_synctatic_conformance(&token_spec(), &token_impl(), true), Err(CTOR.to_string()));
}

#[test]
fn upgrade_without_constructor_passes() {
    let mut imp = token_impl();
    imp.functions.remove(0);
    assert_eq!(check_synctatic_conformance(&token_spec(), &imp, true), Ok(()));
}

#[test]
fn deployment_without_constructor_is_refused() {
    let mut imp = token_impl();
    imp.functions.remove(0);
    assert_eq!(check_synctatic_conformance(&token_spec(), &imp, false), Err(FUNCS.to_string()));
}

#[test]
fn variable_of_first_parent_is_found() {
    let parent = contract("Base", vec![var("balance", "uint256")], vec![], vec![]);
    let mut imp = token_impl();
    imp.variables = vec![];
    imp.contracts_inherited = vec![parent];
    assert_eq!(check_synctatic_conformance(&token_spec(), &imp, false), Ok(()));
}

#[test]
fn variable_of_second_parent_only_is_not_found() {
    let first = contract("First", vec![], vec![], vec![]);
    let second = contract("Second", vec![var("balance", "uint256")], vec![], vec![]);
    let mut imp = token_impl();
    imp.variables = vec![];
    imp.contracts_inherited = vec![first, second];
    assert_eq!(check_synctatic_conformance(&token_spec(), &imp, false), Err(VARS.to_string()));
}

#[test]
fn inherited_function_without_specification_is_refused() {
    let parent = contract("Base", vec![], vec![func("helper", "function", vec![], 3)], vec![]);
    let mut imp = token_impl();
    imp.contracts_inherited = vec![parent];
    assert_eq!(
        check_synctatic_conformance(&token_spec(), &imp, false),
        Err("Missing Function".to_string())
    );
}

fn tree() -> Implementation {
    let grand = contract("Grand", vec![var("g", "bool")], vec![func("g", "function", vec![], 1)], vec![]);
    let first = contract("First", vec![var("a", "bool")], vec![func("a", "function", vec![], 2)], vec![grand]);
    let second = contract("Second", vec![var("b", "bool")], vec![func("b", "function", vec![], 3)], vec![]);
    contract("Top", vec![var("t", "bool")], vec![func("t", "function", vec![], 4)], vec![first, second])
}

#[test]
fn functions_are_collected_depth_first() {
    let mut out = vec![func("x", "function", vec![], 0)];
    get_function_implementation(&tree(), &mut out);
    let names: Vec<&str> = out.iter().map(|f| f.signature.name.as_str()).collect();
    assert_eq!(names, vec!["x", "t", "a", "g", "b"]);
}

#[test]
fn variables_are_collected_depth_first() {
    let mut out = Vec::new();
    get_variables_implementation(&tree(), &mut out);
    let names: Vec<&str> = out.iter().map(|v| v.name.as_str()).collect();
    assert_eq!(names, vec!["t", "a", "g", "b"]);
}

#[test]
fn functions_are_paired_with_their_contract() {
    let mut out: Vec<FunctionImplementationContractName> = Vec::new();
    get_function_implementation_contract(&tree(), &mut out);
    let pairs: Vec<(&str, &str)> =
        out.iter().map(|f| (f.contract_name.as_str(), f.function.signature.name.as_str())).collect();
    assert_eq!(pairs, vec![("Top", "t"), ("First", "a"), ("Grand", "g"), ("Second", "b")]);
}

#[test]
fn specification_is_found_by_name() {
    let spec = token_spec();
    let found = get_func_spec(&func("deposit", "function", vec![], 0), &spec.functions).unwrap();
    assert_eq!(found.spec, "@notice postcondition balance > 0");
    assert_eq!(found.signature.ins, vec![var("amount", "uint256")]);
}

#[test]
fn missing_specification_is_reported() {
    let spec = token_spec();
    assert_eq!(
        get_func_spec(&func("withdraw", "function", vec![], 0), &spec.functions),
        Err("Missing Function".to_string())
    );
}

#[test]
fn constructor_parameters_are_those_of_the_last_constructor() {
    let mut imp = token_impl();
    imp.functions.push(func("constructor", "constructor", vec![var("owner", "address")], 70));
    assert_eq!(get_number_argument_constructor(&imp), Ok(vec![var("owner", "address")]));
}

#[test]
fn no_constructor_means_no_parameters() {
    let imp = contract("C", vec![], vec![func("f", "function", vec![var("x", "bool")], 0)], vec![]);
    assert_eq!(get_number_argument_constructor(&imp), Ok(vec![]));
}

#[test]
fn constructor_arguments_start_empty() {
    let args = unassigned_constructor_arguments(&token_impl());
    assert_eq!(args.len(), 1);
    assert_eq!(args[0].variable_declaration, var("initial", "uint256"));
    assert_eq!(args[0].variable_value, "");
}

#[test]
fn deployment_conformance_without_constructor_carries_to_upgrade() {
    let spec = Specification {
        variables: vec![var("balance", "uint256")],
        functions: vec![spec_func("deposit", "function", vec![var("amount", "uint256")], "s")],
        invariant: String::new(),
    };
    let mut imp = token_impl();
    imp.functions.remove(0);
    assert_eq!(check_synctatic_conformance(&spec, &imp, false), Ok(()));
    assert_eq!(check_synctatic_conformance(&spec, &imp, true), Ok(()));
}

#[test]
fn upgraded_implementation_asks_for_no_constructor_arguments() {
    let mut imp = token_impl();
    imp.functions.remove(0);
    assert_eq!(check_synctatic_conformance(&token_spec(), &imp, true), Ok(()));
    assert_eq!(get_number_argument_constructor(&imp), Ok(vec![]));
    assert!(unassigned_constructor_arguments(&imp).is_empty());
}

#[test]
fn conforming_implementation_has_a_matching_specification_for_every_function() {
    let spec = token_spec();
    let imp = token_impl();
    assert_eq!(check_synctatic_conformance(&spec, &imp, false), Ok(()));
    let mut functions = Vec::new();
    get_function_implementation(&imp, &mut functions);
    for f in &functions {
        let found = get_func_spec(f, &spec.functions).unwrap();
        assert_eq!(found.signature, f.signature);
    }
}
