use conformance_tool::merge::{can_merge, merge_contract_source, merge_plan, merged_file_name, source_file_name};
use conformance_tool::model::{
    FunctionImplementation, FunctionSignature, FunctionSpecification, Implementation, SourceLocation,
    Specification,
};

const SOURCE: &str = "pragma solidity ^0.5.0;\ncontract C {\n    function f() public {}\n    function g() public {}\n}\n";

fn func(name: &str, offset: u64) -> FunctionImplementation {
    FunctionImplementation {
        signature: FunctionSignature { name: name.to_string(), kind: "function".to_string(), ins: vec![] },
        src: SourceLocation { offset },
    }
}

fn spec() -> Specification {
    let sf = |name: &str, text: &str| FunctionSpecification {
        signature: FunctionSignature { name: name.to_string(), kind: "function".to_string(), ins: vec![] },
        spec: text.to_string(),
    };
    Specification {
        variables: vec![],
        functions: vec![sf("f", "@notice postcondition x == 1"), sf("g", "@notice postcondition x == 2")],
        invariant: "@notice invariant x >= 0".to_string(),
    }
}

fn offset_of(pattern: &str) -> u64 {
    SOURCE.find(pattern).unwrap() as u64
}

fn imp() -> Implementation {
    Implementation {
        contract_name: "C".to_string(),
        contract_definition: SourceLocation { offset: offset_of("contract C") },
        variables: vec![],
        functions: vec![func("f", offset_of("function f")), func("g", offset_of("function g"))],
        contracts_inherited: vec![],
    }
}

#[test]
fn annotations_are_inserted_with_invariant() {
    let merged = merge_contract_source(&spec(), &imp(), true, SOURCE.as_bytes());
    let expected = "pragma solidity ^0.5.0;\n/** \n * @notice invariant x >= 0 \n */ \ncontract C {\n    /** \n * @notice postcondition x == 1 \n */ \nfunction f() public {}\n    /** \n * @notice postcondition x == 2 \n */ \nfunction g() public {}\n}\n";
    assert_eq!(String::from_utf8(merged).unwrap(), expected);
}

#[test]
fn annotations_are_inserted_without_invariant() {
    let merged = merge_contract_source(&spec(), &imp(), false, SOURCE.as_bytes());
    let expected = "pragma solidity ^0.5.0;\ncontract C {\n    /** \n * @notice postcondition x == 1 \n */ \nfunction f() public {}\n    /** \n * @notice postcondition x == 2 \n */ \nfunction g() public {}\n}\n";
    assert_eq!(String::from_utf8(merged).unwrap(), expected);
}

#[test]
fn removing_annotations_gives_back_the_source() {
    let merged = String::from_utf8(merge_contract_source(&spec(), &imp(), true, SOURCE.as_bytes())).unwrap();
    let stripped = merged
        .replace("/** \n * @notice invariant x >= 0 \n */ \n", "")
        .replace("/** \n * @notice postcondition x == 1 \n */ \n", "")
        .replace("/** \n * @notice postcondition x == 2 \n */ \n", "");
    assert_eq!(stripped, SOURCE);
}

#[test]
fn layout_is_accepted_when_offsets_fit() {
    assert!(can_merge(&spec(), &imp(), true, SOURCE.len()));
    assert!(can_merge(&spec(), &imp(), false, SOURCE.len()));
}

#[test]
fn layout_is_refused_when_a_function_has_no_specification() {
    let mut i = imp();
    i.functions.push(func("h", SOURCE.len() as u64 - 2));
    assert!(!can_merge(&spec(), &i, true, SOURCE.len()));
}

#[test]
fn layout_is_refused_when_offsets_go_back() {
    let mut i = imp();
    i.functions.reverse();
    assert!(!can_merge(&spec(), &i, true, SOURCE.len()));
}

#[test]
fn layout_is_refused_when_an_offset_is_past_the_end() {
    assert!(!can_merge(&spec(), &imp(), true, 40));
    let mut i = imp();
    i.contract_definition.offset = 1000;
    assert!(!can_merge(&spec(), &i, true, SOURCE.len()));
    assert!(can_merge(&spec(), &i, false, SOURCE.len()));
}

#[test]
fn file_names() {
    assert_eq!(merged_file_name("Token"), "merged_contract_Token.sol");
    assert_eq!(source_file_name("Token"), "Token.sol");
}

fn named(name: &str, parents: Vec<Implementation>) -> Implementation {
    Implementation {
        contract_name: name.to_string(),
        contract_definition: SourceLocation { offset: 0 },
        variables: vec![],
        functions: vec![],
        contracts_inherited: parents,
    }
}

#[test]
fn merge_plan_walks_the_tree_and_only_the_top_carries_the_invariant() {
    let top = named("Top", vec![named("First", vec![named("Grand", vec![])]), named("Second", vec![])]);
    let plan: Vec<(&str, bool)> = merge_plan(&top, true).into_iter().map(|(c, b)| (c.contract_name.as_str(), b)).collect();
    assert_eq!(plan, vec![("Top", true), ("First", false), ("Grand", false), ("Second", false)]);
    let plan: Vec<(&str, bool)> = merge_plan(&top, false).into_iter().map(|(c, b)| (c.contract_name.as_str(), b)).collect();
    assert_eq!(plan, vec![("Top", false), ("First", false), ("Grand", false), ("Second", false)]);
}
