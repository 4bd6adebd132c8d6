use conformance_tool::api::CORS;
use conformance_tool::pipeline::{
    artifact_path, ast_command, ast_json_path, compile_command, is_merged_contract_file,
    missing_specification_error, parse_merge_files, verify_command,
};

const REFUSED: &str = "The contract could not be deployed. Errors were found by the verifier.";

#[test]
fn clean_reports_pass() {
    assert_eq!(parse_merge_files(vec![]), Ok(()));
    assert_eq!(parse_merge_files(vec!["C::f: OK\nNo errors found.".to_string()]), Ok(()));
}

#[test]
fn a_report_with_errors_refuses_deployment() {
    let reports = vec![
        "C::f: OK".to_string(),
        "C::g: ERROR\nErrors were found by the verifier.\n".to_string(),
    ];
    assert_eq!(parse_merge_files(reports), Err(REFUSED.to_string()));
}

#[test]
fn batches_refuse_exactly_when_one_batch_does() {
    let good = vec!["ok".to_string()];
    let bad = vec!["Errors were found by the verifier.".to_string()];
    let joined: Vec<String> = good.iter().chain(bad.iter()).cloned().collect();
    assert!(parse_merge_files(good.clone()).is_ok());
    assert!(parse_merge_files(bad.clone()).is_err());
    assert!(parse_merge_files(joined).is_err());
    let both_good: Vec<String> = good.iter().chain(good.iter()).cloned().collect();
    assert!(parse_merge_files(both_good).is_ok());
}

#[test]
fn merged_files_are_recognised_by_prefix() {
    assert!(is_merged_contract_file("merged_contract_Token.sol"));
    assert!(is_merged_contract_file("merged_contract_"));
    assert!(!is_merged_contract_file("Token.sol"));
    assert!(!is_merged_contract_file("merged_contrac"));
}

#[test]
fn commands() {
    assert_eq!(
        ast_command("Token.sol"),
        "/home/solc-static-linux-0.5.17 -o /home/back/contracts/input --ast-compact-json  /home/back/contracts/input/Token.sol --overwrite"
    );
    assert_eq!(
        compile_command("Token.sol"),
        "/home/solc-static-linux-0.5.17 -o /home/back/contracts/input --bin --abi  /home/back/contracts/input/Token.sol --overwrite"
    );
    assert_eq!(
        verify_command("merged_contract_Token.sol"),
        "solc-verify.py --parallel 1 --solver z3 /home/back/contracts/input/merged_contract_Token.sol"
    );
}

#[test]
fn paths_and_messages() {
    assert_eq!(ast_json_path("Token.sol"), "contracts/input/Token.sol_json.ast");
    assert_eq!(artifact_path("Token", "abi"), "contracts/input/Token.abi");
    assert_eq!(artifact_path("Proxy", "bin"), "contracts/input/Proxy.bin");
    assert_eq!(missing_specification_error("erc20"), "Could not find a specification for this id erc20");
}

#[test]
fn cors_policy() {
    let cors = CORS;
    assert_eq!(cors.name(), "Cross-Origin-Resource-Sharing Middleware");
    let headers = cors.response_headers();
    assert_eq!(headers.len(), 4);
    assert_eq!(headers[0], ("Access-Control-Allow-Origin".to_string(), "*".to_string()));
    assert_eq!(headers[2], ("Access-Control-Allow-Methods".to_string(), "GET,HEAD,OPTIONS,POST,PUT".to_string()));
    assert_eq!(cors.response_status(404, true), 204);
    assert_eq!(cors.response_status(404, false), 404);
    assert_eq!(cors.response_status(200, true), 200);
}
