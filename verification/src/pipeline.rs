//! The decisions of the deployment and upgrade pipeline: the commands it
//! runs, the files it reads and writes, and what it makes of the formal
//! verifier's reports.
use vstd::prelude::*;

use crate::text::{chars_of, contains_text, occurs_in};

verus! {

/// What the formal verifier prints when a merged contract fails.
pub open spec fn verifier_error_marker() -> Seq<char> {
    "Errors were found by the verifier."@
}

/// The error when a report shows that the verifier found errors.
pub open spec fn deploy_refused_message() -> Seq<char> {
    "The contract could not be deployed. Errors were found by the verifier."@
}

pub open spec fn report_views(list: Seq<String>) -> Seq<Seq<char>> {
    list.map_values(|s: String| s@)
}

/// Whether some report shows that the verifier found errors.
pub open spec fn reports_errors(reports: Seq<Seq<char>>) -> bool {
    exists|i: int| 0 <= i < reports.len() && occurs_in(#[trigger] reports[i], verifier_error_marker())
}

/// The directory that the compiler and the verifier work in.
pub open spec fn input_dir() -> Seq<char> {
    "/home/back/contracts/input/"@
}

/// The command that writes the compact JSON AST of `file_name`.
pub open spec fn ast_command_of(file_name: Seq<char>) -> Seq<char> {
    "/home/solc-static-linux-0.5.17 -o /home/back/contracts/input --ast-compact-json  "@ + input_dir()
        + file_name + " --overwrite"@
}

/// The command that writes the ABI and the bytecode of `file_name`.
pub open spec fn compile_command_of(file_name: Seq<char>) -> Seq<char> {
    "/home/solc-static-linux-0.5.17 -o /home/back/contracts/input --bin --abi  "@ + input_dir()
        + file_name + " --overwrite"@
}

/// The command that runs the formal verifier on `file_name`.
pub open spec fn verify_command_of(file_name: Seq<char>) -> Seq<char> {
    "solc-verify.py --parallel 1 --solver z3 "@ + input_dir() + file_name
}

/// Where the compact JSON AST of `file_name` is written.
pub open spec fn ast_json_path_of(file_name: Seq<char>) -> Seq<char> {
    "contracts/input/"@ + file_name + "_json.ast"@
}

/// Where the compiler's output for a contract is written, by extension
/// (`abi` or `bin`).
pub open spec fn artifact_path_of(contract_name: Seq<char>, extension: Seq<char>) -> Seq<char> {
    "contracts/input/"@ + contract_name + "."@ + extension
}

/// The prefix of the names of merged contract files.
pub open spec fn merged_prefix() -> Seq<char> {
    "merged_contract_"@
}

/// The error when no deployment is recorded for a specification id.
pub open spec fn missing_specification_message(spec_id: Seq<char>) -> Seq<char> {
    "Could not find a specification for this id "@ + spec_id
}

/// Refuses the deployment when any of the verifier's reports shows errors.
pub fn parse_merge_files(list_verification: Vec<String>) -> (r: Result<(), String>)
    ensures
        r is Err <==> reports_errors(report_views(list_verification@)),
        r is Err <==> exists|i: int|
            0 <= i < list_verification@.len() && occurs_in(
                #[trigger] list_verification@[i]@,
                verifier_error_marker(),
            ),
        r matches Err(e) ==> e@ == deploy_refused_message(),
{
    let ghost reports = report_views(list_verification@);
    assert(forall|j: int| 0 <= j < list_verification@.len() ==> #[trigger] reports[j] == list_verification@[j]@);
    let mut i: usize = 0;
    while i < list_verification.len()
        invariant
            i <= list_verification@.len(),
            reports == report_views(list_verification@),
            forall|j: int| 0 <= j < list_verification@.len() ==> #[trigger] reports[j] == list_verification@[j]@,
            forall|j: int| 0 <= j < i ==> !occurs_in(#[trigger] reports[j], verifier_error_marker()),
        decreases list_verification@.len() - i,
    {
        if contains_text(list_verification[i].as_str(), "Errors were found by the verifier.") {
            assert(occurs_in(reports[i as int], verifier_error_marker()));
            assert(occurs_in(list_verification@[i as int]@, verifier_error_marker()));
            return Err("The contract could not be deployed. Errors were found by the verifier.".to_owned());
        }
        i = i + 1;
    }
    assert forall|j: int| 0 <= j < list_verification@.len() implies !occurs_in(
        #[trigger] list_verification@[j]@,
        verifier_error_marker(),
    ) by {
        assert(reports[j] == list_verification@[j]@);
    }
    Ok(())
}

/// Whether `file_name` names a merged contract.
pub fn is_merged_contract_file(file_name: &str) -> (r: bool)
    ensures
        r == merged_prefix().is_prefix_of(file_name@),
{
    let cs = chars_of(file_name);
    let prefix = chars_of("merged_contract_");
    if prefix.len() > cs.len() {
        return false;
    }
    let mut i: usize = 0;
    while i < prefix.len()
        invariant
            cs@ == file_name@,
            prefix@ == merged_prefix(),
            prefix@.len() <= cs@.len(),
            i <= prefix@.len(),
            forall|j: int| 0 <= j < i ==> prefix@[j] == cs@[j],
        decreases prefix@.len() - i,
    {
        if prefix[i] != cs[i] {
            return false;
        }
        i = i + 1;
    }
    true
}

/// `a` + `b` + `c` as a new string.
fn join3(a: &str, b: &str, c: &str) -> (r: String)
    ensures
        r@ == a@ + b@ + c@,
{
    let mut r = a.to_owned();
    r.append(b);
    r.append(c);
    r
}

/// The command that writes the compact JSON AST of `file_name`.
pub fn ast_command(file_name: &str) -> (r: String)
    ensures
        r@ == ast_command_of(file_name@),
{
    let mut r = join3(
        "/home/solc-static-linux-0.5.17 -o /home/back/contracts/input --ast-compact-json  ",
        "/home/back/contracts/input/",
        file_name,
    );
    r.append(" --overwrite");
    r
}

/// The command that writes the ABI and the bytecode of `file_name`.
pub fn compile_command(file_name: &str) -> (r: String)
    ensures
        r@ == compile_command_of(file_name@),
{
    let mut r = join3(
        "/home/solc-static-linux-0.5.17 -o /home/back/contracts/input --bin --abi  ",
        "/home/back/contracts/input/",
        file_name,
    );
    r.append(" --overwrite");
    r
}

/// The command that runs the formal verifier on `file_name`.
pub fn verify_command(file_name: &str) -> (r: String)
    ensures
        r@ == verify_command_of(file_name@),
{
    join3("solc-verify.py --parallel 1 --solver z3 ", "/home/back/contracts/input/", file_name)
}

/// Where the compact JSON AST of `file_name` is written.
pub fn ast_json_path(file_name: &str) -> (r: String)
    ensures
        r@ == ast_json_path_of(file_name@),
{
    join3("contracts/input/", file_name, "_json.ast")
}

/// Where the compiler's output for `contract_name` with `extension` is written.
pub fn artifact_path(contract_name: &str, extension: &str) -> (r: String)
    ensures
        r@ == artifact_path_of(contract_name@, extension@),
{
    let mut r = join3("contracts/input/", contract_name, ".");
    r.append(extension);
    r
}

/// The error when no deployment is recorded for `spec_id`.
pub fn missing_specification_error(spec_id: &str) -> (r: String)
    ensures
        r@ == missing_specification_message(spec_id@),
{
    let mut r = "Could not find a specification for this id ".to_owned();
    r.append(spec_id);
    r
}

} // verus!
