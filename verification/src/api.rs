//! The messages that the tool's web service exchanges, and its
//! cross-origin resource sharing policy.
use vstd::prelude::*;

use crate::values::AssignedVariable;

verus! {

/// A compiled contract handed back to the client: its role (`contract`,
/// `proxy` or `registry`), ABI, bytecode, source when needed, and address
/// when it is already deployed.
#[derive(Debug, PartialEq, Eq)]
pub struct ContractCompiled {
    pub category: String,
    pub abi: String,
    pub bin: String,
    pub file: String,
    pub address: String,
}

/// A source file sent by the client.
#[derive(Debug, PartialEq, Eq)]
pub struct File {
    pub name: String,
    pub content: String,
    pub verify: bool,
}

/// A request to verify and deploy a contract against a specification.
#[derive(Debug, PartialEq, Eq)]
pub struct DeployContract {
    pub specification_file: File,
    pub file_to_be_verified: String,
    pub implementation_files: Vec<File>,
    pub specification_id: String,
    pub constructor_arguments: Vec<AssignedVariable>,
}

/// A request to verify a new implementation of a deployed specification.
#[derive(Debug, PartialEq, Eq)]
pub struct UpgradeContract {
    pub implementation_files: Vec<File>,
    pub specification_id: String,
    pub file_to_be_verified: String,
}

/// A request for the constructor parameters of a contract.
#[derive(Debug, PartialEq, Eq)]
pub struct ContructorArguments {
    pub implementation_files: Vec<File>,
    pub file_to_be_verified: String,
}

/// The cross-origin resource sharing policy of the web service.
pub struct CORS;

/// The HTTP status of a response with no content.
pub const NO_CONTENT: u16 = 204;

/// The HTTP status of a response to an unknown route.
pub const NOT_FOUND: u16 = 404;

/// The headers that every response carries.
pub open spec fn cors_headers() -> Seq<(Seq<char>, Seq<char>)> {
    seq![
        ("Access-Control-Allow-Origin"@, "*"@),
        ("Access-Control-Allow-Credentials"@, "true"@),
        ("Access-Control-Allow-Methods"@, "GET,HEAD,OPTIONS,POST,PUT"@),
        ("Access-Control-Allow-Headers"@, "Access-Control-Allow-Headers, Origin,Accept, X-Requested-With, Content-Type, Access-Control-Request-Method, Access-Control-Request-Headers"@),
    ]
}

pub open spec fn header_views(hs: Seq<(String, String)>) -> Seq<(Seq<char>, Seq<char>)> {
    hs.map_values(|h: (String, String)| (h.0@, h.1@))
}

impl CORS {
    /// The name under which the policy is attached to the service.
    pub fn name(&self) -> (r: String)
        ensures
            r@ == "Cross-Origin-Resource-Sharing Middleware"@,
    {
        "Cross-Origin-Resource-Sharing Middleware".to_owned()
    }

    /// The headers that the policy adds to every response.
    pub fn response_headers(&self) -> (r: Vec<(String, String)>)
        ensures
            header_views(r@) == cors_headers(),
    {
        let mut r: Vec<(String, String)> = Vec::new();
        r.push(("Access-Control-Allow-Origin".to_owned(), "*".to_owned()));
        r.push(("Access-Control-Allow-Credentials".to_owned(), "true".to_owned()));
        r.push(("Access-Control-Allow-Methods".to_owned(), "GET,HEAD,OPTIONS,POST,PUT".to_owned()));
        r.push(
            (
                "Access-Control-Allow-Headers".to_owned(),
                "Access-Control-Allow-Headers, Origin,Accept, X-Requested-With, Content-Type, Access-Control-Request-Method, Access-Control-Request-Headers".to_owned(),
            ),
        );
        assert(header_views(r@) =~= cors_headers());
        r
    }

    /// The status of a response once the policy has seen it: a preflight
    /// `OPTIONS` request to an unknown route is answered with no content;
    /// any other status stays.
    pub fn response_status(&self, status: u16, method_is_options: bool) -> (r: u16)
        ensures
            r == (if status == NOT_FOUND && method_is_options {
                NO_CONTENT
            } else {
                status
            }),
    {
        if status == NOT_FOUND && method_is_options {
            NO_CONTENT
        } else {
            status
        }
    }
}

} // verus!
