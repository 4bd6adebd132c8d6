# conformance_tool

A service that checks a Solidity implementation contract against a
specification contract before it is deployed behind a proxy, or before it
replaces the implementation of a deployed proxy.

- `src/` is the library, verified with Verus:
  - `model`: the contracts as the compiler's AST describes them, and their views;
  - `conformance`: the syntactic conformance check and the walks over the inheritance tree;
  - `merge`: the source with the specification's annotations inserted, for the formal verifier;
  - `values`: constructor parameters and the decoding of the values given for them;
  - `pipeline`: the commands the service runs and what it makes of the verifier's reports;
  - `api`: the messages of the web service and its CORS policy;
  - `laws`: properties that relate these operations;
  - `text`: text and byte helpers.
- `app/` is the web service (Rocket), the PostgreSQL record of deployments,
  and the file and process handling around the library.
- `tests/` exercises the library on concrete contracts.
