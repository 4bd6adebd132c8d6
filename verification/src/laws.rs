//! Properties that relate the library's operations to one another.
use vstd::prelude::*;

use crate::conformance::{
    conformance, find_spec, first_error, implementation_check, implementation_checks,
    is_constructor, lemma_conformance_parts, signature_check, signature_checks, variable_check,
    variable_checks,
};
use crate::model::{
    all_functions, chain_has_function, chain_has_variable, function_models, inherited_functions,
    spec_models, variable_models, FunctionModel, Implementation, Specification,
};
use crate::pipeline::{report_views, reports_errors};
use crate::values::{constructor_inputs, digits_value, h160_from_str, is_digit, u64_of, value_of, ValueModel, conversion_error};
use crate::text::occurs_in;
use crate::model::VariableModel;

verus! {

/// The first error is `Ok` exactly when every outcome is `Ok`.
pub proof fn lemma_first_error_ok(rs: Seq<Result<(), Seq<char>>>)
    ensures
        first_error(rs) is Ok <==> forall|j: int| 0 <= j < rs.len() ==> (#[trigger] rs[j]) is Ok,
    decreases rs.len(),
{
    if rs.len() > 0 {
        lemma_first_error_ok(rs.drop_first());
        if first_error(rs) is Ok {
            assert forall|j: int| 0 <= j < rs.len() implies (#[trigger] rs[j]) is Ok by {
                if j > 0 {
                    assert(rs[j] == rs.drop_first()[j - 1]);
                }
            }
        }
        if forall|j: int| 0 <= j < rs.len() ==> (#[trigger] rs[j]) is Ok {
            assert forall|j: int| 0 <= j < rs.len() - 1 implies (#[trigger] rs.drop_first()[j]) is Ok by {
                assert(rs.drop_first()[j] == rs[j + 1]);
            }
            assert(rs[0] is Ok);
        }
    }
}

/// The conformance check passes exactly when each of its checks passes.
pub proof fn lemma_conformance_ok(spec: Specification, imp: Implementation, evolution: bool)
    ensures
        conformance(spec, imp, evolution) is Ok <==> {
            &&& forall|j: int| 0 <= j < spec.variables@.len() ==> (#[trigger] variable_checks(spec, imp)[j]) is Ok
            &&& forall|j: int| 0 <= j < spec.functions@.len() ==> (#[trigger] signature_checks(spec, imp, evolution)[j]) is Ok
            &&& forall|j: int| 0 <= j < all_functions(imp).len() ==> (#[trigger] implementation_checks(spec, imp, evolution)[j]) is Ok
        },
{
    lemma_conformance_parts(spec, imp, evolution);
    lemma_first_error_ok(variable_checks(spec, imp));
    lemma_first_error_ok(signature_checks(spec, imp, evolution));
    lemma_first_error_ok(implementation_checks(spec, imp, evolution));
}

/// When an implementation conforms to a specification, every state variable
/// of the specification is declared by the implementation, every function of
/// the specification (but constructors on an upgrade) is declared with the
/// same signature, and every function of the implementation's inheritance
/// tree finds a specification of its name with the same signature.
pub proof fn lemma_conformance_gives_specs(spec: Specification, imp: Implementation, evolution: bool)
    requires
        conformance(spec, imp, evolution) is Ok,
    ensures
        forall|j: int| 0 <= j < spec.variables@.len() ==> chain_has_variable(imp, (#[trigger] spec.variables@[j])@),
        forall|j: int| 0 <= j < spec.functions@.len() && !(evolution && is_constructor((#[trigger] spec.functions@[j])@.signature.kind))
            ==> chain_has_function(imp, spec.functions@[j]@.signature),
        forall|j: int| 0 <= j < all_functions(imp).len() ==> {
            let f = #[trigger] all_functions(imp)[j];
            &&& !(evolution && is_constructor(f.signature.kind))
            &&& find_spec(f.signature.name, spec_models(spec.functions@)) matches Some(s) && s.signature == f.signature
        },
{
    lemma_conformance_ok(spec, imp, evolution);
    assert forall|j: int| 0 <= j < spec.variables@.len() implies chain_has_variable(imp, (#[trigger] spec.variables@[j])@) by {
        assert(variable_checks(spec, imp)[j] == variable_check(imp, spec.variables@[j]@));
    }
    assert forall|j: int| 0 <= j < spec.functions@.len() && !(evolution && is_constructor((#[trigger] spec.functions@[j])@.signature.kind))
        implies chain_has_function(imp, spec.functions@[j]@.signature) by {
        assert(signature_checks(spec, imp, evolution)[j] == signature_check(imp, spec.functions@[j]@, evolution));
    }
    assert forall|j: int| 0 <= j < all_functions(imp).len() implies {
        let f = #[trigger] all_functions(imp)[j];
        &&& !(evolution && is_constructor(f.signature.kind))
        &&& find_spec(f.signature.name, spec_models(spec.functions@)) matches Some(s) && s.signature == f.signature
    } by {
        assert(implementation_checks(spec, imp, evolution)[j] == implementation_check(
            spec_models(spec.functions@),
            all_functions(imp)[j],
            evolution,
        ));
    }
}

/// A list of functions with no constructor has no constructor parameters.
pub proof fn lemma_no_constructor_no_inputs(fs: Seq<FunctionModel>)
    requires
        forall|j: int| 0 <= j < fs.len() ==> !is_constructor((#[trigger] fs[j]).signature.kind),
    ensures
        constructor_inputs(fs) == Seq::<crate::model::VariableModel>::empty(),
    decreases fs.len(),
{
    if fs.len() > 0 {
        assert(!is_constructor(fs[fs.len() - 1].signature.kind));
        assert forall|j: int| 0 <= j < fs.drop_last().len() implies !is_constructor((#[trigger] fs.drop_last()[j]).signature.kind) by {
            assert(fs.drop_last()[j] == fs[j]);
        }
        lemma_no_constructor_no_inputs(fs.drop_last());
    }
}

/// An implementation that passes the upgrade check declares no constructor
/// anywhere in its inheritance tree, so it asks for no constructor arguments.
pub proof fn lemma_upgrade_has_no_constructor(spec: Specification, imp: Implementation)
    requires
        conformance(spec, imp, true) is Ok,
    ensures
        forall|j: int| 0 <= j < all_functions(imp).len() ==> !is_constructor((#[trigger] all_functions(imp)[j]).signature.kind),
        constructor_inputs(function_models(imp.functions@)) == Seq::<crate::model::VariableModel>::empty(),
{
    lemma_conformance_gives_specs(spec, imp, true);
    let own = function_models(imp.functions@);
    assert(all_functions(imp) == own + inherited_functions(imp, imp.contracts_inherited@.len()));
    assert forall|j: int| 0 <= j < own.len() implies !is_constructor((#[trigger] own[j]).signature.kind) by {
        assert(all_functions(imp)[j] == own[j]);
    }
    lemma_no_constructor_no_inputs(own);
}

/// An implementation that passes the deployment check and declares no
/// constructor in its inheritance tree also passes the upgrade check.
pub proof fn lemma_deploy_conformance_carries_to_upgrade(spec: Specification, imp: Implementation)
    requires
        conformance(spec, imp, false) is Ok,
        forall|j: int| 0 <= j < all_functions(imp).len() ==> !is_constructor((#[trigger] all_functions(imp)[j]).signature.kind),
    ensures
        conformance(spec, imp, true) is Ok,
{
    lemma_conformance_ok(spec, imp, false);
    lemma_conformance_ok(spec, imp, true);
    assert forall|j: int| 0 <= j < spec.functions@.len() implies (#[trigger] signature_checks(spec, imp, true)[j]) is Ok by {
        assert(signature_checks(spec, imp, false)[j] is Ok);
        assert(signature_checks(spec, imp, true)[j] == signature_check(imp, spec.functions@[j]@, true));
        assert(signature_checks(spec, imp, false)[j] == signature_check(imp, spec.functions@[j]@, false));
    }
    assert forall|j: int| 0 <= j < all_functions(imp).len() implies (#[trigger] implementation_checks(spec, imp, true)[j]) is Ok by {
        assert(implementation_checks(spec, imp, false)[j] is Ok);
        assert(!is_constructor(all_functions(imp)[j].signature.kind));
    }
}

/// The reports of two batches of merged contracts show errors exactly when
/// those of one of the batches do: the verdict on all of them is the verdict
/// on each batch combined.
pub proof fn lemma_reports_errors_concat(a: Seq<String>, b: Seq<String>)
    ensures
        reports_errors(report_views(a + b)) == (reports_errors(report_views(a)) || reports_errors(report_views(b))),
{
    let all = report_views(a + b);
    assert(all =~= report_views(a) + report_views(b));
    if reports_errors(report_views(a)) {
        let i = choose|i: int| 0 <= i < report_views(a).len() && crate::text::occurs_in(#[trigger] report_views(a)[i], crate::pipeline::verifier_error_marker());
        assert(all[i] == report_views(a)[i]);
    }
    if reports_errors(report_views(b)) {
        let i = choose|i: int| 0 <= i < report_views(b).len() && crate::text::occurs_in(#[trigger] report_views(b)[i], crate::pipeline::verifier_error_marker());
        assert(all[a.len() + i] == report_views(b)[i]);
    }
    if reports_errors(all) {
        let i = choose|i: int| 0 <= i < all.len() && crate::text::occurs_in(#[trigger] all[i], crate::pipeline::verifier_error_marker());
        if i < a.len() {
            assert(all[i] == report_views(a)[i]);
        } else {
            assert(all[i] == report_views(b)[i - a.len()]);
        }
    }
}

/// A function declared by a contract itself, or found along the chain of
/// first inherited contracts of the first contract it inherits from, is found
/// by the signature search; nothing else is.
pub proof fn lemma_chain_has_function_own_or_first_parent(imp: Implementation, sig: crate::model::SignatureModel)
    ensures
        (exists|i: int| 0 <= i < imp.functions@.len() && (#[trigger] imp.functions@[i])@.signature == sig)
            ==> chain_has_function(imp, sig),
        imp.contracts_inherited@.len() > 0 && chain_has_function(imp.contracts_inherited@[0], sig)
            ==> chain_has_function(imp, sig),
        chain_has_function(imp, sig) ==> (exists|i: int| 0 <= i < imp.functions@.len() && (#[trigger] imp.functions@[i])@.signature == sig)
            || (imp.contracts_inherited@.len() > 0 && chain_has_function(imp.contracts_inherited@[0], sig)),
{
}

/// A variable declared by a contract itself, or along the chain of first
/// inherited contracts of its first parent, is found by the variable search.
pub proof fn lemma_chain_has_variable_own_or_first_parent(imp: Implementation, v: VariableModel)
    ensures
        (exists|i: int| 0 <= i < imp.variables@.len() && (#[trigger] imp.variables@[i])@ == v)
            ==> chain_has_variable(imp, v),
        imp.contracts_inherited@.len() > 0 && chain_has_variable(imp.contracts_inherited@[0], v)
            ==> chain_has_variable(imp, v),
        chain_has_variable(imp, v) ==> (exists|i: int| 0 <= i < imp.variables@.len() && (#[trigger] imp.variables@[i])@ == v)
            || (imp.contracts_inherited@.len() > 0 && chain_has_variable(imp.contracts_inherited@[0], v)),
{
}

/// An implementation conforms to a specification when each of the
/// specification's state variables and functions (but constructors on an
/// upgrade) is declared with the same signature by the implementation or by
/// the first contract it inherits from, and every function of the
/// implementation's inheritance tree is not a constructor on an upgrade and
/// finds, as the first specification of its name, one with its signature.
pub proof fn lemma_conformance_from_declarations(spec: Specification, imp: Implementation, evolution: bool)
    requires
        forall|j: int| 0 <= j < spec.variables@.len() ==> {
            ||| exists|i: int| 0 <= i < imp.variables@.len() && (#[trigger] imp.variables@[i])@ == (#[trigger] spec.variables@[j])@
            ||| imp.contracts_inherited@.len() > 0 && exists|i: int| 0 <= i < imp.contracts_inherited@[0].variables@.len()
                && (#[trigger] imp.contracts_inherited@[0].variables@[i])@ == spec.variables@[j]@
        },
        forall|j: int| 0 <= j < spec.functions@.len() && !(evolution && is_constructor((#[trigger] spec.functions@[j])@.signature.kind)) ==> {
            ||| exists|i: int| 0 <= i < imp.functions@.len() && (#[trigger] imp.functions@[i])@.signature == spec.functions@[j]@.signature
            ||| imp.contracts_inherited@.len() > 0 && exists|i: int| 0 <= i < imp.contracts_inherited@[0].functions@.len()
                && (#[trigger] imp.contracts_inherited@[0].functions@[i])@.signature == spec.functions@[j]@.signature
        },
        forall|j: int| 0 <= j < all_functions(imp).len() ==> {
            let f = #[trigger] all_functions(imp)[j];
            &&& !(evolution && is_constructor(f.signature.kind))
            &&& find_spec(f.signature.name, spec_models(spec.functions@)) matches Some(s) && s.signature == f.signature
        },
    ensures
        conformance(spec, imp, evolution) is Ok,
{
    lemma_conformance_ok(spec, imp, evolution);
    assert forall|j: int| 0 <= j < spec.variables@.len() implies (#[trigger] variable_checks(spec, imp)[j]) is Ok by {
        let v = spec.variables@[j]@;
        assert(variable_checks(spec, imp)[j] == variable_check(imp, v));
        lemma_chain_has_variable_own_or_first_parent(imp, v);
        if imp.contracts_inherited@.len() > 0 {
            lemma_chain_has_variable_own_or_first_parent(imp.contracts_inherited@[0], v);
        }
    }
    assert forall|j: int| 0 <= j < spec.functions@.len() implies (#[trigger] signature_checks(spec, imp, evolution)[j]) is Ok by {
        let f = spec.functions@[j]@;
        assert(signature_checks(spec, imp, evolution)[j] == signature_check(imp, f, evolution));
        lemma_chain_has_function_own_or_first_parent(imp, f.signature);
        if imp.contracts_inherited@.len() > 0 {
            lemma_chain_has_function_own_or_first_parent(imp.contracts_inherited@[0], f.signature);
        }
    }
    assert forall|j: int| 0 <= j < all_functions(imp).len() implies (#[trigger] implementation_checks(spec, imp, evolution)[j]) is Ok by {
        assert(implementation_checks(spec, imp, evolution)[j] == implementation_check(
            spec_models(spec.functions@),
            all_functions(imp)[j],
            evolution,
        ));
    }
}

/// The constructor parameters of a list of functions are those of its last
/// constructor, in their declared order.
pub proof fn lemma_constructor_inputs_of_last(fs: Seq<FunctionModel>, k: int)
    requires
        0 <= k < fs.len(),
        is_constructor(fs[k].signature.kind),
        forall|j: int| k < j < fs.len() ==> !is_constructor((#[trigger] fs[j]).signature.kind),
    ensures
        constructor_inputs(fs) == fs[k].signature.ins,
    decreases fs.len(),
{
    if k < fs.len() - 1 {
        assert(!is_constructor(fs[fs.len() - 1].signature.kind));
        let p = fs.drop_last();
        assert forall|j: int| k < j < p.len() implies !is_constructor((#[trigger] p[j]).signature.kind) by {
            assert(p[j] == fs[j]);
        }
        lemma_constructor_inputs_of_last(p, k);
    }
}

/// The parameters that an implementation's constructor asks for are exactly
/// those that its last own constructor declares, name by name and type by
/// type, in order; with no own constructor it asks for none.
pub proof fn lemma_constructor_parameters_in_order(imp: Implementation)
    ensures
        forall|k: int| 0 <= k < imp.functions@.len() && imp.functions@[k].signature.kind@ == "constructor"@
            && (forall|j: int| k < j < imp.functions@.len() ==> (#[trigger] imp.functions@[j]).signature.kind@ != "constructor"@)
            ==> {
                &&& constructor_inputs(function_models(imp.functions@)).len() == (#[trigger] imp.functions@[k]).signature.ins@.len()
                &&& forall|p: int| 0 <= p < imp.functions@[k].signature.ins@.len() ==> {
                    &&& (#[trigger] constructor_inputs(function_models(imp.functions@))[p]).name == imp.functions@[k].signature.ins@[p].name@
                    &&& constructor_inputs(function_models(imp.functions@))[p].typ == imp.functions@[k].signature.ins@[p].typ@
                }
            },
        (forall|j: int| 0 <= j < imp.functions@.len() ==> (#[trigger] imp.functions@[j]).signature.kind@ != "constructor"@)
            ==> constructor_inputs(function_models(imp.functions@)).len() == 0,
{
    let fs = function_models(imp.functions@);
    assert forall|k: int| 0 <= k < imp.functions@.len() && imp.functions@[k].signature.kind@ == "constructor"@
        && (forall|j: int| k < j < imp.functions@.len() ==> (#[trigger] imp.functions@[j]).signature.kind@ != "constructor"@)
        implies {
            &&& constructor_inputs(fs).len() == (#[trigger] imp.functions@[k]).signature.ins@.len()
            &&& forall|p: int| 0 <= p < imp.functions@[k].signature.ins@.len() ==> {
                &&& (#[trigger] constructor_inputs(fs)[p]).name == imp.functions@[k].signature.ins@[p].name@
                &&& constructor_inputs(fs)[p].typ == imp.functions@[k].signature.ins@[p].typ@
            }
        } by {
        assert forall|j: int| k < j < fs.len() implies !is_constructor((#[trigger] fs[j]).signature.kind) by {
            assert(fs[j] == imp.functions@[j]@);
        }
        lemma_constructor_inputs_of_last(fs, k);
    }
    if forall|j: int| 0 <= j < imp.functions@.len() ==> (#[trigger] imp.functions@[j]).signature.kind@ != "constructor"@ {
        assert forall|j: int| 0 <= j < fs.len() implies !is_constructor((#[trigger] fs[j]).signature.kind) by {
            assert(fs[j] == imp.functions@[j]@);
        }
        lemma_no_constructor_no_inputs(fs);
    }
}

/// A text occurs in every text that has it between some prefix and suffix,
/// and only there.
pub proof fn lemma_occurs_in_exactly(hay: Seq<char>, needle: Seq<char>)
    ensures
        forall|a: Seq<char>, b: Seq<char>| hay == a + needle + b ==> occurs_in(hay, needle),
        occurs_in(hay, needle) ==> exists|a: Seq<char>, b: Seq<char>| hay == a + needle + b,
{
    assert forall|a: Seq<char>, b: Seq<char>| hay == a + needle + b implies occurs_in(hay, needle) by {
        assert(hay.subrange(a.len() as int, a.len() as int + needle.len()) =~= needle);
    }
    if occurs_in(hay, needle) {
        let i = choose|i: int| 0 <= i && i + needle.len() <= hay.len() && #[trigger] hay.subrange(i, i + needle.len()) == needle;
        let a = hay.subrange(0, i);
        let b = hay.subrange(i + needle.len(), hay.len() as int);
        assert(hay =~= a + needle + b);
    }
}

/// The reports show errors exactly when some report, as the verifier wrote
/// it, contains the verifier's error line.
pub proof fn lemma_reports_errors_as_written(list: Seq<String>)
    ensures
        reports_errors(report_views(list)) <==> exists|i: int| 0 <= i < list.len() && occurs_in(
            #[trigger] list[i]@,
            crate::pipeline::verifier_error_marker(),
        ),
{
    if reports_errors(report_views(list)) {
        let i = choose|i: int| 0 <= i < report_views(list).len() && occurs_in(#[trigger] report_views(list)[i], crate::pipeline::verifier_error_marker());
        assert(report_views(list)[i] == list[i]@);
    }
    if exists|i: int| 0 <= i < list.len() && occurs_in(#[trigger] list[i]@, crate::pipeline::verifier_error_marker()) {
        let i = choose|i: int| 0 <= i < list.len() && occurs_in(#[trigger] list[i]@, crate::pipeline::verifier_error_marker());
        assert(report_views(list)[i] == list[i]@);
    }
}

/// The decoding of each supported type: a `uint256` is the `u64` that its
/// text reads as, whatever that number is (zero included); a `bool` is
/// `true` or `false`; a `string` is its text; an `address` is the 20 bytes
/// that `H160` decodes; a text that does not read as its type is refused.
pub proof fn lemma_value_of_by_type(value: Seq<char>)
    ensures
        forall|n: u64| u64_of(value) == Some(n) ==> value_of("uint256"@, value) == Ok::<ValueModel, Seq<char>>(ValueModel::Uint(n)),
        u64_of(value) is None ==> value_of("uint256"@, value) == Err::<ValueModel, Seq<char>>(conversion_error(value, "uint256"@)),
        value == "true"@ ==> value_of("bool"@, value) == Ok::<ValueModel, Seq<char>>(ValueModel::Bool(true)),
        value == "false"@ ==> value_of("bool"@, value) == Ok::<ValueModel, Seq<char>>(ValueModel::Bool(false)),
        value_of("string"@, value) == Ok::<ValueModel, Seq<char>>(ValueModel::String(value)),
        forall|b: Seq<u8>| h160_from_str(value) == Some(b) ==> value_of("address"@, value) == Ok::<ValueModel, Seq<char>>(ValueModel::Address(b)),
        h160_from_str(value) is None ==> value_of("address"@, value) == Err::<ValueModel, Seq<char>>(conversion_error(value, "address"@)),
        value_of("bytes8"@, value) == Ok::<ValueModel, Seq<char>>(ValueModel::FixedBytes(vstd::utf8::encode_utf8(value))),
        value_of("bytes32"@, value) == Ok::<ValueModel, Seq<char>>(ValueModel::FixedBytes(vstd::utf8::encode_utf8(value))),
        value_of("bytes64"@, value) == Ok::<ValueModel, Seq<char>>(ValueModel::FixedBytes(vstd::utf8::encode_utf8(value))),
        value_of("bytes1024"@, value) == Ok::<ValueModel, Seq<char>>(ValueModel::FixedBytes(vstd::utf8::encode_utf8(value))),
        value_of("int8"@, value) == Err::<ValueModel, Seq<char>>("There is no match for this value"@),
{
    reveal_strlit("uint256");
    reveal_strlit("bool");
    reveal_strlit("string");
    reveal_strlit("address");
    reveal_strlit("bytes8");
    reveal_strlit("bytes32");
    reveal_strlit("bytes64");
    reveal_strlit("bytes1024");
    reveal_strlit("true");
    reveal_strlit("false");
    assert("false"@ != "true"@) by { assert("false"@.len() != "true"@.len()); }
    assert("bool"@ != "address"@) by { assert("bool"@.len() != "address"@.len()); }
    reveal_strlit("int8");
    assert("bytes8"@ != "string"@) by { assert("bytes8"@[0] != "string"@[0]); }
    assert("bytes8"@ != "address"@) by { assert("bytes8"@.len() != "address"@.len()); }
    assert("bytes8"@ != "bool"@) by { assert("bytes8"@.len() != "bool"@.len()); }
    assert("bytes32"@ != "address"@) by { assert("bytes32"@[0] != "address"@[0]); }
    assert("bytes32"@ != "bool"@) by { assert("bytes32"@.len() != "bool"@.len()); }
    assert("bytes32"@ != "string"@) by { assert("bytes32"@.len() != "string"@.len()); }
    assert("bytes64"@ != "address"@) by { assert("bytes64"@[0] != "address"@[0]); }
    assert("bytes64"@ != "bool"@) by { assert("bytes64"@.len() != "bool"@.len()); }
    assert("bytes64"@ != "string"@) by { assert("bytes64"@.len() != "string"@.len()); }
    assert("bytes1024"@ != "address"@) by { assert("bytes1024"@.len() != "address"@.len()); }
    assert("bytes1024"@ != "bool"@) by { assert("bytes1024"@.len() != "bool"@.len()); }
    assert("bytes1024"@ != "string"@) by { assert("bytes1024"@.len() != "string"@.len()); }
    assert("int8"@ != "address"@) by { assert("int8"@.len() != "address"@.len()); }
    assert("int8"@ != "bool"@) by { assert("int8"@[0] != "bool"@[0]); }
    assert("int8"@ != "string"@) by { assert("int8"@.len() != "string"@.len()); }
    assert("int8"@ != "uint256"@) by { assert("int8"@.len() != "uint256"@.len()); }
    assert("int8"@ != "bytes8"@) by { assert("int8"@.len() != "bytes8"@.len()); }
    assert("int8"@ != "bytes32"@) by { assert("int8"@.len() != "bytes32"@.len()); }
    assert("int8"@ != "bytes64"@) by { assert("int8"@.len() != "bytes64"@.len()); }
    assert("int8"@ != "bytes1024"@) by { assert("int8"@.len() != "bytes1024"@.len()); }
    assert("uint256"@ != "address"@) by { assert("uint256"@[0] != "address"@[0]); }
    assert("uint256"@ != "bool"@) by { assert("uint256"@.len() != "bool"@.len()); }
    assert("uint256"@ != "string"@) by { assert("uint256"@.len() != "string"@.len()); }
    assert("uint256"@ != "bytes8"@) by { assert("uint256"@.len() != "bytes8"@.len()); }
    assert("uint256"@ != "bytes32"@) by { assert("uint256"@[0] != "bytes32"@[0]); }
    assert("uint256"@ != "bytes64"@) by { assert("uint256"@[0] != "bytes64"@[0]); }
    assert("uint256"@ != "bytes1024"@) by { assert("uint256"@.len() != "bytes1024"@.len()); }
}

/// The decimal digit of `d`, for `d` below 10.
pub open spec fn digit_char(d: nat) -> char {
    ((d + 48) as u32) as char
}

/// The decimal writing of `n`, without leading zeros.
pub open spec fn decimal_of(n: nat) -> Seq<char>
    decreases n,
{
    if n < 10 {
        seq![digit_char(n)]
    } else {
        decimal_of(n / 10).push(digit_char(n % 10))
    }
}

/// The decimal writing of a number is made of digits and writes that number.
pub proof fn lemma_decimal_of(n: nat)
    ensures
        decimal_of(n).len() > 0,
        forall|i: int| 0 <= i < decimal_of(n).len() ==> is_digit(#[trigger] decimal_of(n)[i]),
        digits_value(decimal_of(n)) == n,
    decreases n,
{
    let d = (n % 10) as nat;
    assert((digit_char(d) as nat) == d + 48);
    assert(('0' as nat) == 48);
    if n >= 10 {
        lemma_decimal_of(n / 10);
        let s = decimal_of(n);
        assert(s.drop_last() =~= decimal_of(n / 10));
        assert(s.last() == digit_char(d));
        assert(digits_value(s) == digits_value(decimal_of(n / 10)) * 10 + d);
        assert(n == (n / 10) * 10 + d) by (nonlinear_arith)
            requires d == n % 10;
        assert forall|i: int| 0 <= i < s.len() implies is_digit(#[trigger] s[i]) by {
            if i < s.len() - 1 {
                assert(s[i] == decimal_of(n / 10)[i]);
            }
        }
    } else {
        assert(decimal_of(n).drop_last().len() == 0);
        assert(decimal_of(n).last() == digit_char(n));
        assert(n % 10 == n);
        assert(digits_value(decimal_of(n).drop_last()) == 0);
    }
}

/// Every `u64`, written in decimal, reads back as itself, with or without a
/// leading `+`: zero and the largest value included.
pub proof fn lemma_u64_reads_its_decimal(n: u64)
    ensures
        u64_of(decimal_of(n as nat)) == Some(n),
        u64_of(seq!['+'] + decimal_of(n as nat)) == Some(n),
        crate::values::value_of("uint256"@, decimal_of(n as nat)) == Ok::<ValueModel, Seq<char>>(ValueModel::Uint(n)),
{
    lemma_decimal_of(n as nat);
    let s = decimal_of(n as nat);
    assert(s[0] != '+') by {
        assert(is_digit(s[0]));
    }
    assert((seq!['+'] + s).drop_first() =~= s);
    lemma_value_of_by_type(s);
}

/// The specification found for a name is the first one in the list with
/// that name.
pub proof fn lemma_find_spec_first(name: Seq<char>, fs: Seq<crate::model::FunctionSpecModel>, k: int)
    requires
        0 <= k < fs.len(),
        fs[k].signature.name == name,
        forall|j: int| 0 <= j < k ==> (#[trigger] fs[j]).signature.name != name,
    ensures
        find_spec(name, fs) == Some(fs[k]),
{
    crate::conformance::lemma_find_spec_skip(name, fs, k);
    assert(fs.subrange(k, fs.len() as int)[0] == fs[k]);
}

/// The functions of an inheritance tree begin with the contract's own
/// functions, in order, and include every function of every contract it
/// inherits from.
pub proof fn lemma_all_functions_members(imp: Implementation)
    ensures
        forall|i: int| 0 <= i < imp.functions@.len() ==> all_functions(imp)[i] == (#[trigger] imp.functions@[i])@,
        forall|k: int, f: FunctionModel| 0 <= k < imp.contracts_inherited@.len()
            && #[trigger] all_functions(imp.contracts_inherited@[k]).contains(f) ==> all_functions(imp).contains(f),
{
    let own = function_models(imp.functions@);
    assert forall|i: int| 0 <= i < imp.functions@.len() implies all_functions(imp)[i] == (#[trigger] imp.functions@[i])@ by {
        assert(all_functions(imp)[i] == own[i]);
    }
    assert forall|k: int, f: FunctionModel| 0 <= k < imp.contracts_inherited@.len()
        && #[trigger] all_functions(imp.contracts_inherited@[k]).contains(f) implies all_functions(imp).contains(f) by {
        lemma_inherited_functions_members(imp, imp.contracts_inherited@.len(), k, f);
        let x = choose|x: int| 0 <= x < inherited_functions(imp, imp.contracts_inherited@.len()).len()
            && inherited_functions(imp, imp.contracts_inherited@.len())[x] == f;
        assert(all_functions(imp)[own.len() + x] == f);
    }
}

proof fn lemma_inherited_functions_members(imp: Implementation, n: nat, k: int, f: FunctionModel)
    requires
        n <= imp.contracts_inherited@.len(),
        0 <= k < n,
        all_functions(imp.contracts_inherited@[k]).contains(f),
    ensures
        inherited_functions(imp, n).contains(f),
    decreases n,
{
    let prev = inherited_functions(imp, (n - 1) as nat);
    let last = all_functions(imp.contracts_inherited@[n - 1]);
    assert(inherited_functions(imp, n) == prev + last);
    if k == n - 1 {
        let x = choose|x: int| 0 <= x < last.len() && last[x] == f;
        assert((prev + last)[prev.len() + x] == f);
    } else {
        lemma_inherited_functions_members(imp, (n - 1) as nat, k, f);
        let x = choose|x: int| 0 <= x < prev.len() && prev[x] == f;
        assert((prev + last)[x] == f);
    }
}

} // verus!
