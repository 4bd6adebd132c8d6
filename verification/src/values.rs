//! Constructor arguments: which parameters a contract's constructor takes,
//! and the decoding of the values a user gives for them by Solidity type.
use vstd::prelude::*;
use vstd::utf8::encode_utf8;
use std::str::FromStr;

use crate::conformance::is_constructor;
use crate::model::{
    duplicate_variables, function_models, variable_models, FunctionModel, Implementation,
    VariableDeclaration, VariableModel,
};
use crate::text::{chars_of, push_text, text_is};

verus! {

/// A constructor parameter together with the value the user gave for it, as text.
#[derive(Debug, PartialEq, Eq)]
pub struct AssignedVariable {
    pub variable_declaration: VariableDeclaration,
    pub variable_value: String,
}

/// A decoded constructor argument, ready to be encoded for the chain.
#[derive(Debug, PartialEq, Eq)]
pub enum ConstructorValue {
    /// The 20 bytes of an address.
    Address(Vec<u8>),
    Bool(bool),
    String(String),
    FixedBytes(Vec<u8>),
    Uint(u64),
}

/// View of an [`AssignedVariable`].
pub struct AssignedModel {
    pub declaration: VariableModel,
    pub value: Seq<char>,
}

/// View of a [`ConstructorValue`].
pub enum ValueModel {
    Address(Seq<u8>),
    Bool(bool),
    String(Seq<char>),
    FixedBytes(Seq<u8>),
    Uint(u64),
}

impl View for AssignedVariable {
    type V = AssignedModel;

    open spec fn view(&self) -> AssignedModel {
        AssignedModel { declaration: self.variable_declaration@, value: self.variable_value@ }
    }
}

pub open spec fn assigned_models(vs: Seq<AssignedVariable>) -> Seq<AssignedModel> {
    vs.map_values(|v: AssignedVariable| v@)
}

impl View for ConstructorValue {
    type V = ValueModel;

    open spec fn view(&self) -> ValueModel {
        match self {
            ConstructorValue::Address(b) => ValueModel::Address(b@),
            ConstructorValue::Bool(b) => ValueModel::Bool(*b),
            ConstructorValue::String(s) => ValueModel::String(s@),
            ConstructorValue::FixedBytes(b) => ValueModel::FixedBytes(b@),
            ConstructorValue::Uint(n) => ValueModel::Uint(*n),
        }
    }
}

pub open spec fn value_models(vs: Seq<ConstructorValue>) -> Seq<ValueModel> {
    vs.map_values(|v: ConstructorValue| v@)
}

/// What `web3::types::H160::from_str` gives for the text `s`: the 20 bytes
/// it decodes, or `None` when it reports an error.
pub uninterp spec fn h160_from_str(s: Seq<char>) -> Option<Seq<u8>>;

/// Decodes an address with `web3::types::H160::from_str` (fixed-hash's
/// `FromStr`, which strips a leading `0x` and decodes exactly 40 hex digits
/// with rustc-hex, skipping spaces, tabs, carriage returns and line feeds
/// between them). Claims that the result is [`h160_from_str`] of the text and
/// that a decoded address has 20 bytes, as the hash type it fills has; which
/// texts decode, and to which bytes, is left to the name.
#[verifier::external_body]
fn parse_address(s: &str) -> (r: Option<Vec<u8>>)
    ensures
        h160_from_str(s@) == (match r {
            Some(b) => Some(b@),
            None => None::<Seq<u8>>,
        }),
        r matches Some(b) ==> b@.len() == 20,
{
    match web3::types::H160::from_str(s) {
        Ok(h) => Some(h.as_bytes().to_vec()),
        Err(_) => None,
    }
}

/// The value of `"true"` and `"false"`, as `bool`'s `FromStr` reads them.
pub open spec fn bool_of(s: Seq<char>) -> Option<bool> {
    if s == "true"@ {
        Some(true)
    } else if s == "false"@ {
        Some(false)
    } else {
        None
    }
}

pub open spec fn is_digit(c: char) -> bool {
    '0' <= c <= '9'
}

/// The number that a sequence of decimal digits writes.
pub open spec fn digits_value(d: Seq<char>) -> nat
    decreases d.len(),
{
    if d.len() == 0 {
        0
    } else {
        digits_value(d.drop_last()) * 10 + ((d.last() as nat) - ('0' as nat)) as nat
    }
}

/// The digits of a decimal text, after an optional leading `+`.
pub open spec fn unsigned_digits(s: Seq<char>) -> Seq<char> {
    if s.len() > 0 && s[0] == '+' {
        s.drop_first()
    } else {
        s
    }
}

/// The value of a decimal text as `u64`'s `FromStr` reads it: an optional
/// `+`, then at least one decimal digit and nothing else, for a number that
/// fits in a `u64`.
pub open spec fn u64_of(s: Seq<char>) -> Option<u64> {
    let d = unsigned_digits(s);
    if d.len() > 0 && (forall|i: int| 0 <= i < d.len() ==> is_digit(#[trigger] d[i])) && digits_value(d)
        <= u64::MAX {
        Some(digits_value(d) as u64)
    } else {
        None
    }
}

/// The error for a value that does not read as its type.
pub open spec fn conversion_error(value: Seq<char>, typ: Seq<char>) -> Seq<char> {
    "Cannot convert value "@ + value + " for type "@ + typ
}

/// The error for a type that has no decoding.
pub open spec fn no_match_message() -> Seq<char> {
    "There is no match for this value"@
}

pub open spec fn is_fixed_bytes_type(typ: Seq<char>) -> bool {
    typ == "bytes8"@ || typ == "bytes32"@ || typ == "bytes64"@ || typ == "bytes1024"@
}

/// The decoding of the text `value` for a parameter of Solidity type `typ`.
pub open spec fn value_of(typ: Seq<char>, value: Seq<char>) -> Result<ValueModel, Seq<char>> {
    if typ == "address"@ {
        match h160_from_str(value) {
            Some(b) => Ok(ValueModel::Address(b)),
            None => Err(conversion_error(value, typ)),
        }
    } else if typ == "bool"@ {
        match bool_of(value) {
            Some(b) => Ok(ValueModel::Bool(b)),
            None => Err(conversion_error(value, typ)),
        }
    } else if typ == "string"@ {
        Ok(ValueModel::String(value))
    } else if is_fixed_bytes_type(typ) {
        Ok(ValueModel::FixedBytes(encode_utf8(value)))
    } else if typ == "uint256"@ {
        match u64_of(value) {
            Some(n) => Ok(ValueModel::Uint(n)),
            None => Err(conversion_error(value, typ)),
        }
    } else {
        Err(no_match_message())
    }
}

/// The decodings of all the assigned values, or the first error.
pub open spec fn values_of(vs: Seq<AssignedModel>) -> Result<Seq<ValueModel>, Seq<char>>
    decreases vs.len(),
{
    if vs.len() == 0 {
        Ok(Seq::empty())
    } else {
        match value_of(vs[0].declaration.typ, vs[0].value) {
            Err(e) => Err(e),
            Ok(v) => match values_of(vs.drop_first()) {
                Ok(rest) => Ok(seq![v] + rest),
                Err(e) => Err(e),
            },
        }
    }
}

/// `done` prepended to the decodings of `r`.
pub open spec fn prepend_values(done: Seq<ValueModel>, r: Result<Seq<ValueModel>, Seq<char>>) -> Result<
    Seq<ValueModel>,
    Seq<char>,
> {
    match r {
        Ok(rest) => Ok(done + rest),
        Err(e) => Err(e),
    }
}

/// The parameters of the last constructor among `fs`, or none.
pub open spec fn constructor_inputs(fs: Seq<FunctionModel>) -> Seq<VariableModel>
    decreases fs.len(),
{
    if fs.len() == 0 {
        Seq::empty()
    } else if is_constructor(fs.last().signature.kind) {
        fs.last().signature.ins
    } else {
        constructor_inputs(fs.drop_last())
    }
}

/// A digit prefix writes a number no greater than the whole.
pub proof fn lemma_digits_prefix(d: Seq<char>, j: int)
    requires
        0 <= j <= d.len(),
        forall|i: int| 0 <= i < d.len() ==> is_digit(#[trigger] d[i]),
    ensures
        digits_value(d.take(j)) <= digits_value(d),
    decreases d.len(),
{
    if j < d.len() {
        let p = d.drop_last();
        assert forall|i: int| 0 <= i < p.len() implies is_digit(#[trigger] p[i]) by {
            assert(p[i] == d[i]);
        }
        lemma_digits_prefix(p, j);
        assert(p.take(j) =~= d.take(j));
    } else {
        assert(d.take(j) =~= d);
    }
}

/// Decoded values before index `i` carry into the decoding of the whole list.
pub proof fn lemma_values_prefix(vs: Seq<AssignedModel>, i: int, done: Seq<ValueModel>)
    requires
        0 <= i <= vs.len(),
        done.len() == i,
        forall|j: int| 0 <= j < i ==> value_of(vs[j].declaration.typ, vs[j].value) == Ok::<ValueModel, Seq<char>>(#[trigger] done[j]),
    ensures
        values_of(vs) == prepend_values(done, values_of(vs.subrange(i, vs.len() as int))),
    decreases i,
{
    if i == 0 {
        assert(vs.subrange(0, vs.len() as int) =~= vs);
        match values_of(vs) {
            Ok(rest) => { assert(done + rest =~= rest); },
            Err(_) => {},
        }
    } else {
        let rest = vs.drop_first();
        let tail = done.drop_first();
        assert forall|j: int| 0 <= j < i - 1 implies value_of(rest[j].declaration.typ, rest[j].value) == Ok::<ValueModel, Seq<char>>(#[trigger] tail[j]) by {
            assert(rest[j] == vs[j + 1]);
            assert(tail[j] == done[j + 1]);
        }
        lemma_values_prefix(rest, i - 1, tail);
        assert(rest.subrange(i - 1, rest.len() as int) =~= vs.subrange(i, vs.len() as int));
        assert(value_of(vs[0].declaration.typ, vs[0].value) == Ok::<ValueModel, Seq<char>>(done[0]));
        match values_of(vs.subrange(i, vs.len() as int)) {
            Ok(r) => { assert(seq![done[0]] + (tail + r) =~= done + r); },
            Err(_) => {},
        }
    }
}

/// Reads `"true"` and `"false"`.
fn parse_bool(s: &str) -> (r: Option<bool>)
    ensures
        r == bool_of(s@),
{
    if text_is(s, "true") {
        Some(true)
    } else if text_is(s, "false") {
        Some(false)
    } else {
        None
    }
}

/// Reads a decimal `u64`, as `u64`'s `FromStr` does.
pub fn parse_u64(s: &str) -> (r: Option<u64>)
    ensures
        r == u64_of(s@),
{
    let cs = chars_of(s);
    let mut start: usize = 0;
    if cs.len() > 0 && cs[0] == '+' {
        start = 1;
    }
    let ghost d = unsigned_digits(s@);
    assert(d =~= cs@.subrange(start as int, cs@.len() as int));
    if start >= cs.len() {
        return None;
    }
    let mut acc: u64 = 0;
    let mut i = start;
    while i < cs.len()
        invariant
            cs@ == s@,
            d == unsigned_digits(s@),
            d == cs@.subrange(start as int, cs@.len() as int),
            start <= i <= cs@.len(),
            forall|k: int| 0 <= k < i - start ==> is_digit(#[trigger] d[k]),
            acc as nat == digits_value(d.take(i - start)),
        decreases cs@.len() - i,
    {
        let c = cs[i];
        if !('0' <= c && c <= '9') {
            assert(!is_digit(d[i - start]));
            return None;
        }
        let digit = (c as u32 - '0' as u32) as u64;
        assert(d.take(i - start + 1).drop_last() =~= d.take(i - start));
        assert(d.take(i - start + 1).last() == c);
        let next = match acc.checked_mul(10) {
            Some(m) => m.checked_add(digit),
            None => None,
        };
        match next {
            Some(n) => {
                acc = n;
            },
            None => {
                proof {
                    assert(digits_value(d.take(i - start + 1)) > u64::MAX);
                    if forall|k: int| 0 <= k < d.len() ==> is_digit(#[trigger] d[k]) {
                        lemma_digits_prefix(d, i - start + 1);
                    }
                }
                return None;
            },
        }
        i = i + 1;
    }
    assert(d.take(i - start) =~= d);
    Some(acc)
}

/// Decodes the value given for a constructor parameter by the parameter's
/// Solidity type: an address (through `web3`'s `H160`), a `bool`, a
/// `string`, fixed bytes (the value's UTF-8 bytes) or a `uint256` (read as a
/// `u64`); another type, or a value that does not read as its type, is an
/// error.
pub fn get_value(assigned_variable: &AssignedVariable) -> (r: Result<ConstructorValue, String>)
    ensures
        match r {
            Ok(v) => value_of(assigned_variable@.declaration.typ, assigned_variable@.value) == Ok::<
                ValueModel,
                Seq<char>,
            >(v@),
            Err(e) => value_of(assigned_variable@.declaration.typ, assigned_variable@.value) == Err::<
                ValueModel,
                Seq<char>,
            >(e@),
        },
        r matches Ok(ConstructorValue::Address(b)) ==> b@.len() == 20,
{
    let typ = assigned_variable.variable_declaration.typ.as_str();
    let value = assigned_variable.variable_value.as_str();
    if text_is(typ, "address") {
        match parse_address(value) {
            Some(b) => Ok(ConstructorValue::Address(b)),
            None => Err(conversion_error_text(value, typ)),
        }
    } else if text_is(typ, "bool") {
        match parse_bool(value) {
            Some(b) => Ok(ConstructorValue::Bool(b)),
            None => Err(conversion_error_text(value, typ)),
        }
    } else if text_is(typ, "string") {
        Ok(ConstructorValue::String(value.to_owned()))
    } else if text_is(typ, "bytes8") || text_is(typ, "bytes32") || text_is(typ, "bytes64")
        || text_is(typ, "bytes1024") {
        let mut bytes: Vec<u8> = Vec::new();
        push_text(&mut bytes, value);
        assert(bytes@ =~= encode_utf8(value@));
        Ok(ConstructorValue::FixedBytes(bytes))
    } else if text_is(typ, "uint256") {
        match parse_u64(value) {
            Some(n) => Ok(ConstructorValue::Uint(n)),
            None => Err(conversion_error_text(value, typ)),
        }
    } else {
        Err("There is no match for this value".to_owned())
    }
}

/// The error for a value that does not read as its type.
fn conversion_error_text(value: &str, typ: &str) -> (r: String)
    ensures
        r@ == conversion_error(value@, typ@),
{
    let mut r = "Cannot convert value ".to_owned();
    r.append(value);
    r.append(" for type ");
    r.append(typ);
    r
}

/// Decodes every assigned value in order, stopping at the first error.
pub fn config_contructor_parameters(assigned_variables: &Vec<AssignedVariable>) -> (r: Result<
    Vec<ConstructorValue>,
    String,
>)
    ensures
        match r {
            Ok(vs) => values_of(assigned_models(assigned_variables@)) == Ok::<
                Seq<ValueModel>,
                Seq<char>,
            >(value_models(vs@)),
            Err(e) => values_of(assigned_models(assigned_variables@)) == Err::<
                Seq<ValueModel>,
                Seq<char>,
            >(e@),
        },
        r matches Ok(vs) ==> forall|j: int|
            0 <= j < vs@.len() ==> ((#[trigger] vs@[j]) matches ConstructorValue::Address(b) ==> b@.len() == 20),
{
    let ghost models = assigned_models(assigned_variables@);
    let mut list_token: Vec<ConstructorValue> = Vec::new();
    let mut i: usize = 0;
    while i < assigned_variables.len()
        invariant
            i <= assigned_variables@.len(),
            models == assigned_models(assigned_variables@),
            list_token@.len() == i,
            forall|j: int|
                0 <= j < i ==> ((#[trigger] list_token@[j]) matches ConstructorValue::Address(b) ==> b@.len() == 20),
            forall|j: int|
                0 <= j < i ==> value_of(models[j].declaration.typ, models[j].value) == Ok::<
                    ValueModel,
                    Seq<char>,
                >(#[trigger] value_models(list_token@)[j]),
        decreases assigned_variables@.len() - i,
    {
        let ghost done = value_models(list_token@);
        proof {
            lemma_values_prefix(models, i as int, done);
        }
        let ghost rest = models.subrange(i as int, models.len() as int);
        assert(rest[0] == models[i as int]);
        assert(rest.drop_first() =~= models.subrange(i + 1, models.len() as int));
        match get_value(&assigned_variables[i]) {
            Ok(v) => {
                list_token.push(v);
                assert(value_models(list_token@) =~= done.push(v@));
            },
            Err(e) => {
                return Err(e);
            },
        }
        i = i + 1;
    }
    proof {
        lemma_values_prefix(models, i as int, value_models(list_token@));
        assert(models.subrange(i as int, models.len() as int).len() == 0);
        assert(value_models(list_token@) + Seq::<ValueModel>::empty() =~= value_models(list_token@));
    }
    Ok(list_token)
}

/// The parameters of the last constructor that `imp` itself declares, or an
/// empty list when it declares none.
pub fn get_number_argument_constructor(imp: &Implementation) -> (r: Result<Vec<VariableDeclaration>, ()>)
    ensures
        r matches Ok(vs) && variable_models(vs@) == constructor_inputs(function_models(imp.functions@)),
{
    let ghost fns = function_models(imp.functions@);
    let mut contructor_variables: Vec<VariableDeclaration> = Vec::new();
    let mut i: usize = 0;
    assert(variable_models(contructor_variables@) =~= constructor_inputs(fns.take(0)));
    while i < imp.functions.len()
        invariant
            i <= imp.functions@.len(),
            fns == function_models(imp.functions@),
            variable_models(contructor_variables@) == constructor_inputs(fns.take(i as int)),
        decreases imp.functions@.len() - i,
    {
        assert(fns.take(i + 1).drop_last() =~= fns.take(i as int));
        assert(fns.take(i + 1).last() == imp.functions@[i as int]@);
        let kind = imp.functions[i].signature.kind.as_str();
        if text_is(kind, "constructor") {
            contructor_variables = duplicate_variables(&imp.functions[i].signature.ins);
        }
        i = i + 1;
    }
    assert(fns.take(i as int) =~= fns);
    Ok(contructor_variables)
}

/// The parameters of the constructor of `imp`, each with an empty value,
/// for the user to fill in.
pub fn unassigned_constructor_arguments(imp: &Implementation) -> (r: Vec<AssignedVariable>)
    ensures
        r@.len() == constructor_inputs(function_models(imp.functions@)).len(),
        forall|j: int|
            0 <= j < r@.len() ==> (#[trigger] r@[j])@ == (AssignedModel {
                declaration: constructor_inputs(function_models(imp.functions@))[j],
                value: Seq::empty(),
            }),
{
    let constructor_arguments = get_number_argument_constructor(imp).unwrap();
    let ghost ins = constructor_inputs(function_models(imp.functions@));
    let mut parameters_and_values: Vec<AssignedVariable> = Vec::new();
    let mut i: usize = 0;
    while i < constructor_arguments.len()
        invariant
            i <= constructor_arguments@.len(),
            variable_models(constructor_arguments@) == ins,
            parameters_and_values@.len() == i,
            forall|j: int|
                0 <= j < i ==> (#[trigger] parameters_and_values@[j])@ == (AssignedModel {
                    declaration: ins[j],
                    value: Seq::empty(),
                }),
        decreases constructor_arguments@.len() - i,
    {
        let variable_value = AssignedVariable {
            variable_declaration: constructor_arguments[i].duplicate(),
            variable_value: String::new(),
        };
        parameters_and_values.push(variable_value);
        i = i + 1;
    }
    parameters_and_values
}

} // verus!
