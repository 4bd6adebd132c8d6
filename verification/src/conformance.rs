//! Syntactic conformance of an implementation contract to a specification
//! contract, and the walks over an implementation's inheritance tree that it
//! rests on.
use vstd::prelude::*;

use crate::model::{
    all_functions, all_named_functions, all_variables, chain_has_function, chain_has_variable,
    function_models, inherited_functions, inherited_named_functions, inherited_variables,
    named_function_models, own_named_functions, spec_models, append_functions, append_variables,
    variable_models, FunctionImplementation, FunctionImplementationContractName, FunctionModel,
    FunctionSignature, FunctionSpecModel, FunctionSpecification, Implementation, SignatureModel,
    SourceLocation, Specification, VariableDeclaration, VariableModel,
};

verus! {

/// The error when a state variable of the specification has no counterpart.
pub open spec fn incompatible_variables_message() -> Seq<char> {
    "Incompatible variables between the specification and implementation contracts"@
}

/// The error when a function of either contract has no counterpart.
pub open spec fn incompatible_functions_message() -> Seq<char> {
    "Incompatible functions between the specification and implementation contracts"@
}

/// The error when an upgraded implementation declares a constructor.
pub open spec fn constructor_in_upgrade_message() -> Seq<char> {
    "The contract's implementation cannot have constructor"@
}

/// The error when an implemented function has no specification of that name.
pub open spec fn missing_function_message() -> Seq<char> {
    "Missing Function"@
}

/// Whether a function kind is that of a constructor.
pub open spec fn is_constructor(kind: Seq<char>) -> bool {
    kind == "constructor"@
}

/// The first function specification in `fs` whose name is `name`.
pub open spec fn find_spec(name: Seq<char>, fs: Seq<FunctionSpecModel>) -> Option<FunctionSpecModel>
    decreases fs.len(),
{
    if fs.len() == 0 {
        None
    } else if fs[0].signature.name == name {
        Some(fs[0])
    } else {
        find_spec(name, fs.drop_first())
    }
}

/// The first error in a sequence of outcomes, or `Ok` when there is none.
pub open spec fn first_error(rs: Seq<Result<(), Seq<char>>>) -> Result<(), Seq<char>>
    decreases rs.len(),
{
    if rs.len() == 0 {
        Ok(())
    } else if rs[0] is Err {
        rs[0]
    } else {
        first_error(rs.drop_first())
    }
}

/// A state variable of the specification must be declared along the
/// implementation's chain of first inherited contracts.
pub open spec fn variable_check(imp: Implementation, v: VariableModel) -> Result<(), Seq<char>> {
    if chain_has_variable(imp, v) {
        Ok(())
    } else {
        Err(incompatible_variables_message())
    }
}

/// A function of the specification must be declared, with the same
/// signature, along the implementation's chain of first inherited contracts;
/// on an upgrade (`evolution`) the specification's constructors are exempt.
pub open spec fn signature_check(imp: Implementation, f: FunctionSpecModel, evolution: bool) -> Result<
    (),
    Seq<char>,
> {
    if evolution && is_constructor(f.signature.kind) {
        Ok(())
    } else if chain_has_function(imp, f.signature) {
        Ok(())
    } else {
        Err(incompatible_functions_message())
    }
}

/// A function of the implementation's inheritance tree must not be a
/// constructor on an upgrade, and the first specification function of the
/// same name must have the same signature.
pub open spec fn implementation_check(
    spec_functions: Seq<FunctionSpecModel>,
    f: FunctionModel,
    evolution: bool,
) -> Result<(), Seq<char>> {
    if evolution && is_constructor(f.signature.kind) {
        Err(constructor_in_upgrade_message())
    } else {
        match find_spec(f.signature.name, spec_functions) {
            None => Err(missing_function_message()),
            Some(s) => if s.signature == f.signature {
                Ok(())
            } else {
                Err(incompatible_functions_message())
            },
        }
    }
}

pub open spec fn variable_checks(spec: Specification, imp: Implementation) -> Seq<Result<(), Seq<char>>> {
    variable_models(spec.variables@).map_values(|v: VariableModel| variable_check(imp, v))
}

pub open spec fn signature_checks(spec: Specification, imp: Implementation, evolution: bool) -> Seq<
    Result<(), Seq<char>>,
> {
    spec_models(spec.functions@).map_values(
        |f: FunctionSpecModel| signature_check(imp, f, evolution),
    )
}

pub open spec fn implementation_checks(spec: Specification, imp: Implementation, evolution: bool) -> Seq<
    Result<(), Seq<char>>,
> {
    all_functions(imp).map_values(
        |f: FunctionModel| implementation_check(spec_models(spec.functions@), f, evolution),
    )
}

/// The outcome of the syntactic conformance check: the checks of the
/// specification's variables, then of its functions, then of every function
/// of the implementation's inheritance tree, each in order; the first that
/// fails gives the error.
pub open spec fn conformance(spec: Specification, imp: Implementation, evolution: bool) -> Result<
    (),
    Seq<char>,
> {
    first_error(
        variable_checks(spec, imp) + signature_checks(spec, imp, evolution) + implementation_checks(
            spec,
            imp,
            evolution,
        ),
    )
}

/// Outcomes before index `i` that are all `Ok` do not decide the first error.
pub proof fn lemma_first_error_skip(rs: Seq<Result<(), Seq<char>>>, i: int)
    requires
        0 <= i <= rs.len(),
        forall|j: int| 0 <= j < i ==> (#[trigger] rs[j]) is Ok,
    ensures
        first_error(rs) == first_error(rs.subrange(i, rs.len() as int)),
    decreases i,
{
    if i > 0 {
        assert(rs[0] is Ok);
        let rest = rs.drop_first();
        assert forall|j: int| 0 <= j < i - 1 implies (#[trigger] rest[j]) is Ok by {
            assert(rest[j] == rs[j + 1]);
        }
        lemma_first_error_skip(rest, i - 1);
        assert(rest.subrange(i - 1, rest.len() as int) =~= rs.subrange(i, rs.len() as int));
    } else {
        assert(rs.subrange(0, rs.len() as int) =~= rs);
    }
}

/// The first error of a concatenation is that of the first part, if it has one.
pub proof fn lemma_first_error_concat(a: Seq<Result<(), Seq<char>>>, b: Seq<Result<(), Seq<char>>>)
    ensures
        first_error(a + b) == (if first_error(a) is Err {
            first_error(a)
        } else {
            first_error(b)
        }),
    decreases a.len(),
{
    if a.len() == 0 {
        assert(a + b =~= b);
    } else {
        assert((a + b).drop_first() =~= a.drop_first() + b);
        lemma_first_error_concat(a.drop_first(), b);
    }
}

/// The outcome at index `i` is the first error when all before it are `Ok`.
pub proof fn lemma_first_error_at(rs: Seq<Result<(), Seq<char>>>, i: int)
    requires
        0 <= i < rs.len(),
        forall|j: int| 0 <= j < i ==> (#[trigger] rs[j]) is Ok,
        rs[i] is Err,
    ensures
        first_error(rs) == rs[i],
{
    lemma_first_error_skip(rs, i);
    assert(rs.subrange(i, rs.len() as int)[0] == rs[i]);
}

/// No error among all outcomes means the first error is `Ok`.
pub proof fn lemma_first_error_none(rs: Seq<Result<(), Seq<char>>>)
    requires
        forall|j: int| 0 <= j < rs.len() ==> (#[trigger] rs[j]) is Ok,
    ensures
        first_error(rs) == Ok::<(), Seq<char>>(()),
{
    lemma_first_error_skip(rs, rs.len() as int);
    assert(rs.subrange(rs.len() as int, rs.len() as int) =~= Seq::<Result<(), Seq<char>>>::empty());
}

/// Entries before index `i` whose names differ from `name` do not decide the search.
pub proof fn lemma_find_spec_skip(name: Seq<char>, fs: Seq<FunctionSpecModel>, i: int)
    requires
        0 <= i <= fs.len(),
        forall|j: int| 0 <= j < i ==> (#[trigger] fs[j]).signature.name != name,
    ensures
        find_spec(name, fs) == find_spec(name, fs.subrange(i, fs.len() as int)),
    decreases i,
{
    if i > 0 {
        let rest = fs.drop_first();
        assert forall|j: int| 0 <= j < i - 1 implies (#[trigger] rest[j]).signature.name != name by {
            assert(rest[j] == fs[j + 1]);
        }
        lemma_find_spec_skip(name, rest, i - 1);
        assert(rest.subrange(i - 1, rest.len() as int) =~= fs.subrange(i, fs.len() as int));
    } else {
        assert(fs.subrange(0, fs.len() as int) =~= fs);
    }
}

/// What [`find_spec`] finds has the name searched for and is an element of the list.
pub proof fn lemma_find_spec_found(name: Seq<char>, fs: Seq<FunctionSpecModel>)
    ensures
        find_spec(name, fs) matches Some(s) ==> s.signature.name == name && fs.contains(s),
        find_spec(name, fs) is None <==> forall|j: int| 0 <= j < fs.len() ==> (#[trigger] fs[j]).signature.name != name,
    decreases fs.len(),
{
    if fs.len() > 0 {
        lemma_find_spec_found(name, fs.drop_first());
        if let Some(s) = find_spec(name, fs.drop_first()) {
            assert(fs.drop_first().contains(s));
            let k = choose|k: int| 0 <= k < fs.drop_first().len() && fs.drop_first()[k] == s;
            assert(fs[k + 1] == s);
        }
        if fs[0].signature.name != name && find_spec(name, fs.drop_first()) is None {
            assert forall|j: int| 0 <= j < fs.len() implies (#[trigger] fs[j]).signature.name != name by {
                if j > 0 {
                    assert(fs[j] == fs.drop_first()[j - 1]);
                }
            }
        }
        if fs[0].signature.name == name {
            assert(fs[0] == fs[0]);
        }
    }
}

/// The conformance outcome is decided by the variable checks, then by the
/// signature checks, then by the implementation checks.
pub proof fn lemma_conformance_parts(spec: Specification, imp: Implementation, evolution: bool)
    ensures
        conformance(spec, imp, evolution) == (if first_error(variable_checks(spec, imp)) is Err {
            first_error(variable_checks(spec, imp))
        } else if first_error(signature_checks(spec, imp, evolution)) is Err {
            first_error(signature_checks(spec, imp, evolution))
        } else {
            first_error(implementation_checks(spec, imp, evolution))
        }),
{
    let vc = variable_checks(spec, imp);
    let sc = signature_checks(spec, imp, evolution);
    let ic = implementation_checks(spec, imp, evolution);
    lemma_first_error_concat(vc + sc, ic);
    lemma_first_error_concat(vc, sc);
}

/// Whether a function kind names a constructor.
fn is_constructor_kind(kind: &String) -> (r: bool)
    ensures
        r == is_constructor(kind@),
{
    let constructor = "constructor".to_owned();
    *kind == constructor
}

/// Appends the functions of `imp` and of every contract it inherits from to
/// `func`, in the order of a depth-first walk.
pub fn get_function_implementation(imp: &Implementation, func: &mut Vec<FunctionImplementation>)
    ensures
        function_models(final(func)@) == function_models(old(func)@) + all_functions(*imp),
    decreases imp,
{
    append_functions(func, &imp.functions);
    let mut i: usize = 0;
    while i < imp.contracts_inherited.len()
        invariant
            i <= imp.contracts_inherited@.len(),
            function_models(func@) == function_models(old(func)@) + function_models(
                imp.functions@,
            ) + inherited_functions(*imp, i as nat),
        decreases imp.contracts_inherited@.len() - i,
    {
        get_function_implementation(&imp.contracts_inherited[i], func);
        assert(inherited_functions(*imp, (i + 1) as nat) == inherited_functions(*imp, i as nat)
            + all_functions(imp.contracts_inherited@[i as int]));
        i = i + 1;
    }
    assert(function_models(func@) =~= function_models(old(func)@) + all_functions(*imp));
}

/// Appends the state variables of `imp` and of every contract it inherits
/// from to `variables`, in the order of a depth-first walk.
pub fn get_variables_implementation(imp: &Implementation, variables: &mut Vec<VariableDeclaration>)
    ensures
        variable_models(final(variables)@) == variable_models(old(variables)@) + all_variables(
            *imp,
        ),
    decreases imp,
{
    append_variables(variables, &imp.variables);
    let mut i: usize = 0;
    while i < imp.contracts_inherited.len()
        invariant
            i <= imp.contracts_inherited@.len(),
            variable_models(variables@) == variable_models(old(variables)@) + variable_models(
                imp.variables@,
            ) + inherited_variables(*imp, i as nat),
        decreases imp.contracts_inherited@.len() - i,
    {
        get_variables_implementation(&imp.contracts_inherited[i], variables);
        assert(inherited_variables(*imp, (i + 1) as nat) == inherited_variables(*imp, i as nat)
            + all_variables(imp.contracts_inherited@[i as int]));
        i = i + 1;
    }
    assert(variable_models(variables@) =~= variable_models(old(variables)@) + all_variables(*imp));
}

/// Appends every function of the inheritance tree of `imp`, paired with the
/// name of the contract that declares it, to `func`.
pub fn get_function_implementation_contract(
    imp: &Implementation,
    func: &mut Vec<FunctionImplementationContractName>,
)
    ensures
        named_function_models(final(func)@) == named_function_models(old(func)@)
            + all_named_functions(*imp),
    decreases imp,
{
    let ghost start = func@.len();
    let mut i: usize = 0;
    while i < imp.functions.len()
        invariant
            i <= imp.functions@.len(),
            start == old(func)@.len(),
            func@.len() == start + i,
            forall|j: int| 0 <= j < start ==> func@[j] == old(func)@[j],
            forall|j: int|
                0 <= j < i ==> (#[trigger] func@[start + j])@ == own_named_functions(*imp)[j],
        decreases imp.functions@.len() - i,
    {
        let imp_contr = FunctionImplementationContractName {
            contract_name: imp.contract_name.clone(),
            function: imp.functions[i].duplicate(),
        };
        func.push(imp_contr);
        i = i + 1;
    }
    assert(named_function_models(func@) =~= named_function_models(old(func)@)
        + own_named_functions(*imp)) by {
        assert forall|j: int| start <= j < func@.len() implies func@[j]@ == own_named_functions(
            *imp,
        )[j - start] by {
            assert(func@[start + (j - start)]@ == own_named_functions(*imp)[j - start]);
        }
    }
    let mut k: usize = 0;
    while k < imp.contracts_inherited.len()
        invariant
            k <= imp.contracts_inherited@.len(),
            named_function_models(func@) == named_function_models(old(func)@)
                + own_named_functions(*imp) + inherited_named_functions(*imp, k as nat),
        decreases imp.contracts_inherited@.len() - k,
    {
        get_function_implementation_contract(&imp.contracts_inherited[k], func);
        assert(inherited_named_functions(*imp, (k + 1) as nat) == inherited_named_functions(
            *imp,
            k as nat,
        ) + all_named_functions(imp.contracts_inherited@[k as int]));
        k = k + 1;
    }
    assert(named_function_models(func@) =~= named_function_models(old(func)@)
        + all_named_functions(*imp));
}

/// Whether a function with the signature `funcion_sig` is declared along the
/// chain of first inherited contracts of `imp`.
fn search_function_implementation(imp: &Implementation, funcion_sig: &FunctionSignature) -> (r:
    Result<bool, String>)
    ensures
        r == Ok::<bool, String>(chain_has_function(*imp, funcion_sig@)),
    decreases imp,
{
    let mut i: usize = 0;
    while i < imp.functions.len()
        invariant
            i <= imp.functions@.len(),
            forall|j: int| 0 <= j < i ==> (#[trigger] imp.functions@[j])@.signature != funcion_sig@,
        decreases imp.functions@.len() - i,
    {
        if imp.functions[i].signature.same_as(funcion_sig) {
            assert((imp.functions@[i as int])@.signature == funcion_sig@);
            return Ok(true);
        }
        i = i + 1;
    }
    if imp.contracts_inherited.len() > 0 {
        return search_function_implementation(&imp.contracts_inherited[0], funcion_sig);
    }
    Ok(false)
}

/// Whether the variable `variable_decla` is declared along the chain of first
/// inherited contracts of `imp`.
fn search_variables_declaration(imp: &Implementation, variable_decla: &VariableDeclaration) -> (r:
    Result<bool, String>)
    ensures
        r == Ok::<bool, String>(chain_has_variable(*imp, variable_decla@)),
    decreases imp,
{
    let mut i: usize = 0;
    while i < imp.variables.len()
        invariant
            i <= imp.variables@.len(),
            forall|j: int| 0 <= j < i ==> (#[trigger] imp.variables@[j])@ != variable_decla@,
        decreases imp.variables@.len() - i,
    {
        if imp.variables[i].same_as(variable_decla) {
            assert((imp.variables@[i as int])@ == variable_decla@);
            return Ok(true);
        }
        i = i + 1;
    }
    if imp.contracts_inherited.len() > 0 {
        return search_variables_declaration(&imp.contracts_inherited[0], variable_decla);
    }
    Ok(false)
}

/// The first function of `spec_functions` with the name of `func_imp`, or
/// the error "Missing Function" when there is none.
pub fn get_func_spec(
    func_imp: &FunctionImplementation,
    spec_functions: &Vec<FunctionSpecification>,
) -> (r: Result<FunctionSpecification, String>)
    ensures
        match r {
            Ok(s) => find_spec(func_imp@.signature.name, spec_models(spec_functions@)) == Some(s@),
            Err(e) => find_spec(func_imp@.signature.name, spec_models(spec_functions@)) is None
                && e@ == missing_function_message(),
        },
{
    let ghost name = func_imp@.signature.name;
    let ghost models = spec_models(spec_functions@);
    let mut i: usize = 0;
    while i < spec_functions.len()
        invariant
            i <= spec_functions@.len(),
            name == func_imp@.signature.name,
            models == spec_models(spec_functions@),
            forall|j: int| 0 <= j < i ==> (#[trigger] models[j]).signature.name != name,
        decreases spec_functions@.len() - i,
    {
        if spec_functions[i].signature.name == func_imp.signature.name {
            proof {
                lemma_find_spec_skip(name, models, i as int);
                assert(models.subrange(i as int, models.len() as int)[0] == models[i as int]);
            }
            return Ok(spec_functions[i].duplicate());
        }
        i = i + 1;
    }
    proof {
        lemma_find_spec_skip(name, models, i as int);
        assert(models.subrange(i as int, models.len() as int).len() == 0);
    }
    Err("Missing Function".to_owned())
}

/// Checks that the implementation `imp` conforms syntactically to the
/// specification `spec`: every state variable and every function of the
/// specification is declared by the implementation, and every function of
/// the implementation's inheritance tree has a specification of the same
/// name and signature. On an upgrade (`evolution`) the specification's
/// constructors are not required and the implementation may declare none.
pub fn check_synctatic_conformance(spec: &Specification, imp: &Implementation, evolution: bool) -> (r:
    Result<(), String>)
    ensures
        match r {
            Ok(()) => conformance(*spec, *imp, evolution) is Ok,
            Err(e) => conformance(*spec, *imp, evolution) == Err::<(), Seq<char>>(e@),
        },
{
    let ghost vc = variable_checks(*spec, *imp);
    let ghost sc = signature_checks(*spec, *imp, evolution);
    let ghost ic = implementation_checks(*spec, *imp, evolution);
    proof {
        lemma_conformance_parts(*spec, *imp, evolution);
    }
    let mut i: usize = 0;
    while i < spec.variables.len()
        invariant
            i <= spec.variables@.len(),
            vc == variable_checks(*spec, *imp),
            forall|j: int| 0 <= j < i ==> (#[trigger] vc[j]) is Ok,
        decreases spec.variables@.len() - i,
    {
        assert(vc[i as int] == variable_check(*imp, spec.variables@[i as int]@));
        let compatible_variable = search_variables_declaration(imp, &spec.variables[i]).unwrap();
        if !compatible_variable {
            proof {
                lemma_first_error_at(vc, i as int);
                lemma_conformance_parts(*spec, *imp, evolution);
            }
            return Err(
                "Incompatible variables between the specification and implementation contracts".to_owned(),
            );
        }
        i = i + 1;
    }
    proof {
        lemma_first_error_none(vc);
    }
    let mut i: usize = 0;
    while i < spec.functions.len()
        invariant
            i <= spec.functions@.len(),
            sc == signature_checks(*spec, *imp, evolution),
            vc == variable_checks(*spec, *imp),
            first_error(vc) is Ok,
            forall|j: int| 0 <= j < i ==> (#[trigger] sc[j]) is Ok,
        decreases spec.functions@.len() - i,
    {
        assert(sc[i as int] == signature_check(*imp, spec.functions@[i as int]@, evolution));
        if evolution && is_constructor_kind(&spec.functions[i].signature.kind) {
        } else {
            let compatible_function = search_function_implementation(
                imp,
                &spec.functions[i].signature,
            ).unwrap();
            if !compatible_function {
                proof {
                    lemma_first_error_at(sc, i as int);
                    lemma_conformance_parts(*spec, *imp, evolution);
                }
                return Err(
                    "Incompatible functions between the specification and implementation contracts".to_owned(),
                );
            }
        }
        i = i + 1;
    }
    proof {
        lemma_first_error_none(sc);
    }
    let mut impl_func: Vec<FunctionImplementation> = Vec::new();
    get_function_implementation(imp, &mut impl_func);
    assert(function_models(impl_func@) =~= all_functions(*imp));
    let mut i: usize = 0;
    while i < impl_func.len()
        invariant
            i <= impl_func@.len(),
            function_models(impl_func@) == all_functions(*imp),
            ic == implementation_checks(*spec, *imp, evolution),
            sc == signature_checks(*spec, *imp, evolution),
            vc == variable_checks(*spec, *imp),
            first_error(vc) is Ok,
            first_error(sc) is Ok,
            forall|j: int| 0 <= j < i ==> (#[trigger] ic[j]) is Ok,
        decreases impl_func@.len() - i,
    {
        assert(ic[i as int] == implementation_check(
            spec_models(spec.functions@),
            impl_func@[i as int]@,
            evolution,
        ));
        if evolution && is_constructor_kind(&impl_func[i].signature.kind) {
            proof {
                lemma_first_error_at(ic, i as int);
                lemma_conformance_parts(*spec, *imp, evolution);
            }
            return Err("The contract's implementation cannot have constructor".to_owned());
        }
        let func_spec = match get_func_spec(&impl_func[i], &spec.functions) {
            Ok(s) => s,
            Err(e) => {
                proof {
                    lemma_first_error_at(ic, i as int);
                    lemma_conformance_parts(*spec, *imp, evolution);
                }
                return Err(e);
            },
        };
        if !func_spec.signature.same_as(&impl_func[i].signature) {
            proof {
                lemma_first_error_at(ic, i as int);
                lemma_conformance_parts(*spec, *imp, evolution);
            }
            return Err(
                "Incompatible functions between the specification and implementation contracts".to_owned(),
            );
        }
        i = i + 1;
    }
    proof {
        lemma_first_error_none(ic);
        lemma_conformance_parts(*spec, *imp, evolution);
    }
    Ok(())
}

} // verus!
