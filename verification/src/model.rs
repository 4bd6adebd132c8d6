//! The contract descriptions that the tool works on: what the Solidity
//! compiler's AST says of a specification contract and of an implementation
//! contract (with the contracts it inherits from), and their mathematical views.
use vstd::prelude::*;

verus! {

/// A state variable or a function parameter: its name and its Solidity type.
#[derive(Debug, PartialEq, Eq)]
pub struct VariableDeclaration {
    pub name: String,
    pub typ: String,
}

/// A position in a source file, as a byte offset.
#[derive(Debug, PartialEq, Eq)]
pub struct SourceLocation {
    pub offset: u64,
}

/// The signature of a function: its name, its kind (`function`,
/// `constructor`, ...) and its parameters.
#[derive(Debug, PartialEq, Eq)]
pub struct FunctionSignature {
    pub name: String,
    pub kind: String,
    pub ins: Vec<VariableDeclaration>,
}

/// A function of an implementation contract and where it starts in the source.
#[derive(Debug, PartialEq, Eq)]
pub struct FunctionImplementation {
    pub signature: FunctionSignature,
    pub src: SourceLocation,
}

/// A function of the specification contract with its annotation text.
#[derive(Debug, PartialEq, Eq)]
pub struct FunctionSpecification {
    pub signature: FunctionSignature,
    pub spec: String,
}

/// An implementation contract, with the contracts it inherits from.
#[derive(Debug, PartialEq, Eq)]
pub struct Implementation {
    pub contract_name: String,
    pub contract_definition: SourceLocation,
    pub variables: Vec<VariableDeclaration>,
    pub functions: Vec<FunctionImplementation>,
    pub contracts_inherited: Vec<Implementation>,
}

/// A specification contract: its state variables, its functions with their
/// annotations, and the contract invariant.
#[derive(Debug, PartialEq, Eq)]
pub struct Specification {
    pub variables: Vec<VariableDeclaration>,
    pub functions: Vec<FunctionSpecification>,
    pub invariant: String,
}

/// A function of an implementation together with the name of the contract
/// that declares it.
#[derive(Debug, PartialEq, Eq)]
pub struct FunctionImplementationContractName {
    pub contract_name: String,
    pub function: FunctionImplementation,
}

/// View of a [`VariableDeclaration`].
pub struct VariableModel {
    pub name: Seq<char>,
    pub typ: Seq<char>,
}

/// View of a [`FunctionSignature`].
pub struct SignatureModel {
    pub name: Seq<char>,
    pub kind: Seq<char>,
    pub ins: Seq<VariableModel>,
}

/// View of a [`FunctionImplementation`].
pub struct FunctionModel {
    pub signature: SignatureModel,
    pub offset: u64,
}

/// View of a [`FunctionSpecification`].
pub struct FunctionSpecModel {
    pub signature: SignatureModel,
    pub spec: Seq<char>,
}

/// View of a [`FunctionImplementationContractName`].
pub struct NamedFunctionModel {
    pub contract_name: Seq<char>,
    pub function: FunctionModel,
}

impl View for VariableDeclaration {
    type V = VariableModel;

    open spec fn view(&self) -> VariableModel {
        VariableModel { name: self.name@, typ: self.typ@ }
    }
}

pub open spec fn variable_models(vs: Seq<VariableDeclaration>) -> Seq<VariableModel> {
    vs.map_values(|v: VariableDeclaration| v@)
}

impl View for FunctionSignature {
    type V = SignatureModel;

    open spec fn view(&self) -> SignatureModel {
        SignatureModel { name: self.name@, kind: self.kind@, ins: variable_models(self.ins@) }
    }
}

impl View for FunctionImplementation {
    type V = FunctionModel;

    open spec fn view(&self) -> FunctionModel {
        FunctionModel { signature: self.signature@, offset: self.src.offset }
    }
}

pub open spec fn function_models(fs: Seq<FunctionImplementation>) -> Seq<FunctionModel> {
    fs.map_values(|f: FunctionImplementation| f@)
}

impl View for FunctionSpecification {
    type V = FunctionSpecModel;

    open spec fn view(&self) -> FunctionSpecModel {
        FunctionSpecModel { signature: self.signature@, spec: self.spec@ }
    }
}

pub open spec fn spec_models(fs: Seq<FunctionSpecification>) -> Seq<FunctionSpecModel> {
    fs.map_values(|f: FunctionSpecification| f@)
}

impl View for FunctionImplementationContractName {
    type V = NamedFunctionModel;

    open spec fn view(&self) -> NamedFunctionModel {
        NamedFunctionModel { contract_name: self.contract_name@, function: self.function@ }
    }
}

pub open spec fn named_function_models(fs: Seq<FunctionImplementationContractName>) -> Seq<
    NamedFunctionModel,
> {
    fs.map_values(|f: FunctionImplementationContractName| f@)
}

/// The functions of `imp` and of every contract it inherits from, in the
/// order of a depth-first walk: the contract's own functions first, then
/// those of each inherited contract in turn.
pub open spec fn all_functions(imp: Implementation) -> Seq<FunctionModel>
    decreases imp, 1nat, 0nat,
{
    function_models(imp.functions@) + inherited_functions(imp, imp.contracts_inherited@.len())
}

/// The functions of the first `k` contracts that `imp` inherits from, each
/// with its own ancestors.
pub open spec fn inherited_functions(imp: Implementation, k: nat) -> Seq<FunctionModel>
    decreases imp, 0nat, k,
{
    if k == 0 || k > imp.contracts_inherited@.len() {
        Seq::empty()
    } else {
        inherited_functions(imp, (k - 1) as nat) + all_functions(imp.contracts_inherited@[k - 1])
    }
}

/// The state variables of `imp` and of every contract it inherits from, in
/// the same depth-first order as [`all_functions`].
pub open spec fn all_variables(imp: Implementation) -> Seq<VariableModel>
    decreases imp, 1nat, 0nat,
{
    variable_models(imp.variables@) + inherited_variables(imp, imp.contracts_inherited@.len())
}

/// The state variables of the first `k` contracts that `imp` inherits from.
pub open spec fn inherited_variables(imp: Implementation, k: nat) -> Seq<VariableModel>
    decreases imp, 0nat, k,
{
    if k == 0 || k > imp.contracts_inherited@.len() {
        Seq::empty()
    } else {
        inherited_variables(imp, (k - 1) as nat) + all_variables(imp.contracts_inherited@[k - 1])
    }
}

/// `imp` and every contract it inherits from, in the order of a depth-first
/// walk: the contract first, then each inherited contract's tree in turn.
pub open spec fn all_contracts(imp: Implementation) -> Seq<Implementation>
    decreases imp, 1nat, 0nat,
{
    seq![imp] + inherited_contracts(imp, imp.contracts_inherited@.len())
}

/// The trees of the first `k` contracts that `imp` inherits from.
pub open spec fn inherited_contracts(imp: Implementation, k: nat) -> Seq<Implementation>
    decreases imp, 0nat, k,
{
    if k == 0 || k > imp.contracts_inherited@.len() {
        Seq::empty()
    } else {
        inherited_contracts(imp, (k - 1) as nat) + all_contracts(imp.contracts_inherited@[k - 1])
    }
}

/// Each own function of `imp`, paired with the name of `imp`.
pub open spec fn own_named_functions(imp: Implementation) -> Seq<NamedFunctionModel> {
    imp.functions@.map_values(
        |f: FunctionImplementation| NamedFunctionModel { contract_name: imp.contract_name@, function: f@ },
    )
}

/// Every function of the inheritance tree of `imp`, paired with the name of
/// the contract that declares it, in the order of [`all_functions`].
pub open spec fn all_named_functions(imp: Implementation) -> Seq<NamedFunctionModel>
    decreases imp, 1nat, 0nat,
{
    own_named_functions(imp) + inherited_named_functions(imp, imp.contracts_inherited@.len())
}

/// The named functions of the first `k` contracts that `imp` inherits from.
pub open spec fn inherited_named_functions(imp: Implementation, k: nat) -> Seq<NamedFunctionModel>
    decreases imp, 0nat, k,
{
    if k == 0 || k > imp.contracts_inherited@.len() {
        Seq::empty()
    } else {
        inherited_named_functions(imp, (k - 1) as nat) + all_named_functions(
            imp.contracts_inherited@[k - 1],
        )
    }
}

/// Whether a function with signature `sig` is declared by `imp` or, failing
/// that, along the chain of first inherited contracts: only the first contract
/// that a contract inherits from is searched further.
pub open spec fn chain_has_function(imp: Implementation, sig: SignatureModel) -> bool
    decreases imp,
{
    ||| exists|i: int| 0 <= i < imp.functions@.len() && (#[trigger] imp.functions@[i])@.signature == sig
    ||| imp.contracts_inherited@.len() > 0 && chain_has_function(imp.contracts_inherited@[0], sig)
}

/// Whether the variable `v` is declared by `imp` or along its chain of first
/// inherited contracts, as [`chain_has_function`] searches.
pub open spec fn chain_has_variable(imp: Implementation, v: VariableModel) -> bool
    decreases imp,
{
    ||| exists|i: int| 0 <= i < imp.variables@.len() && (#[trigger] imp.variables@[i])@ == v
    ||| imp.contracts_inherited@.len() > 0 && chain_has_variable(imp.contracts_inherited@[0], v)
}

impl VariableDeclaration {
    /// A copy of the declaration.
    pub fn duplicate(&self) -> (r: Self)
        ensures
            r@ == self@,
    {
        VariableDeclaration { name: self.name.clone(), typ: self.typ.clone() }
    }

    /// Whether two declarations have the same name and type.
    pub fn same_as(&self, other: &Self) -> (r: bool)
        ensures
            r == (self@ == other@),
    {
        self.name == other.name && self.typ == other.typ
    }
}

/// A copy of a list of declarations.
pub fn duplicate_variables(vs: &Vec<VariableDeclaration>) -> (r: Vec<VariableDeclaration>)
    ensures
        variable_models(r@) == variable_models(vs@),
{
    let mut r: Vec<VariableDeclaration> = Vec::new();
    append_variables(&mut r, vs);
    assert(variable_models(r@) =~= variable_models(vs@));
    r
}

/// Appends copies of `vs` to `out`.
pub fn append_variables(out: &mut Vec<VariableDeclaration>, vs: &Vec<VariableDeclaration>)
    ensures
        variable_models(final(out)@) == variable_models(old(out)@) + variable_models(vs@),
{
    let ghost start = out@.len();
    let mut i: usize = 0;
    while i < vs.len()
        invariant
            i <= vs@.len(),
            start == old(out)@.len(),
            out@.len() == start + i,
            forall|j: int| 0 <= j < start ==> out@[j] == old(out)@[j],
            forall|j: int| 0 <= j < i ==> (#[trigger] out@[start + j])@ == vs@[j]@,
        decreases vs@.len() - i,
    {
        out.push(vs[i].duplicate());
        i = i + 1;
    }
    assert(variable_models(out@) =~= variable_models(old(out)@) + variable_models(vs@)) by {
        assert forall|j: int| start <= j < out@.len() implies out@[j]@ == vs@[j - start]@ by {
            assert(out@[start + (j - start)]@ == vs@[j - start]@);
        }
    }
}

impl FunctionSignature {
    /// A copy of the signature.
    pub fn duplicate(&self) -> (r: Self)
        ensures
            r@ == self@,
    {
        FunctionSignature {
            name: self.name.clone(),
            kind: self.kind.clone(),
            ins: duplicate_variables(&self.ins),
        }
    }

    /// Whether two signatures have the same name, kind and parameters.
    pub fn same_as(&self, other: &Self) -> (r: bool)
        ensures
            r == (self@ == other@),
    {
        if !(self.name == other.name) || !(self.kind == other.kind) {
            return false;
        }
        if self.ins.len() != other.ins.len() {
            assert(self@.ins.len() != other@.ins.len());
            return false;
        }
        let mut i: usize = 0;
        while i < self.ins.len()
            invariant
                i <= self.ins@.len(),
                self.ins@.len() == other.ins@.len(),
                forall|j: int| 0 <= j < i ==> (#[trigger] self.ins@[j])@ == other.ins@[j]@,
            decreases self.ins@.len() - i,
        {
            if !self.ins[i].same_as(&other.ins[i]) {
                assert(self@.ins[i as int] != other@.ins[i as int]);
                return false;
            }
            i = i + 1;
        }
        assert(self@.ins =~= other@.ins);
        true
    }
}

impl FunctionImplementation {
    /// A copy of the function.
    pub fn duplicate(&self) -> (r: Self)
        ensures
            r@ == self@,
    {
        FunctionImplementation {
            signature: self.signature.duplicate(),
            src: SourceLocation { offset: self.src.offset },
        }
    }
}

/// Appends copies of `fs` to `out`.
pub fn append_functions(out: &mut Vec<FunctionImplementation>, fs: &Vec<FunctionImplementation>)
    ensures
        function_models(final(out)@) == function_models(old(out)@) + function_models(fs@),
{
    let ghost start = out@.len();
    let mut i: usize = 0;
    while i < fs.len()
        invariant
            i <= fs@.len(),
            start == old(out)@.len(),
            out@.len() == start + i,
            forall|j: int| 0 <= j < start ==> out@[j] == old(out)@[j],
            forall|j: int| 0 <= j < i ==> (#[trigger] out@[start + j])@ == fs@[j]@,
        decreases fs@.len() - i,
    {
        out.push(fs[i].duplicate());
        i = i + 1;
    }
    assert(function_models(out@) =~= function_models(old(out)@) + function_models(fs@)) by {
        assert forall|j: int| start <= j < out@.len() implies out@[j]@ == fs@[j - start]@ by {
            assert(out@[start + (j - start)]@ == fs@[j - start]@);
        }
    }
}

impl FunctionSpecification {
    /// A copy of the function specification.
    pub fn duplicate(&self) -> (r: Self)
        ensures
            r@ == self@,
    {
        FunctionSpecification { signature: self.signature.duplicate(), spec: self.spec.clone() }
    }
}

} // verus!
