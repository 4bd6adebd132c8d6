//! Merging the specification's annotations into an implementation contract's
//! source: the contract invariant goes in front of the contract definition and
//! each function's annotation in front of that function.
use vstd::prelude::*;
use vstd::utf8::encode_utf8;

use crate::conformance::{find_spec, get_func_spec, lemma_find_spec_found};
use crate::text::{push_range, push_text};
use crate::model::{all_contracts, inherited_contracts, function_models, spec_models, FunctionModel, FunctionSpecModel, Implementation, Specification};

verus! {

/// The bytes of the comment block that carries `text`.
pub open spec fn annotation(text: Seq<char>) -> Seq<u8> {
    encode_utf8("/** \n * "@) + encode_utf8(text) + encode_utf8(" \n */ \n"@)
}

/// Whether the functions `fs` can be annotated from byte `start` on in a
/// source of `len` bytes: each has a specification of its name, and their
/// offsets do not decrease from `start` and stay within the source.
pub open spec fn pieces_valid(spec_functions: Seq<FunctionSpecModel>, fs: Seq<FunctionModel>, start: int, len: int) -> bool
    decreases fs.len(),
{
    if fs.len() == 0 {
        0 <= start <= len
    } else {
        &&& find_spec(fs[0].signature.name, spec_functions) is Some
        &&& 0 <= start <= fs[0].offset <= len
        &&& pieces_valid(spec_functions, fs.drop_first(), fs[0].offset as int, len)
    }
}

/// The source from byte `start` on with the annotation of each function of
/// `fs` inserted at the function's offset.
pub open spec fn merge_pieces(spec_functions: Seq<FunctionSpecModel>, fs: Seq<FunctionModel>, start: int, source: Seq<u8>) -> Seq<u8>
    decreases fs.len(),
{
    if fs.len() == 0 {
        source.subrange(start, source.len() as int)
    } else {
        source.subrange(start, fs[0].offset as int)
            + annotation(find_spec(fs[0].signature.name, spec_functions).unwrap().spec)
            + merge_pieces(spec_functions, fs.drop_first(), fs[0].offset as int, source)
    }
}

/// The pieces of the source that [`merge_pieces`] keeps, without the
/// annotations it inserts.
pub open spec fn source_pieces(fs: Seq<FunctionModel>, start: int, source: Seq<u8>) -> Seq<u8>
    decreases fs.len(),
{
    if fs.len() == 0 {
        source.subrange(start, source.len() as int)
    } else {
        source.subrange(start, fs[0].offset as int) + source_pieces(fs.drop_first(), fs[0].offset as int, source)
    }
}

/// Where the annotation of the first function is inserted from: the contract
/// definition's offset when the invariant goes in front of it, else 0.
pub open spec fn merge_start(imp: Implementation, with_invariant: bool) -> int {
    if with_invariant {
        imp.contract_definition.offset as int
    } else {
        0
    }
}

/// Whether the source of `imp`, of `len` bytes, can be annotated: the
/// contract definition's offset is within the source when the invariant is
/// inserted, and the own functions of `imp` satisfy [`pieces_valid`].
pub open spec fn merge_layout_ok(spec: Specification, imp: Implementation, with_invariant: bool, len: int) -> bool {
    &&& (with_invariant ==> imp.contract_definition.offset <= len)
    &&& pieces_valid(spec_models(spec.functions@), function_models(imp.functions@), merge_start(imp, with_invariant), len)
}

/// The annotated source of `imp`: with `with_invariant`, the source up to the
/// contract definition, then the contract invariant's annotation; then the
/// rest with each own function's annotation in front of it.
pub open spec fn merged_source(spec: Specification, imp: Implementation, with_invariant: bool, source: Seq<u8>) -> Seq<u8> {
    let pieces = merge_pieces(spec_models(spec.functions@), function_models(imp.functions@), merge_start(imp, with_invariant), source);
    if with_invariant {
        source.subrange(0, imp.contract_definition.offset as int) + annotation(spec.invariant@) + pieces
    } else {
        pieces
    }
}

/// The name of the file that holds the annotated source of a contract.
pub open spec fn merged_file_name_of(contract_name: Seq<char>) -> Seq<char> {
    "merged_contract_"@ + contract_name + ".sol"@
}

/// The name of the file that holds a contract's source.
pub open spec fn source_file_name_of(contract_name: Seq<char>) -> Seq<char> {
    contract_name + ".sol"@
}

/// Removing the inserted annotations gives back the source: the pieces that
/// the merge keeps are the whole source from `start` on, in order.
pub proof fn lemma_merge_keeps_source(spec_functions: Seq<FunctionSpecModel>, fs: Seq<FunctionModel>, start: int, source: Seq<u8>)
    requires
        pieces_valid(spec_functions, fs, start, source.len() as int),
    ensures
        source_pieces(fs, start, source) == source.subrange(start, source.len() as int),
    decreases fs.len(),
{
    if fs.len() > 0 {
        lemma_merge_keeps_source(spec_functions, fs.drop_first(), fs[0].offset as int, source);
        assert(source.subrange(start, fs[0].offset as int) + source.subrange(fs[0].offset as int, source.len() as int)
            =~= source.subrange(start, source.len() as int));
    }
}

/// The whole annotated source, with its annotations removed, is the source.
pub proof fn lemma_merged_source_keeps_source(spec: Specification, imp: Implementation, with_invariant: bool, source: Seq<u8>)
    requires
        merge_layout_ok(spec, imp, with_invariant, source.len() as int),
    ensures
        (if with_invariant {
            source.subrange(0, imp.contract_definition.offset as int)
        } else {
            Seq::<u8>::empty()
        }) + source_pieces(function_models(imp.functions@), merge_start(imp, with_invariant), source) == source,
{
    lemma_merge_keeps_source(spec_models(spec.functions@), function_models(imp.functions@), merge_start(imp, with_invariant), source);
    if with_invariant {
        assert(source.subrange(0, imp.contract_definition.offset as int) + source.subrange(
            imp.contract_definition.offset as int,
            source.len() as int,
        ) =~= source);
    } else {
        assert(Seq::<u8>::empty() + source.subrange(0, source.len() as int) =~= source);
    }
}

/// The annotation inserted in front of the function `f`: that of the first
/// specification of its name.
pub open spec fn annotation_of(spec_functions: Seq<FunctionSpecModel>, f: FunctionModel) -> Seq<u8> {
    annotation(find_spec(f.signature.name, spec_functions).unwrap().spec)
}

/// The total length of the annotations of the first `k` functions of `fs`.
pub open spec fn annotations_len(spec_functions: Seq<FunctionSpecModel>, fs: Seq<FunctionModel>, k: nat) -> int
    decreases k,
{
    if k == 0 || k > fs.len() {
        0
    } else {
        annotations_len(spec_functions, fs, (k - 1) as nat) + annotation_of(spec_functions, fs[k - 1]).len()
    }
}

/// Where the `i`-th piece of the source begins: at `start`, then at the
/// offset of each function in turn.
pub open spec fn piece_begin(fs: Seq<FunctionModel>, start: int, i: int) -> int {
    if i == 0 {
        start
    } else {
        fs[i - 1].offset as int
    }
}

/// Where the `i`-th piece of the source ends: at the offset of the `i`-th
/// function, and the last piece at the end of the source.
pub open spec fn piece_end(fs: Seq<FunctionModel>, len: int, i: int) -> int {
    if i == fs.len() {
        len
    } else {
        fs[i].offset as int
    }
}

/// In a concatenation, a range of the second part is found shifted by the
/// first part's length.
proof fn lemma_subrange_after(p: Seq<u8>, q: Seq<u8>, x: int, y: int)
    requires
        0 <= x <= y <= q.len(),
    ensures
        (p + q).subrange(p.len() + x, p.len() + y) == q.subrange(x, y),
{
    assert((p + q).subrange(p.len() + x, p.len() + y) =~= q.subrange(x, y));
}

/// The annotations of the functions after the first are those of the whole
/// list, less the first's.
proof fn lemma_annotations_len_rest(spec_functions: Seq<FunctionSpecModel>, fs: Seq<FunctionModel>, k: nat)
    requires
        fs.len() > 0,
        k < fs.len(),
    ensures
        annotations_len(spec_functions, fs.drop_first(), k) + annotation_of(spec_functions, fs[0]).len()
            == annotations_len(spec_functions, fs, k + 1),
    decreases k,
{
    assert(annotations_len(spec_functions, fs, 0) == 0);
    assert(annotations_len(spec_functions, fs.drop_first(), 0) == 0);
    if k > 0 {
        lemma_annotations_len_rest(spec_functions, fs, (k - 1) as nat);
        assert(fs.drop_first()[k - 1] == fs[k as int]);
        assert(annotations_len(spec_functions, fs.drop_first(), k) == annotations_len(spec_functions, fs.drop_first(), (k - 1) as nat)
            + annotation_of(spec_functions, fs.drop_first()[k - 1]).len());
        assert(annotations_len(spec_functions, fs, k + 1) == annotations_len(spec_functions, fs, k)
            + annotation_of(spec_functions, fs[k as int]).len());
    } else {
        assert(annotations_len(spec_functions, fs, 1) == annotations_len(spec_functions, fs, 0)
            + annotation_of(spec_functions, fs[0]).len());
    }
}

/// The total length of annotations grows with the number of functions counted.
proof fn lemma_annotations_len_grows(spec_functions: Seq<FunctionSpecModel>, fs: Seq<FunctionModel>, i: nat, j: nat)
    requires
        i <= j <= fs.len(),
    ensures
        0 <= annotations_len(spec_functions, fs, i) <= annotations_len(spec_functions, fs, j),
    decreases j,
{
    if j > i {
        lemma_annotations_len_grows(spec_functions, fs, i, (j - 1) as nat);
        assert(annotations_len(spec_functions, fs, j) == annotations_len(spec_functions, fs, (j - 1) as nat)
            + annotation_of(spec_functions, fs[j - 1]).len());
    } else if i > 0 {
        lemma_annotations_len_grows(spec_functions, fs, (i - 1) as nat, (i - 1) as nat);
        assert(annotations_len(spec_functions, fs, i) == annotations_len(spec_functions, fs, (i - 1) as nat)
            + annotation_of(spec_functions, fs[i - 1]).len());
    }
}

/// Valid offsets lie between `start` and the end of the source, in order.
proof fn lemma_pieces_valid_offsets(spec_functions: Seq<FunctionSpecModel>, fs: Seq<FunctionModel>, start: int, len: int)
    requires
        pieces_valid(spec_functions, fs, start, len),
    ensures
        0 <= start <= len,
        forall|i: int| 0 <= i < fs.len() ==> start <= #[trigger] fs[i].offset <= len,
        forall|i: int, j: int| 0 <= i <= j < fs.len() ==> fs[i].offset <= fs[j].offset,
    decreases fs.len(),
{
    if fs.len() > 0 {
        let rest = fs.drop_first();
        lemma_pieces_valid_offsets(spec_functions, rest, fs[0].offset as int, len);
        assert forall|i: int| 0 <= i < fs.len() implies start <= #[trigger] fs[i].offset <= len by {
            if i > 0 {
                assert(fs[i] == rest[i - 1]);
            }
        }
        assert forall|i: int, j: int| 0 <= i <= j < fs.len() implies fs[i].offset <= fs[j].offset by {
            if j > 0 {
                assert(fs[j] == rest[j - 1]);
                if i > 0 {
                    assert(fs[i] == rest[i - 1]);
                }
            }
        }
    }
}

/// What [`merge_pieces`] writes, position by position: the source from
/// `start` on, cut at each function's offset, with the annotation of that
/// function's specification in each cut, and nothing else.
pub proof fn lemma_merge_pieces_layout(spec_functions: Seq<FunctionSpecModel>, fs: Seq<FunctionModel>, start: int, source: Seq<u8>)
    requires
        pieces_valid(spec_functions, fs, start, source.len() as int),
    ensures
        merge_pieces(spec_functions, fs, start, source).len() == source.len() - start + annotations_len(spec_functions, fs, fs.len()),
        forall|i: int| 0 <= i < fs.len() ==> #[trigger] merge_pieces(spec_functions, fs, start, source).subrange(
            fs[i].offset - start + annotations_len(spec_functions, fs, i as nat),
            fs[i].offset - start + annotations_len(spec_functions, fs, (i + 1) as nat),
        ) == annotation_of(spec_functions, fs[i]),
        forall|i: int| 0 <= i <= fs.len() ==> #[trigger] merge_pieces(spec_functions, fs, start, source).subrange(
            piece_begin(fs, start, i) - start + annotations_len(spec_functions, fs, i as nat),
            piece_end(fs, source.len() as int, i) - start + annotations_len(spec_functions, fs, i as nat),
        ) == source.subrange(piece_begin(fs, start, i), piece_end(fs, source.len() as int, i)),
    decreases fs.len(),
{
    let out = merge_pieces(spec_functions, fs, start, source);
    let len = source.len() as int;
    if fs.len() == 0 {
        assert(out.subrange(0, len - start) =~= source.subrange(start, len));
    } else {
        let rest = fs.drop_first();
        let o0 = fs[0].offset as int;
        let a0 = annotation_of(spec_functions, fs[0]);
        let head = source.subrange(start, o0);
        let tail = merge_pieces(spec_functions, rest, o0, source);
        lemma_merge_pieces_layout(spec_functions, rest, o0, source);
        lemma_pieces_valid_offsets(spec_functions, fs, start, len);
        lemma_pieces_valid_offsets(spec_functions, rest, o0, len);
        assert(out == head + a0 + tail);
        let pre = head + a0;
        assert(pre.len() == o0 - start + a0.len());
        assert forall|k: nat| k < fs.len() implies annotations_len(spec_functions, rest, k) + a0.len()
            == #[trigger] annotations_len(spec_functions, fs, k + 1) by {
            lemma_annotations_len_rest(spec_functions, fs, k);
        }
        lemma_annotations_len_rest(spec_functions, fs, 0);
        assert(annotations_len(spec_functions, rest, 0) == 0);
        assert(annotations_len(spec_functions, fs, 1) == a0.len());
        assert(annotations_len(spec_functions, fs, rest.len() + 1) == annotations_len(spec_functions, rest, rest.len()) + a0.len());
        assert forall|i: int| 0 <= i < fs.len() implies #[trigger] out.subrange(
            fs[i].offset - start + annotations_len(spec_functions, fs, i as nat),
            fs[i].offset - start + annotations_len(spec_functions, fs, (i + 1) as nat),
        ) == annotation_of(spec_functions, fs[i]) by {
            if i == 0 {
                assert(out.subrange(o0 - start, o0 - start + a0.len()) =~= a0);
            } else {
                assert(rest[i - 1] == fs[i]);
                assert(annotations_len(spec_functions, rest, (i - 1) as nat) + a0.len() == annotations_len(spec_functions, fs, i as nat));
                assert(annotations_len(spec_functions, rest, i as nat) + a0.len() == annotations_len(spec_functions, fs, (i + 1) as nat));
                let x = rest[i - 1].offset - o0 + annotations_len(spec_functions, rest, (i - 1) as nat);
                let y = rest[i - 1].offset - o0 + annotations_len(spec_functions, rest, i as nat);
                lemma_annotations_len_grows(spec_functions, rest, (i - 1) as nat, i as nat);
                lemma_annotations_len_grows(spec_functions, rest, i as nat, rest.len());
                assert(tail.subrange(x, y) == annotation_of(spec_functions, rest[i - 1]));
                lemma_subrange_after(pre, tail, x, y);
            }
        }
        assert forall|i: int| 0 <= i <= fs.len() implies #[trigger] out.subrange(
            piece_begin(fs, start, i) - start + annotations_len(spec_functions, fs, i as nat),
            piece_end(fs, len, i) - start + annotations_len(spec_functions, fs, i as nat),
        ) == source.subrange(piece_begin(fs, start, i), piece_end(fs, len, i)) by {
            if i == 0 {
                assert(out.subrange(0, o0 - start) =~= head);
            } else {
                if i < fs.len() {
                    assert(rest[i - 1] == fs[i]);
                }
                assert(annotations_len(spec_functions, rest, (i - 1) as nat) + a0.len() == annotations_len(spec_functions, fs, i as nat));
                assert(piece_begin(rest, o0, i - 1) == piece_begin(fs, start, i));
                assert(piece_end(rest, len, i - 1) == piece_end(fs, len, i));
                let x = piece_begin(rest, o0, i - 1) - o0 + annotations_len(spec_functions, rest, (i - 1) as nat);
                let y = piece_end(rest, len, i - 1) - o0 + annotations_len(spec_functions, rest, (i - 1) as nat);
                lemma_annotations_len_grows(spec_functions, rest, (i - 1) as nat, rest.len());
                if i >= 2 && i - 1 < rest.len() {
                    assert(rest[i - 2].offset <= rest[i - 1].offset);
                }
                assert(tail.subrange(x, y) == source.subrange(piece_begin(rest, o0, i - 1), piece_end(rest, len, i - 1)));
                lemma_subrange_after(pre, tail, x, y);
            }
        }
    }
}

/// The length of the invariant's annotation when it is inserted, else 0.
pub open spec fn invariant_shift(spec: Specification, with_invariant: bool) -> int {
    if with_invariant {
        annotation(spec.invariant@).len() as int
    } else {
        0
    }
}

/// What [`merge_contract_source`] writes, position by position: with the
/// invariant, the source up to the contract definition and then the
/// invariant's annotation; then the rest of the source, cut at each own
/// function's offset, with the annotation of the function's specification
/// in each cut, every function included, and nothing else.
pub proof fn lemma_merged_source_layout(spec: Specification, imp: Implementation, with_invariant: bool, source: Seq<u8>)
    requires
        merge_layout_ok(spec, imp, with_invariant, source.len() as int),
    ensures
        merged_source(spec, imp, with_invariant, source).len() == source.len() + invariant_shift(spec, with_invariant)
            + annotations_len(spec_models(spec.functions@), function_models(imp.functions@), imp.functions@.len()),
        with_invariant ==> merged_source(spec, imp, with_invariant, source).subrange(0, imp.contract_definition.offset as int)
            == source.subrange(0, imp.contract_definition.offset as int),
        with_invariant ==> merged_source(spec, imp, with_invariant, source).subrange(
            imp.contract_definition.offset as int,
            imp.contract_definition.offset + invariant_shift(spec, with_invariant),
        ) == annotation(spec.invariant@),
        forall|i: int| 0 <= i < imp.functions@.len() ==> #[trigger] merged_source(spec, imp, with_invariant, source).subrange(
            imp.functions@[i].src.offset + invariant_shift(spec, with_invariant)
                + annotations_len(spec_models(spec.functions@), function_models(imp.functions@), i as nat),
            imp.functions@[i].src.offset + invariant_shift(spec, with_invariant)
                + annotations_len(spec_models(spec.functions@), function_models(imp.functions@), (i + 1) as nat),
        ) == annotation(find_spec(imp.functions@[i].signature.name@, spec_models(spec.functions@)).unwrap().spec),
        forall|i: int| 0 <= i <= imp.functions@.len() ==> #[trigger] merged_source(spec, imp, with_invariant, source).subrange(
            piece_begin(function_models(imp.functions@), merge_start(imp, with_invariant), i) + invariant_shift(spec, with_invariant)
                + annotations_len(spec_models(spec.functions@), function_models(imp.functions@), i as nat),
            piece_end(function_models(imp.functions@), source.len() as int, i) + invariant_shift(spec, with_invariant)
                + annotations_len(spec_models(spec.functions@), function_models(imp.functions@), i as nat),
        ) == source.subrange(
            piece_begin(function_models(imp.functions@), merge_start(imp, with_invariant), i),
            piece_end(function_models(imp.functions@), source.len() as int, i),
        ),
{
    let sfs = spec_models(spec.functions@);
    let fs = function_models(imp.functions@);
    let start = merge_start(imp, with_invariant);
    let q = invariant_shift(spec, with_invariant);
    let len = source.len() as int;
    let pieces = merge_pieces(sfs, fs, start, source);
    let merged = merged_source(spec, imp, with_invariant, source);
    lemma_merge_pieces_layout(sfs, fs, start, source);
    lemma_pieces_valid_offsets(sfs, fs, start, len);
    let pre = if with_invariant {
        source.subrange(0, imp.contract_definition.offset as int) + annotation(spec.invariant@)
    } else {
        Seq::<u8>::empty()
    };
    assert(merged =~= pre + pieces);
    assert(pre.len() == start + q);
    if with_invariant {
        assert(merged.subrange(0, imp.contract_definition.offset as int) =~= source.subrange(0, imp.contract_definition.offset as int));
        assert(merged.subrange(imp.contract_definition.offset as int, imp.contract_definition.offset + q) =~= annotation(spec.invariant@));
    }
    assert forall|i: int| 0 <= i < imp.functions@.len() implies #[trigger] merged.subrange(
        imp.functions@[i].src.offset + q + annotations_len(sfs, fs, i as nat),
        imp.functions@[i].src.offset + q + annotations_len(sfs, fs, (i + 1) as nat),
    ) == annotation(find_spec(imp.functions@[i].signature.name@, sfs).unwrap().spec) by {
        assert(fs[i] == imp.functions@[i]@);
        lemma_annotations_len_grows(sfs, fs, i as nat, (i + 1) as nat);
        lemma_annotations_len_grows(sfs, fs, (i + 1) as nat, fs.len());
        let x = fs[i].offset - start + annotations_len(sfs, fs, i as nat);
        let y = fs[i].offset - start + annotations_len(sfs, fs, (i + 1) as nat);
        assert(pieces.subrange(x, y) == annotation_of(sfs, fs[i]));
        lemma_subrange_after(pre, pieces, x, y);
    }
    assert forall|i: int| 0 <= i <= imp.functions@.len() implies #[trigger] merged.subrange(
        piece_begin(fs, start, i) + q + annotations_len(sfs, fs, i as nat),
        piece_end(fs, len, i) + q + annotations_len(sfs, fs, i as nat),
    ) == source.subrange(piece_begin(fs, start, i), piece_end(fs, len, i)) by {
        lemma_annotations_len_grows(sfs, fs, i as nat, fs.len());
        if 0 < i && i < fs.len() {
            assert(fs[i - 1].offset <= fs[i].offset);
        }
        let x = piece_begin(fs, start, i) - start + annotations_len(sfs, fs, i as nat);
        let y = piece_end(fs, len, i) - start + annotations_len(sfs, fs, i as nat);
        assert(pieces.subrange(x, y) == source.subrange(piece_begin(fs, start, i), piece_end(fs, len, i)));
        lemma_subrange_after(pre, pieces, x, y);
    }
}

/// Appends the annotation of `text` to `out`.
fn push_annotation(out: &mut Vec<u8>, text: &String)
    ensures
        final(out)@ == old(out)@ + annotation(text@),
{
    push_text(out, "/** \n * ");
    push_text(out, text.as_str());
    push_text(out, " \n */ \n");
    assert(out@ =~= old(out)@ + annotation(text@));
}

/// Whether [`merge_contract_source`] can annotate a source of `source_len`
/// bytes for `imp`.
pub fn can_merge(spec: &Specification, imp: &Implementation, with_invariant: bool, source_len: usize) -> (r: bool)
    ensures
        r == merge_layout_ok(*spec, *imp, with_invariant, source_len as int),
{
    let ghost sfs = spec_models(spec.functions@);
    let ghost fns = function_models(imp.functions@);
    let n = imp.functions.len();
    if with_invariant && imp.contract_definition.offset > source_len as u64 {
        return false;
    }
    let mut last: u64 = if with_invariant { imp.contract_definition.offset } else { 0 };
    assert(fns.subrange(0, n as int) =~= fns);
    let mut i: usize = 0;
    while i < n
        invariant
            n == imp.functions@.len(),
            i <= n,
            last <= source_len,
            sfs == spec_models(spec.functions@),
            fns == function_models(imp.functions@),
            with_invariant ==> imp.contract_definition.offset <= source_len,
            merge_layout_ok(*spec, *imp, with_invariant, source_len as int) == pieces_valid(
                sfs,
                fns.subrange(i as int, n as int),
                last as int,
                source_len as int,
            ),
        decreases n - i,
    {
        let f = &imp.functions[i];
        assert(fns.subrange(i as int, n as int)[0] == f@);
        assert(fns.subrange(i as int, n as int).drop_first() =~= fns.subrange(i + 1, n as int));
        proof {
            lemma_find_spec_found(f@.signature.name, sfs);
        }
        let found = get_func_spec(f, &spec.functions);
        if found.is_err() || f.src.offset < last || f.src.offset > source_len as u64 {
            return false;
        }
        last = f.src.offset;
        i = i + 1;
    }
    assert(fns.subrange(n as int, n as int).len() == 0);
    true
}

/// The source of `imp` with the specification's annotations inserted: the
/// contract invariant in front of the contract definition when `with_invariant`
/// holds, and in front of each own function of `imp` the annotation of the
/// specification function of the same name.
pub fn merge_contract_source(spec: &Specification, imp: &Implementation, with_invariant: bool, source: &[u8]) -> (r: Vec<u8>)
    requires
        merge_layout_ok(*spec, *imp, with_invariant, source@.len() as int),
    ensures
        r@ == merged_source(*spec, *imp, with_invariant, source@),
{
    let ghost sfs = spec_models(spec.functions@);
    let ghost fns = function_models(imp.functions@);
    let n = imp.functions.len();
    let len = source.len();
    let mut out: Vec<u8> = Vec::new();
    let mut last: u64 = 0;
    if with_invariant {
        let def = imp.contract_definition.offset as usize;
        push_range(&mut out, source, 0, def);
        push_annotation(&mut out, &spec.invariant);
        last = imp.contract_definition.offset;
    }
    let ghost target = merged_source(*spec, *imp, with_invariant, source@);
    assert(fns.subrange(0, n as int) =~= fns);
    assert(last as int == merge_start(*imp, with_invariant));
    assert(out@ + merge_pieces(sfs, fns.subrange(0, n as int), last as int, source@) =~= target);
    let mut i: usize = 0;
    while i < n
        invariant
            n == imp.functions@.len(),
            i <= n,
            sfs == spec_models(spec.functions@),
            fns == function_models(imp.functions@),
            len == source@.len(),
            last <= source@.len(),
            pieces_valid(sfs, fns.subrange(i as int, n as int), last as int, source@.len() as int),
            out@ + merge_pieces(sfs, fns.subrange(i as int, n as int), last as int, source@) == target,
        decreases n - i,
    {
        let func_impl = &imp.functions[i];
        let ghost rest = fns.subrange(i as int, n as int);
        assert(rest[0] == func_impl@);
        assert(rest.drop_first() =~= fns.subrange(i + 1, n as int));
        assert(last <= func_impl.src.offset <= source@.len());
        let ghost before = out@;
        let func_spec = get_func_spec(func_impl, &spec.functions).unwrap();
        let offset = func_impl.src.offset as usize;
        push_range(&mut out, source, last as usize, offset);
        push_annotation(&mut out, &func_spec.spec);
        assert(out@ =~= before + source@.subrange(last as int, func_impl.src.offset as int) + annotation(
            find_spec(func_impl@.signature.name, sfs).unwrap().spec,
        ));
        last = func_impl.src.offset;
        i = i + 1;
        assert(out@ + merge_pieces(sfs, fns.subrange(i as int, n as int), last as int, source@) =~= target);
    }
    push_range(&mut out, source, last as usize, len);
    assert(fns.subrange(n as int, n as int).len() == 0);
    out
}

/// The contracts that a list of references points to.
pub open spec fn pointed(rs: Seq<&Implementation>) -> Seq<Implementation> {
    rs.map_values(|r: &Implementation| *r)
}

/// Appends `imp` and every contract it inherits from to `out`, in the order
/// of a depth-first walk.
fn collect_contracts<'a>(imp: &'a Implementation, out: &mut Vec<&'a Implementation>)
    ensures
        pointed(final(out)@) == pointed(old(out)@) + all_contracts(*imp),
    decreases imp,
{
    out.push(imp);
    assert(pointed(out@) =~= pointed(old(out)@) + seq![*imp] + inherited_contracts(*imp, 0));
    let mut i: usize = 0;
    while i < imp.contracts_inherited.len()
        invariant
            i <= imp.contracts_inherited@.len(),
            pointed(out@) == pointed(old(out)@) + seq![*imp] + inherited_contracts(*imp, i as nat),
        decreases imp.contracts_inherited@.len() - i,
    {
        collect_contracts(&imp.contracts_inherited[i], out);
        assert(inherited_contracts(*imp, (i + 1) as nat) == inherited_contracts(*imp, i as nat)
            + all_contracts(imp.contracts_inherited@[i as int]));
        i = i + 1;
    }
    assert(pointed(out@) =~= pointed(old(out)@) + all_contracts(*imp));
}

/// The contracts whose annotated sources are written for `imp`: `imp` and
/// every contract it inherits from, in the order of a depth-first walk, each
/// with whether its annotated source carries the contract invariant; only
/// `imp` itself may carry it, and does when `with_invariant` holds.
pub fn merge_plan<'a>(imp: &'a Implementation, with_invariant: bool) -> (r: Vec<(&'a Implementation, bool)>)
    ensures
        r@.len() == all_contracts(*imp).len(),
        forall|j: int|
            0 <= j < r@.len() ==> *(#[trigger] r@[j]).0 == all_contracts(*imp)[j] && r@[j].1 == (j == 0
                && with_invariant),
{
    let mut contracts: Vec<&'a Implementation> = Vec::new();
    collect_contracts(imp, &mut contracts);
    assert(pointed(contracts@) =~= all_contracts(*imp));
    let mut r: Vec<(&'a Implementation, bool)> = Vec::new();
    let mut i: usize = 0;
    while i < contracts.len()
        invariant
            i <= contracts@.len(),
            pointed(contracts@) == all_contracts(*imp),
            r@.len() == i,
            forall|j: int|
                0 <= j < i ==> *(#[trigger] r@[j]).0 == all_contracts(*imp)[j] && r@[j].1 == (j == 0
                    && with_invariant),
        decreases contracts@.len() - i,
    {
        assert(*contracts@[i as int] == pointed(contracts@)[i as int]);
        r.push((contracts[i], i == 0 && with_invariant));
        i = i + 1;
    }
    r
}

/// The name of the file that holds the annotated source of `contract_name`.
pub fn merged_file_name(contract_name: &str) -> (r: String)
    ensures
        r@ == merged_file_name_of(contract_name@),
{
    let mut r = "merged_contract_".to_owned();
    r.append(contract_name);
    r.append(".sol");
    r
}

/// The name of the file that holds the source of `contract_name`.
pub fn source_file_name(contract_name: &str) -> (r: String)
    ensures
        r@ == source_file_name_of(contract_name@),
{
    let mut r = contract_name.to_owned();
    r.append(".sol");
    r
}

} // verus!
