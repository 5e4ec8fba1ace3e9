//! The emitter: turns an [`IndexMacro`] specification into the token stream
//! of the accessor implementations. Emission is a total, deterministic
//! function of the specification; no error can occur here.
//!
//! One `::core::ops::Index` implementation is always produced; when the
//! mutable flag is set, a `::core::ops::IndexMut` implementation follows,
//! whose dispatch renders the same pairings in the same order, each arm
//! differing from its read counterpart only by the `mut` after the
//! reference operator. Pairing order becomes match-arm order verbatim, so
//! the emitted dispatch keeps first-match-wins semantics, and a later
//! pairing can serve as the catch-all for keys the earlier ones reject.

use vstd::prelude::*;

use crate::{
    Delim, GenericParam, GenericParamV, Generics, GenericsV, GpKind, IndexMacro, IndexMacroV,
    MaybeIdent, MaybeIdentV, Pairing, PairingV, Pattern, PatternV, Tok, TokV, ident, punct,
    push_copy,
};

verus! {

/// A punctuation token value spaced alone.
pub open spec fn pv(c: char) -> TokV {
    TokV::Punct(c, false)
}

/// A punctuation token value joined to the next token.
pub open spec fn pj(c: char) -> TokV {
    TokV::Punct(c, true)
}

/// An identifier token value.
pub open spec fn idv(name: Seq<char>) -> TokV {
    TokV::Ident(name)
}

/// The two tokens of a path separator `::`.
pub open spec fn path_sep_toks() -> Seq<TokV> {
    seq![pj(':'), pv(':')]
}

/// The two tokens of a fat arrow `=>`.
pub open spec fn fat_arrow_toks() -> Seq<TokV> {
    seq![pj('='), pv('>')]
}

/// The four tokens of an outer attribute holding one word: `#[word]`.
pub open spec fn attr_toks(word: Seq<char>) -> Seq<TokV> {
    seq![pv('#'), TokV::Open(Delim::Bracket), idv(word), TokV::Close(Delim::Bracket)]
}

/// Joins token fragments with a single `,` between neighbours (no trailing
/// comma), as the dispatch arms and the generic parameters are printed.
pub open spec fn join_comma(xs: Seq<Seq<TokV>>) -> Seq<TokV>
    decreases xs.len(),
{
    if xs.len() == 0 {
        Seq::empty()
    } else if xs.len() == 1 {
        xs[0]
    } else {
        xs[0] + seq![pv(',')] + join_comma(xs.drop_first())
    }
}

/// Extending a joined list by one more fragment appends a comma and the
/// fragment.
pub proof fn lemma_join_comma_take(xs: Seq<Seq<TokV>>, k: int)
    requires
        1 <= k < xs.len(),
    ensures
        join_comma(xs.take(k + 1)) == join_comma(xs.take(k)) + seq![pv(',')] + xs[k],
    decreases k,
{
    if k == 1 {
        assert(xs.take(2).drop_first() =~= seq![xs[1]]);
        assert(join_comma(seq![xs[1]]) == xs[1]);
        assert(xs.take(1) =~= seq![xs[0]]);
        assert(join_comma(xs.take(2)) == xs.take(2)[0] + seq![pv(',')] + join_comma(
            xs.take(2).drop_first(),
        ));
        assert(join_comma(xs.take(2)) =~= join_comma(xs.take(1)) + seq![pv(',')] + xs[1]);
    } else {
        let dx = xs.drop_first();
        lemma_join_comma_take(dx, k - 1);
        assert(xs.take(k + 1).drop_first() =~= dx.take(k));
        assert(xs.take(k).drop_first() =~= dx.take(k - 1));
        assert(join_comma(xs.take(k + 1)) == xs[0] + seq![pv(',')] + join_comma(dx.take(k)));
        assert(join_comma(xs.take(k)) == xs[0] + seq![pv(',')] + join_comma(dx.take(k - 1)));
        assert(dx[k - 1] == xs[k]);
        assert(xs[0] + seq![pv(',')] + (join_comma(dx.take(k - 1)) + seq![pv(',')] + dx[k - 1])
            =~= (xs[0] + seq![pv(',')] + join_comma(dx.take(k - 1))) + seq![pv(',')] + xs[k]);
    }
}

/// Lifetime parameters are printed before the type and const parameters,
/// keeping the declared order within each group.
pub open spec fn reorder_params(ps: Seq<GenericParamV>) -> Seq<GenericParamV> {
    ps.filter(|p: GenericParamV| p.kind == GpKind::Lifetime) + ps.filter(
        |p: GenericParamV| p.kind != GpKind::Lifetime,
    )
}

/// One parameter as printed in the `impl` header: name and bounds, with any
/// default dropped.
pub open spec fn impl_param(p: GenericParamV) -> Seq<TokV> {
    match p.kind {
        GpKind::Lifetime => seq![pj('\''), idv(p.name)] + (match p.bounds {
            Some(b) => seq![pv(':')] + b,
            None => Seq::empty(),
        }),
        GpKind::Type => seq![idv(p.name)] + (match p.bounds {
            Some(b) => seq![pv(':')] + b,
            None => Seq::empty(),
        }),
        GpKind::Const => seq![idv("const"@), idv(p.name), pv(':')] + p.const_ty,
    }
}

/// One parameter as printed in type position: its bare name.
pub open spec fn type_param(p: GenericParamV) -> Seq<TokV> {
    match p.kind {
        GpKind::Lifetime => seq![pj('\''), idv(p.name)],
        _ => seq![idv(p.name)],
    }
}

/// The generic parameters as printed after `impl` (with bounds) or in type
/// position (names only). An absent or empty list prints nothing.
pub open spec fn generics_toks(g: Option<GenericsV>, type_pos: bool) -> Seq<TokV> {
    match g {
        None => Seq::empty(),
        Some(gen) => if gen.params.len() == 0 {
            Seq::empty()
        } else {
            seq![pv('<')] + join_comma(
                reorder_params(gen.params).map_values(
                    |p: GenericParamV|
                        if type_pos {
                            type_param(p)
                        } else {
                            impl_param(p)
                        },
                ),
            ) + seq![pv('>')]
        },
    }
}

/// A pattern with its optional guard, as printed in a match arm.
pub open spec fn pattern_toks(p: PatternV) -> Seq<TokV> {
    p.pat + (match p.guard {
        Some(g) => seq![idv("if"@)] + g,
        None => Seq::empty(),
    })
}

/// The matcher of one arm: a shorthand tag prints as `KeyType::Tag`; a full
/// form prints its pattern and guard verbatim.
pub open spec fn arm_matcher(kv: MaybeIdentV<PatternV>, idx_by: Seq<TokV>) -> Seq<TokV> {
    match kv {
        MaybeIdentV::Ident(name) => idx_by + path_sep_toks() + seq![idv(name)],
        MaybeIdentV::Other(p) => pattern_toks(p),
    }
}

/// The storage location of one arm, following `self.`: a shorthand field
/// name, or the full-form expression verbatim.
pub open spec fn arm_storage(sv: MaybeIdentV<Seq<TokV>>) -> Seq<TokV> {
    match sv {
        MaybeIdentV::Ident(f) => seq![idv(f)],
        MaybeIdentV::Other(e) => e,
    }
}

/// The part of an arm after the reference operator: `self.` and the storage.
pub open spec fn arm_tail(p: PairingV) -> Seq<TokV> {
    seq![idv("self"@), pj('.')] + arm_storage(p.struct_field)
}

/// One whole dispatch arm. The read and the mutable rendering differ only by
/// the `mut` token after the reference operator.
pub open spec fn arm_spec(p: PairingV, idx_by: Seq<TokV>, mutable: bool) -> Seq<TokV> {
    arm_matcher(p.enum_variant, idx_by) + fat_arrow_toks() + seq![pj('&')] + (if mutable {
        seq![idv("mut"@)]
    } else {
        Seq::empty()
    }) + arm_tail(p)
}

/// All dispatch arms: one per pairing, in input order, comma-separated.
pub open spec fn arms_spec(ps: Seq<PairingV>, idx_by: Seq<TokV>, mutable: bool) -> Seq<TokV> {
    join_comma(ps.map_values(|p: PairingV| arm_spec(p, idx_by, mutable)))
}

/// The head of one accessor implementation, up to its opening brace:
/// `#[automatically_derived] impl <G> ::core::ops::Index<Key> for Target<G'> {`.
pub open spec fn accessor_head(m: IndexMacroV, mutable: bool) -> Seq<TokV> {
    attr_toks("automatically_derived"@) + seq![idv("impl"@)] + generics_toks(m.generics, false)
        + path_sep_toks() + seq![idv("core"@)] + path_sep_toks() + seq![idv("ops"@)]
        + path_sep_toks() + seq![
        idv(
            if mutable {
                "IndexMut"@
            } else {
                "Index"@
            },
        ),
    ] + seq![pv('<')] + m.idx_by + seq![pv('>')] + seq![idv("for"@)] + m.impl_for + generics_toks(
        m.generics,
        true,
    ) + seq![TokV::Open(Delim::Brace)]
}

/// The items of one accessor implementation before the accessor function:
/// the `type Output` item (read accessor only) and the optional inlining
/// hint for dispatches of fewer than three arms.
pub open spec fn mid_items(m: IndexMacroV, mutable: bool) -> Seq<TokV> {
    (if mutable {
        Seq::empty()
    } else {
        seq![idv("type"@), idv("Output"@), pv('=')] + m.output + seq![pv(';')]
    }) + (if m.pairings.len() < 3 {
        attr_toks("inline"@)
    } else {
        Seq::empty()
    })
}

/// The accessor function's signature and the opening of its dispatch:
/// `fn index(&self, index_macro_derived_index_input: Key) -> &Self::Output { match index_macro_derived_index_input {`
/// (with `index_mut`, `&mut self` and `&mut Self::Output` for the mutable
/// accessor).
pub open spec fn mid_sig(m: IndexMacroV, mutable: bool) -> Seq<TokV> {
    seq![
        idv("fn"@),
        idv(
            if mutable {
                "index_mut"@
            } else {
                "index"@
            },
        ),
        TokV::Open(Delim::Paren),
        pv('&'),
    ] + (if mutable {
        seq![idv("mut"@)]
    } else {
        Seq::empty()
    }) + seq![idv("self"@), pv(','), idv("index_macro_derived_index_input"@), pv(':')] + m.idx_by
        + seq![TokV::Close(Delim::Paren), pj('-'), pv('>'), pv('&')] + (if mutable {
        seq![idv("mut"@)]
    } else {
        Seq::empty()
    }) + seq![idv("Self"@)] + path_sep_toks() + seq![idv("Output"@)] + seq![
        TokV::Open(Delim::Brace),
        idv("match"@),
        idv("index_macro_derived_index_input"@),
        TokV::Open(Delim::Brace),
    ]
}

/// The middle of one accessor implementation: its items, then the accessor
/// function's signature up to the opening of its dispatch.
pub open spec fn accessor_mid(m: IndexMacroV, mutable: bool) -> Seq<TokV> {
    mid_items(m, mutable) + mid_sig(m, mutable)
}

/// One whole accessor implementation.
pub open spec fn accessor_spec(m: IndexMacroV, mutable: bool) -> Seq<TokV> {
    accessor_head(m, mutable) + accessor_mid(m, mutable) + arms_spec(m.pairings, m.idx_by, mutable)
        + seq![
        TokV::Close(Delim::Brace),
        TokV::Close(Delim::Brace),
        TokV::Close(Delim::Brace),
    ]
}

/// The whole emission: the read accessor, then, when the mutable flag is
/// set, the mutable accessor.
pub open spec fn emit_spec(m: IndexMacroV) -> Seq<TokV> {
    accessor_spec(m, false) + (if m.impl_mut {
        accessor_spec(m, true)
    } else {
        Seq::empty()
    })
}

/// Pushes one freshly built token.
fn push_t(out: &mut Vec<Tok>, t: Tok)
    ensures
        final(out).deep_view() == old(out).deep_view().push(t.deep_view()),
{
    let ghost before = out.deep_view();
    out.push(t);
    assert(out.deep_view() =~= before.push(t.deep_view()));
}

/// Appends a copy of a whole fragment.
fn extend_copy(out: &mut Vec<Tok>, src: &Vec<Tok>)
    ensures
        final(out).deep_view() == old(out).deep_view() + src.deep_view(),
{
    let ghost base = out.deep_view();
    let ghost sv = src.deep_view();
    let mut k: usize = 0;
    assert(out.deep_view() =~= base + sv.take(0));
    while k < src.len()
        invariant
            k <= src@.len(),
            sv == src.deep_view(),
            sv.len() == src@.len(),
            out.deep_view() == base + sv.take(k as int),
        decreases src@.len() - k,
    {
        push_copy(out, &src[k]);
        assert(out.deep_view() =~= base + sv.take(k as int + 1));
        k = k + 1;
    }
    assert(out.deep_view() =~= base + sv);
}

/// Appends a path separator `::`.
fn emit_path_sep(out: &mut Vec<Tok>)
    ensures
        final(out).deep_view() == old(out).deep_view() + path_sep_toks(),
{
    let ghost base = out.deep_view();
    push_t(out, punct(':', true));
    push_t(out, punct(':', false));
    assert(out.deep_view() =~= base + path_sep_toks());
}

/// Appends an outer attribute `#[word]`.
fn emit_attr(out: &mut Vec<Tok>, word: &str)
    ensures
        final(out).deep_view() == old(out).deep_view() + attr_toks(word@),
{
    let ghost base = out.deep_view();
    push_t(out, punct('#', false));
    push_t(out, Tok::Open(Delim::Bracket));
    push_t(out, ident(word));
    push_t(out, Tok::Close(Delim::Bracket));
    assert(out.deep_view() =~= base + attr_toks(word@));
}

impl Pattern {
    /// Appends the pattern and, when present, `if` and the guard.
    pub fn to_tokens(&self, out: &mut Vec<Tok>)
        ensures
            final(out).deep_view() == old(out).deep_view() + pattern_toks(self.deep_view()),
    {
        let ghost base = out.deep_view();
        extend_copy(out, &self.pat);
        match &self.guard {
            Some(g) => {
                push_t(out, ident("if"));
                extend_copy(out, g);
            },
            None => (),
        }
        assert(out.deep_view() =~= base + pattern_toks(self.deep_view()));
    }
}

impl MaybeIdent<Pattern> {
    /// Appends this key matcher as a match-arm matcher: a shorthand tag as
    /// `KeyType::Tag`, a full form verbatim.
    pub fn to_tokens(&self, out: &mut Vec<Tok>, idx_by: &Vec<Tok>)
        ensures
            final(out).deep_view() == old(out).deep_view() + arm_matcher(
                self.deep_view(),
                idx_by.deep_view(),
            ),
    {
        let ghost base = out.deep_view();
        match self {
            MaybeIdent::Ident(name) => {
                extend_copy(out, idx_by);
                emit_path_sep(out);
                push_t(out, Tok::Ident(name.clone()));
            },
            MaybeIdent::Other(p) => {
                p.to_tokens(out);
            },
        }
        assert(out.deep_view() =~= base + arm_matcher(self.deep_view(), idx_by.deep_view()));
    }
}

impl MaybeIdent<Vec<Tok>> {
    /// Appends this storage selector as it follows `self.`: a shorthand
    /// field name, or the full-form expression verbatim.
    pub fn to_tokens(&self, out: &mut Vec<Tok>)
        ensures
            final(out).deep_view() == old(out).deep_view() + arm_storage(self.deep_view()),
    {
        let ghost base = out.deep_view();
        match self {
            MaybeIdent::Ident(f) => {
                push_t(out, Tok::Ident(f.clone()));
            },
            MaybeIdent::Other(e) => {
                extend_copy(out, e);
            },
        }
        assert(out.deep_view() =~= base + arm_storage(self.deep_view()));
    }
}

/// One pairing about to be printed as a dispatch arm of the accessor that
/// matches on `idx_by`, with or without a mutable reference operator.
pub struct IndexedPairing<'a> {
    pub pairing: &'a Pairing,
    pub idx_by: &'a Vec<Tok>,
    pub mut_ref: bool,
}

impl IndexedPairing<'_> {
    /// Appends the whole arm: matcher, `=>`, `&` (with `mut` when the
    /// mutable accessor is being emitted), `self.`, and the storage.
    pub fn to_tokens(&self, out: &mut Vec<Tok>)
        ensures
            final(out).deep_view() == old(out).deep_view() + arm_spec(
                self.pairing.deep_view(),
                self.idx_by.deep_view(),
                self.mut_ref,
            ),
    {
        let ghost base = out.deep_view();
        self.pairing.enum_variant.to_tokens(out, self.idx_by);
        push_t(out, punct('=', true));
        push_t(out, punct('>', false));
        push_t(out, punct('&', true));
        if self.mut_ref {
            push_t(out, ident("mut"));
        }
        push_t(out, ident("self"));
        push_t(out, punct('.', true));
        self.pairing.struct_field.to_tokens(out);
        assert(out.deep_view() =~= base + arm_spec(
            self.pairing.deep_view(),
            self.idx_by.deep_view(),
            self.mut_ref,
        ));
    }
}


/// Filtering one more element keeps or drops exactly that element.
proof fn lemma_filter_take_step(ps: Seq<GenericParamV>, pred: spec_fn(GenericParamV) -> bool, k: int)
    requires
        0 <= k < ps.len(),
    ensures
        ps.take(k + 1).filter(pred) == ps.take(k).filter(pred) + (if pred(ps[k]) {
            seq![ps[k]]
        } else {
            Seq::<GenericParamV>::empty()
        }),
{
    reveal_with_fuel(Seq::<_>::filter, 2);
    let single = seq![ps[k]];
    assert(ps.take(k + 1) =~= ps.take(k) + single);
    Seq::filter_distributes_over_add(ps.take(k), single, pred);
    assert(single.drop_last() =~= Seq::<GenericParamV>::empty());
    assert(single.drop_last().filter(pred) =~= Seq::<GenericParamV>::empty());
    if pred(ps[k]) {
        assert(single.filter(pred) =~= seq![ps[k]]);
    } else {
        assert(single.filter(pred) =~= Seq::<GenericParamV>::empty());
    }
}

/// Appends one generic parameter, in `impl` form or in type-position form.
fn emit_param(out: &mut Vec<Tok>, p: &GenericParam, type_pos: bool)
    ensures
        final(out).deep_view() == old(out).deep_view() + (if type_pos {
            type_param(p.deep_view())
        } else {
            impl_param(p.deep_view())
        }),
{
    let ghost base = out.deep_view();
    if type_pos {
        match p.kind {
            GpKind::Lifetime => {
                push_t(out, punct('\'', true));
                push_t(out, Tok::Ident(p.name.clone()));
            },
            _ => {
                push_t(out, Tok::Ident(p.name.clone()));
            },
        }
        assert(out.deep_view() =~= base + type_param(p.deep_view()));
    } else {
        match p.kind {
            GpKind::Lifetime => {
                push_t(out, punct('\'', true));
                push_t(out, Tok::Ident(p.name.clone()));
                match &p.bounds {
                    Some(b) => {
                        push_t(out, punct(':', false));
                        extend_copy(out, b);
                    },
                    None => (),
                }
            },
            GpKind::Type => {
                push_t(out, Tok::Ident(p.name.clone()));
                match &p.bounds {
                    Some(b) => {
                        push_t(out, punct(':', false));
                        extend_copy(out, b);
                    },
                    None => (),
                }
            },
            GpKind::Const => {
                push_t(out, ident("const"));
                push_t(out, Tok::Ident(p.name.clone()));
                push_t(out, punct(':', false));
                extend_copy(out, &p.const_ty);
            },
        }
        assert(out.deep_view() =~= base + impl_param(p.deep_view()));
    }
}

/// Appends the generic parameters in `impl` form (with bounds, defaults
/// dropped) or in type-position form (names only), lifetimes first; an
/// absent or empty list appends nothing.
#[verifier::loop_isolation(false)]
fn emit_generics(out: &mut Vec<Tok>, g: &Option<Generics>, type_pos: bool)
    ensures
        final(out).deep_view() == old(out).deep_view() + generics_toks(
            g.deep_view(),
            type_pos,
        ),
{
    let ghost base = out.deep_view();
    let gen = match g {
        None => {
            assert(out.deep_view() =~= base + generics_toks(g.deep_view(), type_pos));
            return ;
        },
        Some(gen) => gen,
    };
    let ghost ps = gen.params.deep_view();
    let ghost lt_pred = |p: GenericParamV| p.kind == GpKind::Lifetime;
    let ghost ot_pred = |p: GenericParamV| p.kind != GpKind::Lifetime;
    if gen.params.len() == 0 {
        assert(out.deep_view() =~= base + generics_toks(g.deep_view(), type_pos));
        return ;
    }
    let n = gen.params.len();
    let mut ord: Vec<&GenericParam> = Vec::new();
    proof {
        reveal_with_fuel(Seq::<_>::filter, 1);
        assert(ps.take(0) =~= Seq::<GenericParamV>::empty());
    }
    assert(ord.deep_view() =~= ps.take(0).filter(lt_pred));
    let mut k: usize = 0;
    while k < n
        invariant
            k <= n,
            ord.deep_view() == ps.take(k as int).filter(lt_pred),
        decreases n - k,
    {
        let ghost before = ord.deep_view();
        if matches!(gen.params[k].kind, GpKind::Lifetime) {
            ord.push(&gen.params[k]);
            assert(ord.deep_view() =~= before.push(ps[k as int]));
            assert(before.push(ps[k as int]) =~= before + seq![ps[k as int]]);
        }
        proof {
            lemma_filter_take_step(ps, lt_pred, k as int);
        }
        k = k + 1;
    }
    assert(ps.take(n as int) =~= ps);
    let ghost lts = ps.filter(lt_pred);
    assert(ord.deep_view() == lts);
    proof {
        reveal_with_fuel(Seq::<_>::filter, 1);
        assert(ps.take(0) =~= Seq::<GenericParamV>::empty());
        assert(lts + ps.take(0).filter(ot_pred) =~= lts);
    }
    let mut k2: usize = 0;
    while k2 < n
        invariant
            k2 <= n,
            ord.deep_view() == lts + ps.take(k2 as int).filter(ot_pred),
        decreases n - k2,
    {
        let ghost before = ord.deep_view();
        if !matches!(gen.params[k2].kind, GpKind::Lifetime) {
            ord.push(&gen.params[k2]);
            assert(ord.deep_view() =~= before.push(ps[k2 as int]));
            assert(before.push(ps[k2 as int]) =~= before + seq![ps[k2 as int]]);
        }
        proof {
            lemma_filter_take_step(ps, ot_pred, k2 as int);
            if ot_pred(ps[k2 as int]) {
                assert((lts + ps.take(k2 as int).filter(ot_pred)) + seq![ps[k2 as int]] =~= lts
                    + (ps.take(k2 as int).filter(ot_pred) + seq![ps[k2 as int]]));
            } else {
                assert(lts + ps.take(k2 as int).filter(ot_pred) =~= lts + (ps.take(
                    k2 as int,
                ).filter(ot_pred) + Seq::<GenericParamV>::empty()));
            }
        }
        k2 = k2 + 1;
    }
    assert(ord.deep_view() == reorder_params(ps));
    let ghost rord = reorder_params(ps);
    let ghost rendered = rord.map_values(
        |p: GenericParamV|
            if type_pos {
                type_param(p)
            } else {
                impl_param(p)
            },
    );
    push_t(out, punct('<', false));
    let m = ord.len();
    let mut j: usize = 0;
    while j < m
        invariant
            j <= m,
            j == 0 ==> out.deep_view() == base + seq![pv('<')],
            j >= 1 ==> out.deep_view() == base + seq![pv('<')] + join_comma(
                rendered.take(j as int),
            ),
        decreases m - j,
    {
        let ghost before = out.deep_view();
        if j > 0 {
            push_t(out, punct(',', false));
        }
        emit_param(out, ord[j], type_pos);
        proof {
            assert(rendered[j as int] == (if type_pos {
                type_param(rord[j as int])
            } else {
                impl_param(rord[j as int])
            }));
            if j == 0 {
                assert(rendered.take(1) =~= seq![rendered[0]]);
                assert(join_comma(rendered.take(1)) == rendered[0]);
                assert(out.deep_view() =~= base + seq![pv('<')] + rendered[0]);
            } else {
                lemma_join_comma_take(rendered, j as int);
                assert(out.deep_view() =~= (base + seq![pv('<')]) + (join_comma(
                    rendered.take(j as int),
                ) + seq![pv(',')] + rendered[j as int]));
                assert((base + seq![pv('<')]) + (join_comma(rendered.take(j as int)) + seq![
                    pv(','),
                ] + rendered[j as int]) =~= base + seq![pv('<')] + join_comma(
                    rendered.take(j as int + 1),
                ));
            }
        }
        j = j + 1;
    }
    assert(rendered.take(m as int) =~= rendered);
    push_t(out, punct('>', false));
    assert(out.deep_view() =~= base + generics_toks(g.deep_view(), type_pos));
}


/// Appends the head of one accessor implementation.
fn emit_head(out: &mut Vec<Tok>, m: &IndexMacro, mutable: bool)
    ensures
        final(out).deep_view() == old(out).deep_view() + accessor_head(m.deep_view(), mutable),
{
    let ghost base = out.deep_view();
    emit_attr(out, "automatically_derived");
    push_t(out, ident("impl"));
    emit_generics(out, &m.generics, false);
    emit_path_sep(out);
    push_t(out, ident("core"));
    emit_path_sep(out);
    push_t(out, ident("ops"));
    emit_path_sep(out);
    if mutable {
        push_t(out, ident("IndexMut"));
    } else {
        push_t(out, ident("Index"));
    }
    push_t(out, punct('<', false));
    extend_copy(out, &m.idx_by);
    push_t(out, punct('>', false));
    push_t(out, ident("for"));
    extend_copy(out, &m.impl_for);
    emit_generics(out, &m.generics, true);
    push_t(out, Tok::Open(Delim::Brace));
    assert(out.deep_view() =~= base + accessor_head(m.deep_view(), mutable));
}

/// Appends the accessor implementation's items before its function.
fn emit_mid_items(out: &mut Vec<Tok>, m: &IndexMacro, mutable: bool)
    ensures
        final(out).deep_view() == old(out).deep_view() + mid_items(m.deep_view(), mutable),
{
    let ghost base = out.deep_view();
    if !mutable {
        push_t(out, ident("type"));
        push_t(out, ident("Output"));
        push_t(out, punct('=', false));
        extend_copy(out, &m.output);
        push_t(out, punct(';', false));
    }
    if m.pairings.len() < 3 {
        emit_attr(out, "inline");
    }
    assert(out.deep_view() =~= base + mid_items(m.deep_view(), mutable));
}

/// Appends the accessor function's signature and the opening of its
/// dispatch.
#[verifier::rlimit(80)]
fn emit_mid_sig(out: &mut Vec<Tok>, m: &IndexMacro, mutable: bool)
    ensures
        final(out).deep_view() == old(out).deep_view() + mid_sig(m.deep_view(), mutable),
{
    let ghost base = out.deep_view();
    push_t(out, ident("fn"));
    if mutable {
        push_t(out, ident("index_mut"));
    } else {
        push_t(out, ident("index"));
    }
    push_t(out, Tok::Open(Delim::Paren));
    push_t(out, punct('&', false));
    if mutable {
        push_t(out, ident("mut"));
    }
    push_t(out, ident("self"));
    push_t(out, punct(',', false));
    push_t(out, ident("index_macro_derived_index_input"));
    push_t(out, punct(':', false));
    extend_copy(out, &m.idx_by);
    push_t(out, Tok::Close(Delim::Paren));
    push_t(out, punct('-', true));
    push_t(out, punct('>', false));
    push_t(out, punct('&', false));
    if mutable {
        push_t(out, ident("mut"));
    }
    push_t(out, ident("Self"));
    emit_path_sep(out);
    push_t(out, ident("Output"));
    push_t(out, Tok::Open(Delim::Brace));
    push_t(out, ident("match"));
    push_t(out, ident("index_macro_derived_index_input"));
    push_t(out, Tok::Open(Delim::Brace));
    assert(out.deep_view() =~= base + mid_sig(m.deep_view(), mutable));
}

/// Appends the middle of one accessor implementation.
fn emit_mid(out: &mut Vec<Tok>, m: &IndexMacro, mutable: bool)
    ensures
        final(out).deep_view() == old(out).deep_view() + accessor_mid(m.deep_view(), mutable),
{
    let ghost base = out.deep_view();
    emit_mid_items(out, m, mutable);
    emit_mid_sig(out, m, mutable);
    assert(out.deep_view() =~= base + accessor_mid(m.deep_view(), mutable));
}

/// Appends all dispatch arms, one per pairing in input order.
fn emit_arms(out: &mut Vec<Tok>, m: &IndexMacro, mutable: bool)
    ensures
        final(out).deep_view() == old(out).deep_view() + arms_spec(
            m.pairings.deep_view(),
            m.idx_by.deep_view(),
            mutable,
        ),
{
    let ghost base = out.deep_view();
    let ghost ps = m.pairings.deep_view();
    let ghost idx = m.idx_by.deep_view();
    let ghost rendered = ps.map_values(|p: PairingV| arm_spec(p, idx, mutable));
    let n = m.pairings.len();
    let mut j: usize = 0;
    while j < n
        invariant
            j <= n,
            n == m.pairings@.len(),
            ps == m.pairings.deep_view(),
            idx == m.idx_by.deep_view(),
            rendered == ps.map_values(|p: PairingV| arm_spec(p, idx, mutable)),
            ps.len() == n,
            j == 0 ==> out.deep_view() == base,
            j >= 1 ==> out.deep_view() == base + join_comma(rendered.take(j as int)),
        decreases n - j,
    {
        let ghost before = out.deep_view();
        if j > 0 {
            push_t(out, punct(',', false));
        }
        let ip = IndexedPairing { pairing: &m.pairings[j], idx_by: &m.idx_by, mut_ref: mutable };
        ip.to_tokens(out);
        proof {
            assert(rendered[j as int] == arm_spec(ps[j as int], idx, mutable));
            if j == 0 {
                assert(rendered.take(1) =~= seq![rendered[0]]);
                assert(join_comma(rendered.take(1)) == rendered[0]);
                assert(out.deep_view() =~= base + join_comma(rendered.take(1)));
            } else {
                lemma_join_comma_take(rendered, j as int);
                assert(out.deep_view() =~= base + join_comma(rendered.take(j as int + 1)));
            }
        }
        j = j + 1;
    }
    proof {
        if n == 0 {
            assert(rendered.len() == 0);
            assert(join_comma(rendered) == Seq::<TokV>::empty());
            assert(out.deep_view() =~= base + join_comma(rendered));
        } else {
            assert(rendered.take(n as int) =~= rendered);
        }
    }
    assert(out.deep_view() =~= base + arms_spec(ps, idx, mutable));
}

/// Appends one whole accessor implementation.
fn emit_accessor(out: &mut Vec<Tok>, m: &IndexMacro, mutable: bool)
    ensures
        final(out).deep_view() == old(out).deep_view() + accessor_spec(m.deep_view(), mutable),
{
    let ghost base = out.deep_view();
    emit_head(out, m, mutable);
    emit_mid(out, m, mutable);
    emit_arms(out, m, mutable);
    push_t(out, Tok::Close(Delim::Brace));
    push_t(out, Tok::Close(Delim::Brace));
    push_t(out, Tok::Close(Delim::Brace));
    assert(out.deep_view() =~= base + accessor_spec(m.deep_view(), mutable));
}

impl IndexMacro {
    /// Emits the whole output: the read accessor and, when the mutable flag
    /// is set, the mutable accessor after it.
    pub fn into_token_stream(&self) -> (r: Vec<Tok>)
        ensures
            r.deep_view() == emit_spec(self.deep_view()),
    {
        let mut out: Vec<Tok> = Vec::new();
        assert(out.deep_view() =~= Seq::<TokV>::empty());
        emit_accessor(&mut out, self, false);
        if self.impl_mut {
            emit_accessor(&mut out, self, true);
        }
        assert(out.deep_view() =~= emit_spec(self.deep_view()));
        out
    }
}


/// With the mutable flag unset, exactly the read accessor is emitted; with
/// it set, the read accessor followed by the mutable accessor. The two
/// dispatches render the same pairings in the same order: per arm, the
/// mutable rendering differs from the read rendering only by the single
/// `mut` token after the reference operator.
pub proof fn lemma_accessor_count(m: IndexMacroV)
    ensures
        !m.impl_mut ==> emit_spec(m) == accessor_spec(m, false),
        m.impl_mut ==> emit_spec(m) == accessor_spec(m, false) + accessor_spec(m, true),
        forall|k: int|
            0 <= k < m.pairings.len() ==> #[trigger] arm_spec(m.pairings[k], m.idx_by, true)
                == arm_matcher(m.pairings[k].enum_variant, m.idx_by) + fat_arrow_toks() + seq![
                pj('&'),
            ] + seq![idv("mut"@)] + arm_tail(m.pairings[k]),
        forall|k: int|
            0 <= k < m.pairings.len() ==> #[trigger] arm_spec(m.pairings[k], m.idx_by, false)
                == arm_matcher(m.pairings[k].enum_variant, m.idx_by) + fat_arrow_toks() + seq![
                pj('&'),
            ] + arm_tail(m.pairings[k]),
{
    if !m.impl_mut {
        assert(emit_spec(m) =~= accessor_spec(m, false));
    }
    assert forall|k: int| 0 <= k < m.pairings.len() implies #[trigger] arm_spec(
        m.pairings[k],
        m.idx_by,
        true,
    ) == arm_matcher(m.pairings[k].enum_variant, m.idx_by) + fat_arrow_toks() + seq![pj('&')]
        + seq![idv("mut"@)] + arm_tail(m.pairings[k]) by {
        assert(arm_spec(m.pairings[k], m.idx_by, true) =~= arm_matcher(
            m.pairings[k].enum_variant,
            m.idx_by,
        ) + fat_arrow_toks() + seq![pj('&')] + seq![idv("mut"@)] + arm_tail(m.pairings[k]));
    }
    assert forall|k: int| 0 <= k < m.pairings.len() implies #[trigger] arm_spec(
        m.pairings[k],
        m.idx_by,
        false,
    ) == arm_matcher(m.pairings[k].enum_variant, m.idx_by) + fat_arrow_toks() + seq![pj('&')]
        + arm_tail(m.pairings[k]) by {
        assert(arm_spec(m.pairings[k], m.idx_by, false) =~= arm_matcher(
            m.pairings[k].enum_variant,
            m.idx_by,
        ) + fat_arrow_toks() + seq![pj('&')] + arm_tail(m.pairings[k]));
    }
}

/// The dispatch renders the pairings in input order: the arm sequence is the
/// comma-join of the arm renderings mapped over the pairings, and the `k`-th
/// fragment of that map is the rendering of the `k`-th pairing.
pub proof fn lemma_arm_order(ps: Seq<PairingV>, idx_by: Seq<TokV>, mutable: bool)
    ensures
        arms_spec(ps, idx_by, mutable) == join_comma(
            ps.map_values(|p: PairingV| arm_spec(p, idx_by, mutable)),
        ),
        forall|k: int|
            0 <= k < ps.len() ==> ps.map_values(|p: PairingV| arm_spec(p, idx_by, mutable))[k]
                == arm_spec(ps[k], idx_by, mutable),
{
}

/// Two pairings over the same structural shape, the first one guarded: the
/// emitted dispatch holds the guarded arm first, its guard rendered between
/// the pattern and the `=>`, and the fallback arm after the separating
/// comma. Under the first-match-wins semantics of the emitted dispatch, a
/// key value whose guard evaluates false is routed to the fallback arm; the
/// evaluation itself happens in the compiled accessor, outside this library.
pub proof fn lemma_guard_fallback(
    p1: PairingV,
    p2: PairingV,
    idx_by: Seq<TokV>,
    mutable: bool,
    pat: PatternV,
    g: Seq<TokV>,
)
    requires
        p1.enum_variant == MaybeIdentV::<PatternV>::Other(pat),
        pat.guard == Some(g),
    ensures
        arms_spec(seq![p1, p2], idx_by, mutable) == arm_spec(p1, idx_by, mutable) + seq![pv(',')]
            + arm_spec(p2, idx_by, mutable),
        arm_spec(p1, idx_by, mutable) == pat.pat + seq![idv("if"@)] + g + fat_arrow_toks() + seq![
            pj('&'),
        ] + (if mutable {
            seq![idv("mut"@)]
        } else {
            Seq::<TokV>::empty()
        }) + arm_tail(p1),
{
    let xs = seq![p1, p2].map_values(|p: PairingV| arm_spec(p, idx_by, mutable));
    assert(xs.len() == 2);
    assert(xs[0] == arm_spec(p1, idx_by, mutable));
    assert(xs[1] == arm_spec(p2, idx_by, mutable));
    assert(xs.drop_first() =~= seq![arm_spec(p2, idx_by, mutable)]);
    assert(join_comma(xs.drop_first()) == arm_spec(p2, idx_by, mutable));
    assert(join_comma(xs) == xs[0] + seq![pv(',')] + join_comma(xs.drop_first()));
    assert(arm_spec(p1, idx_by, mutable) =~= pat.pat + seq![idv("if"@)] + g + fat_arrow_toks()
        + seq![pj('&')] + (if mutable {
        seq![idv("mut"@)]
    } else {
        Seq::<TokV>::empty()
    }) + arm_tail(p1));
}

/// Emission is a total, deterministic function of the specification alone:
/// emitting twice from the same specification value gives the same token
/// sequence.
pub proof fn lemma_emit_deterministic(a: IndexMacroV, b: IndexMacroV)
    requires
        a == b,
    ensures
        emit_spec(a) == emit_spec(b),
{
}

} // verus!



