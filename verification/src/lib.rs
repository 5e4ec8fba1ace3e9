//! Generates `::core::ops::Index` / `::core::ops::IndexMut` accessor
//! implementations from a declarative pairing of key-type matchers with
//! storage locations of a record type.
//!
//! The library works on a flat stream of tokens ([`Tok`]): the parser turns
//! such a stream into an [`IndexMacro`] specification, and the emitter turns
//! the specification into the token stream of one accessor implementation
//! (or two, when a mutable accessor is requested). The [`index`] function is
//! the whole pipeline. An enclosing build step supplies the input tokens and
//! splices the output back into the program text.

use vstd::prelude::*;

pub mod parse;
pub mod tokenise;

verus! {

/// Delimiter of a bracketed token group: `(...)`, `[...]` or `{...}`.
#[derive(Clone, Copy, Debug, PartialEq, Eq, Structural)]
pub enum Delim {
    Paren,
    Bracket,
    Brace,
}

/// One token of the flat stream the library works on.
///
/// Groups are kept flat: a bracketed group appears as an `Open` token, the
/// tokens inside it, and a matching `Close` token.
#[derive(Debug, PartialEq, Eq)]
pub enum Tok {
    /// A word: an identifier or a keyword.
    Ident(String),
    /// One punctuation character; the flag is true when the character is
    /// joined to the following token with no space (so `=>` arrives as
    /// `Punct('=', true)` followed by `Punct('>', false)`).
    Punct(char, bool),
    /// A literal, held as its verbatim text.
    Lit(String),
    /// Opening delimiter of a group.
    Open(Delim),
    /// Closing delimiter of a group.
    Close(Delim),
}

/// The mathematical value of a token: word tokens carry their text as a
/// character sequence.
pub enum TokV {
    Ident(Seq<char>),
    Punct(char, bool),
    Lit(Seq<char>),
    Open(Delim),
    Close(Delim),
}

impl DeepView for Tok {
    type V = TokV;

    open spec fn deep_view(&self) -> TokV {
        match self {
            Tok::Ident(s) => TokV::Ident(s.deep_view()),
            Tok::Punct(c, j) => TokV::Punct(*c, *j),
            Tok::Lit(s) => TokV::Lit(s.deep_view()),
            Tok::Open(d) => TokV::Open(*d),
            Tok::Close(d) => TokV::Close(*d),
        }
    }
}

/// Does token `t` hold exactly the word `kw`?
pub open spec fn is_word(t: TokV, kw: Seq<char>) -> bool {
    match t {
        TokV::Ident(s) => s == kw,
        _ => false,
    }
}

/// Exec test of [`is_word`].
pub fn tok_is_word(t: &Tok, kw: &str) -> (r: bool)
    ensures
        r == is_word(t.deep_view(), kw@),
{
    match t {
        Tok::Ident(s) => {
            let k = kw.to_owned();
            *s == k
        },
        _ => false,
    }
}

/// Builds an identifier token from a word.
pub fn ident(name: &str) -> (t: Tok)
    ensures
        t.deep_view() == TokV::Ident(name@),
{
    Tok::Ident(name.to_owned())
}

/// Builds a punctuation token.
pub fn punct(c: char, joint: bool) -> (t: Tok)
    ensures
        t.deep_view() == TokV::Punct(c, joint),
{
    Tok::Punct(c, joint)
}

/// Builds a literal token from its verbatim text.
pub fn lit(text: &str) -> (t: Tok)
    ensures
        t.deep_view() == TokV::Lit(text@),
{
    Tok::Lit(text.to_owned())
}

/// Pushes a copy of one token, extending the stream's value by the token's.
pub fn push_copy(out: &mut Vec<Tok>, t: &Tok)
    ensures
        final(out).deep_view() == old(out).deep_view().push(t.deep_view()),
{
    let ghost before = out.deep_view();
    let c = match t {
        Tok::Ident(s) => Tok::Ident(s.clone()),
        Tok::Punct(ch, j) => Tok::Punct(*ch, *j),
        Tok::Lit(s) => Tok::Lit(s.clone()),
        Tok::Open(d) => Tok::Open(*d),
        Tok::Close(d) => Tok::Close(*d),
    };
    assert(c.deep_view() == t.deep_view());
    out.push(c);
    assert(out.deep_view() =~= before.push(t.deep_view()));
}

/// Copies the token range `[a, b)` out of a stream.
pub fn sub_toks(toks: &Vec<Tok>, a: usize, b: usize) -> (v: Vec<Tok>)
    requires
        a <= b <= toks@.len(),
    ensures
        v.deep_view() == toks.deep_view().subrange(a as int, b as int),
{
    let mut v: Vec<Tok> = Vec::new();
    assert(v.deep_view() =~= toks.deep_view().subrange(a as int, a as int));
    let mut j: usize = a;
    while j < b
        invariant
            a <= j <= b <= toks@.len(),
            v.deep_view() == toks.deep_view().subrange(a as int, j as int),
        decreases b - j,
    {
        push_copy(&mut v, &toks[j]);
        assert(toks.deep_view()[j as int] == toks@[j as int].deep_view());
        assert(v.deep_view() =~= toks.deep_view().subrange(a as int, j + 1 as int));
        j = j + 1;
    }
    v
}

/// A key matcher or a storage selector: either the shorthand form (a bare
/// identifier) or the full form introduced by the soft keyword `pat`.
#[derive(Debug, PartialEq, Eq)]
pub enum MaybeIdent<Other> {
    /// Shorthand: a single named tag of the key type, or a single field name
    /// of the target record.
    Ident(String),
    /// Full form: a structural pattern (for keys) or an arbitrary expression
    /// (for selectors).
    Other(Other),
}

/// Value of a [`MaybeIdent`].
pub enum MaybeIdentV<OtherV> {
    Ident(Seq<char>),
    Other(OtherV),
}

impl<Other: DeepView> DeepView for MaybeIdent<Other> {
    type V = MaybeIdentV<Other::V>;

    open spec fn deep_view(&self) -> MaybeIdentV<Other::V> {
        match self {
            MaybeIdent::Ident(s) => MaybeIdentV::Ident(s.deep_view()),
            MaybeIdent::Other(o) => MaybeIdentV::Other(o.deep_view()),
        }
    }
}

/// A structural matcher over the key type plus an optional boolean guard,
/// both held as verbatim token fragments.
#[derive(Debug, PartialEq, Eq)]
pub struct Pattern {
    /// The structural pattern tokens.
    pub pat: Vec<Tok>,
    /// The guard expression tokens, when an `if` guard follows the pattern.
    pub guard: Option<Vec<Tok>>,
}

/// Value of a [`Pattern`].
pub struct PatternV {
    pub pat: Seq<TokV>,
    pub guard: Option<Seq<TokV>>,
}

impl DeepView for Pattern {
    type V = PatternV;

    open spec fn deep_view(&self) -> PatternV {
        PatternV { pat: self.pat.deep_view(), guard: self.guard.deep_view() }
    }
}

/// One correspondence between a key matcher and a storage selector.
#[derive(Debug, PartialEq, Eq)]
pub struct Pairing {
    /// What the key value must match.
    pub enum_variant: MaybeIdent<Pattern>,
    /// Where the matched value is stored on the target record.
    pub struct_field: MaybeIdent<Vec<Tok>>,
}

/// Value of a [`Pairing`].
pub struct PairingV {
    pub enum_variant: MaybeIdentV<PatternV>,
    pub struct_field: MaybeIdentV<Seq<TokV>>,
}

impl DeepView for Pairing {
    type V = PairingV;

    open spec fn deep_view(&self) -> PairingV {
        PairingV {
            enum_variant: self.enum_variant.deep_view(),
            struct_field: self.struct_field.deep_view(),
        }
    }
}

/// The kind of one generic parameter.
#[derive(Clone, Copy, Debug, PartialEq, Eq, Structural)]
pub enum GpKind {
    Lifetime,
    Type,
    Const,
}

/// One declared generic parameter of the invocation.
#[derive(Debug, PartialEq, Eq)]
pub struct GenericParam {
    pub kind: GpKind,
    /// The parameter's name (without the `'` of a lifetime).
    pub name: String,
    /// The type of a `const` parameter; empty for the other kinds.
    pub const_ty: Vec<Tok>,
    /// The bounds following a `:`, when declared.
    pub bounds: Option<Vec<Tok>>,
    /// The default following a `=`, when declared. Defaults are dropped from
    /// the emitted accessor headers.
    pub default: Option<Vec<Tok>>,
}

/// Value of a [`GenericParam`].
pub struct GenericParamV {
    pub kind: GpKind,
    pub name: Seq<char>,
    pub const_ty: Seq<TokV>,
    pub bounds: Option<Seq<TokV>>,
    pub default: Option<Seq<TokV>>,
}

impl DeepView for GenericParam {
    type V = GenericParamV;

    open spec fn deep_view(&self) -> GenericParamV {
        GenericParamV {
            kind: self.kind,
            name: self.name.deep_view(),
            const_ty: self.const_ty.deep_view(),
            bounds: self.bounds.deep_view(),
            default: self.default.deep_view(),
        }
    }
}

/// The generic-parameter list of the invocation, in declaration order.
#[derive(Debug, PartialEq, Eq)]
pub struct Generics {
    pub params: Vec<GenericParam>,
}

/// Value of a [`Generics`].
pub struct GenericsV {
    pub params: Seq<GenericParamV>,
}

impl DeepView for Generics {
    type V = GenericsV;

    open spec fn deep_view(&self) -> GenericsV {
        GenericsV { params: self.params.deep_view() }
    }
}

/// The parsed invocation: one specification of the accessors to emit.
#[derive(Debug, PartialEq, Eq)]
pub struct IndexMacro {
    /// Whether a mutable accessor is produced besides the read accessor.
    pub impl_mut: bool,
    /// The generic-parameter list, when one is declared.
    pub generics: Option<Generics>,
    /// The target record type, as verbatim tokens.
    pub impl_for: Vec<Tok>,
    /// The key (discriminant) type, as verbatim tokens.
    pub idx_by: Vec<Tok>,
    /// The output (storage element) type shared by every accessor.
    pub output: Vec<Tok>,
    /// The pairings, in input order; the order becomes match-arm order.
    pub pairings: Vec<Pairing>,
}

/// Value of an [`IndexMacro`].
pub struct IndexMacroV {
    pub impl_mut: bool,
    pub generics: Option<GenericsV>,
    pub impl_for: Seq<TokV>,
    pub idx_by: Seq<TokV>,
    pub output: Seq<TokV>,
    pub pairings: Seq<PairingV>,
}

impl DeepView for IndexMacro {
    type V = IndexMacroV;

    open spec fn deep_view(&self) -> IndexMacroV {
        IndexMacroV {
            impl_mut: self.impl_mut,
            generics: self.generics.deep_view(),
            impl_for: self.impl_for.deep_view(),
            idx_by: self.idx_by.deep_view(),
            output: self.output.deep_view(),
            pairings: self.pairings.deep_view(),
        }
    }
}

/// The one failure of the pipeline: the input does not match the grammar.
/// `pos` is the index of the offending token in the input stream (the input
/// length when the stream ended too early).
#[derive(Clone, Copy, Debug, PartialEq, Eq, Structural)]
pub struct SyntaxError {
    pub pos: usize,
}

/// The whole pipeline: parse the invocation tokens and emit the accessor
/// tokens, or fail with the single positioned syntax error.
pub fn index(input: &Vec<Tok>) -> (r: Result<Vec<Tok>, SyntaxError>)
    ensures
        match r {
            Ok(out) => {
                &&& parse::spec_parse(input.deep_view()) matches Ok(m)
                &&& out.deep_view() == tokenise::emit_spec(
                    parse::spec_parse(input.deep_view())->Ok_0,
                )
            },
            Err(e) => parse::spec_parse(input.deep_view()) == Err::<IndexMacroV, int>(
                e.pos as int,
            ),
        },
{
    match IndexMacro::parse(input) {
        Ok(m) => Ok(m.into_token_stream()),
        Err(e) => Err(e),
    }
}

} // verus!

