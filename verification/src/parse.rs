//! The parser: turns a flat token stream into an [`IndexMacro`]
//! specification, or fails atomically with one positioned syntax error.
//!
//! The grammar is
//!
//! ```text
//! invocation       := [generics] target_type 'by' key_type '=>' ['mut'] output_type ':' pairing_list
//! pairing_list     := pairing (',' pairing)* [',']
//! pairing          := key_matcher '=>' storage_selector
//! key_matcher      := identifier | 'pat' pattern ['if' guard_expr]
//! storage_selector := identifier | 'pat' expression
//! ```
//!
//! `by`, `pat`, `mut` and `if` are soft keywords: they are recognised only by
//! their exact word at the expected position. Nested type, pattern and
//! expression fragments are taken verbatim: a fragment extends to the first
//! terminator of its production that stands outside every group (and, for
//! type fragments, outside every `<`...`>` nesting); what the fragment means
//! is left to the compiler of the emitted code. A leading `<` is ambiguous
//! between a generic-parameter list and a qualified type; a speculative parse
//! of the parameter list decides, and rolls back when it fails.

use vstd::prelude::*;

use crate::{
    GenericParam, GenericParamV, Generics, GenericsV, GpKind, IndexMacro, IndexMacroV,
    MaybeIdent, MaybeIdentV, Pairing, PairingV, Pattern, PatternV, SyntaxError, Tok, TokV,
    is_word, sub_toks, tok_is_word,
};

verus! {

/// A fat arrow `=>` stands at `i`: `=` joined directly to a following `>`.
pub open spec fn fat_arrow_at(s: Seq<TokV>, i: int) -> bool {
    &&& 0 <= i && i + 1 < s.len()
    &&& s[i] == TokV::Punct('=', true)
    &&& match s[i + 1] {
        TokV::Punct(c, _) => c == '>',
        _ => false,
    }
}

/// A path separator `::` stands at `i`.
pub open spec fn path_sep_at(s: Seq<TokV>, i: int) -> bool {
    &&& 0 <= i && i + 1 < s.len()
    &&& s[i] == TokV::Punct(':', true)
    &&& match s[i + 1] {
        TokV::Punct(c, _) => c == ':',
        _ => false,
    }
}

/// A thin arrow `->` stands at `i`.
pub open spec fn thin_arrow_at(s: Seq<TokV>, i: int) -> bool {
    &&& 0 <= i && i + 1 < s.len()
    &&& s[i] == TokV::Punct('-', true)
    &&& match s[i + 1] {
        TokV::Punct(c, _) => c == '>',
        _ => false,
    }
}

/// A lifetime (`'` joined to a word) stands at `i`.
pub open spec fn lifetime_at(s: Seq<TokV>, i: int) -> bool {
    &&& 0 <= i && i + 1 < s.len()
    &&& s[i] == TokV::Punct('\'', true)
    &&& match s[i + 1] {
        TokV::Ident(_) => true,
        _ => false,
    }
}

/// A single colon (one that does not open a `::`) stands at `i`.
pub open spec fn single_colon_at(s: Seq<TokV>, i: int) -> bool {
    &&& 0 <= i && i < s.len()
    &&& match s[i] {
        TokV::Punct(c, _) => c == ':',
        _ => false,
    }
    &&& !path_sep_at(s, i)
}

/// A single equals sign (one that opens neither `==` nor `=>`) stands at `i`.
pub open spec fn single_eq_at(s: Seq<TokV>, i: int) -> bool {
    &&& 0 <= i && i < s.len()
    &&& match s[i] {
        TokV::Punct(c, j) => c == '=' && !(j && i + 1 < s.len() && match s[i + 1] {
            TokV::Punct(c2, _) => c2 == '=' || c2 == '>',
            _ => false,
        }),
        _ => false,
    }
}

/// Which terminators stop a fragment scan, and whether `<`...`>` nest.
#[derive(Clone, Copy, Debug, PartialEq, Eq, Structural)]
pub struct ScanCfg {
    /// Track `<`/`>` nesting (type position); terminators count only at
    /// nesting depth zero.
    pub angles: bool,
    /// Stop at the soft keyword `by`.
    pub kw_by: bool,
    /// Stop at the keyword `if`.
    pub kw_if: bool,
    /// Stop at a fat arrow `=>`.
    pub fat_arrow: bool,
    /// Stop at a single `:`.
    pub colon: bool,
    /// Stop at a `,`.
    pub comma: bool,
    /// Stop at a `>`.
    pub gt: bool,
    /// Stop at a single `=`.
    pub eq: bool,
}

/// Does a terminator of `cfg` stand at position `i`?
pub open spec fn stops_at(s: Seq<TokV>, i: int, cfg: ScanCfg) -> bool {
    ||| (cfg.kw_by && is_word(s[i], "by"@))
    ||| (cfg.kw_if && is_word(s[i], "if"@))
    ||| (cfg.fat_arrow && fat_arrow_at(s, i))
    ||| (cfg.colon && single_colon_at(s, i))
    ||| (cfg.comma && match s[i] {
        TokV::Punct(c, _) => c == ',',
        _ => false,
    })
    ||| (cfg.gt && match s[i] {
        TokV::Punct(c, _) => c == '>',
        _ => false,
    })
    ||| (cfg.eq && single_eq_at(s, i))
}

/// How a fragment scan ended: at a terminator, at the clean end of the
/// input, or at a token that cannot be scanned over (a closing delimiter
/// with no opening one, or the end of the input inside a group).
#[derive(Clone, Copy, Debug, PartialEq, Eq, Structural)]
pub enum ScanEnd {
    /// The first terminator stands at this index.
    Hit(usize),
    /// The input ended, outside every group, without a terminator.
    End,
    /// The scan failed at this index.
    Fail(usize),
}

/// The fragment scan: from `i`, with `gd` open groups and `ad` open angle
/// brackets, find the first terminator of `cfg` standing outside every group
/// and angle nesting. When `first` is set the terminator test is skipped for
/// the token at `i` itself (a fragment that must take at least one token).
/// Lifetimes, `::` path steps (with their following segment word), `->` and
/// a non-terminator `=>` are stepped over as units, so that their characters
/// are never mistaken for terminators or angle brackets.
pub open spec fn spec_scan(s: Seq<TokV>, i: int, cfg: ScanCfg, gd: nat, ad: nat, first: bool) -> ScanEnd
    decreases s.len() - i,
{
    if i < 0 || i >= s.len() {
        if gd == 0 {
            ScanEnd::End
        } else {
            ScanEnd::Fail(s.len() as usize)
        }
    } else if !first && gd == 0 && ad == 0 && stops_at(s, i, cfg) {
        ScanEnd::Hit(i as usize)
    } else if lifetime_at(s, i) {
        spec_scan(s, i + 2, cfg, gd, ad, false)
    } else if path_sep_at(s, i) {
        if i + 2 < s.len() && (s[i + 2] matches TokV::Ident(_)) {
            spec_scan(s, i + 3, cfg, gd, ad, false)
        } else {
            spec_scan(s, i + 2, cfg, gd, ad, false)
        }
    } else if thin_arrow_at(s, i) || fat_arrow_at(s, i) {
        spec_scan(s, i + 2, cfg, gd, ad, false)
    } else {
        match s[i] {
            TokV::Open(_) => spec_scan(s, i + 1, cfg, gd + 1, ad, false),
            TokV::Close(_) => if gd > 0 {
                spec_scan(s, i + 1, cfg, (gd - 1) as nat, ad, false)
            } else {
                ScanEnd::Fail(i as usize)
            },
            TokV::Punct(c, _) => if c == '<' && gd == 0 && cfg.angles {
                spec_scan(s, i + 1, cfg, gd, ad + 1, false)
            } else if c == '>' && gd == 0 && cfg.angles && ad > 0 {
                spec_scan(s, i + 1, cfg, gd, (ad - 1) as nat, false)
            } else {
                spec_scan(s, i + 1, cfg, gd, ad, false)
            },
            _ => spec_scan(s, i + 1, cfg, gd, ad, false),
        }
    }
}

/// Where a scan can end: a terminator index lies in `[i, len)` (strictly
/// past `i` when the first token is skipped), a failure index in `[i, len]`.
pub proof fn lemma_scan_range(s: Seq<TokV>, i: int, cfg: ScanCfg, gd: nat, ad: nat, first: bool)
    requires
        0 <= i <= s.len(),
        s.len() <= usize::MAX,
    ensures
        match spec_scan(s, i, cfg, gd, ad, first) {
            ScanEnd::Hit(j) => i <= j < s.len() && (first ==> i < j) && stops_at(s, j as int, cfg),
            ScanEnd::End => true,
            ScanEnd::Fail(q) => i <= q <= s.len(),
        },
    decreases s.len() - i,
{
    if i < s.len() {
        if !first && gd == 0 && ad == 0 && stops_at(s, i, cfg) {
        } else if lifetime_at(s, i) {
            lemma_scan_range(s, i + 2, cfg, gd, ad, false);
        } else if path_sep_at(s, i) {
            if i + 2 < s.len() && (s[i + 2] matches TokV::Ident(_)) {
                lemma_scan_range(s, i + 3, cfg, gd, ad, false);
            } else {
                lemma_scan_range(s, i + 2, cfg, gd, ad, false);
            }
        } else if thin_arrow_at(s, i) || fat_arrow_at(s, i) {
            lemma_scan_range(s, i + 2, cfg, gd, ad, false);
        } else {
            match s[i] {
                TokV::Open(_) => lemma_scan_range(s, i + 1, cfg, gd + 1, ad, false),
                TokV::Close(_) => if gd > 0 {
                    lemma_scan_range(s, i + 1, cfg, (gd - 1) as nat, ad, false);
                },
                TokV::Punct(c, _) => if c == '<' && gd == 0 && cfg.angles {
                    lemma_scan_range(s, i + 1, cfg, gd, ad + 1, false);
                } else if c == '>' && gd == 0 && cfg.angles && ad > 0 {
                    lemma_scan_range(s, i + 1, cfg, gd, (ad - 1) as nat, false);
                } else {
                    lemma_scan_range(s, i + 1, cfg, gd, ad, false);
                },
                _ => lemma_scan_range(s, i + 1, cfg, gd, ad, false),
            }
        }
    }
}

/// Exec test: does the punct char `c` stand at `i` (any spacing)?
fn punct_char_at(toks: &Vec<Tok>, i: usize, c: char) -> (r: bool)
    requires
        i < toks@.len(),
    ensures
        r == match toks.deep_view()[i as int] {
            TokV::Punct(c2, _) => c2 == c,
            _ => false,
        },
{
    match &toks[i] {
        Tok::Punct(c2, _) => *c2 == c,
        _ => false,
    }
}

/// Exec test: a joined punct `c` at `i` directly followed by a punct that
/// satisfies the second character of the pair.
fn pair_at(toks: &Vec<Tok>, i: usize, c1: char, c2: char) -> (r: bool)
    requires
        i < toks@.len(),
    ensures
        c1 == '=' && c2 == '>' ==> r == fat_arrow_at(toks.deep_view(), i as int),
        c1 == ':' && c2 == ':' ==> r == path_sep_at(toks.deep_view(), i as int),
        c1 == '-' && c2 == '>' ==> r == thin_arrow_at(toks.deep_view(), i as int),
{
    match &toks[i] {
        Tok::Punct(ca, j) => {
            if *ca == c1 && *j && i < toks.len() - 1 {
                match &toks[i + 1] {
                    Tok::Punct(cb, _) => *cb == c2,
                    _ => false,
                }
            } else {
                false
            }
        },
        _ => false,
    }
}

/// Exec test of [`lifetime_at`].
fn exec_lifetime_at(toks: &Vec<Tok>, i: usize) -> (r: bool)
    requires
        i < toks@.len(),
    ensures
        r == lifetime_at(toks.deep_view(), i as int),
{
    match &toks[i] {
        Tok::Punct(ca, j) => {
            if *ca == '\'' && *j && i < toks.len() - 1 {
                match &toks[i + 1] {
                    Tok::Ident(_) => true,
                    _ => false,
                }
            } else {
                false
            }
        },
        _ => false,
    }
}

/// Exec test of [`single_colon_at`].
fn exec_single_colon_at(toks: &Vec<Tok>, i: usize) -> (r: bool)
    requires
        i < toks@.len(),
    ensures
        r == single_colon_at(toks.deep_view(), i as int),
{
    punct_char_at(toks, i, ':') && !pair_at(toks, i, ':', ':')
}

/// Exec test of [`single_eq_at`].
fn exec_single_eq_at(toks: &Vec<Tok>, i: usize) -> (r: bool)
    requires
        i < toks@.len(),
    ensures
        r == single_eq_at(toks.deep_view(), i as int),
{
    match &toks[i] {
        Tok::Punct(ca, j) => {
            if *ca != '=' {
                false
            } else if *j && i < toks.len() - 1 {
                match &toks[i + 1] {
                    Tok::Punct(cb, _) => !(*cb == '=' || *cb == '>'),
                    _ => true,
                }
            } else {
                true
            }
        },
        _ => false,
    }
}

/// Exec test of [`stops_at`].
fn exec_stops_at(toks: &Vec<Tok>, i: usize, cfg: ScanCfg) -> (r: bool)
    requires
        i < toks@.len(),
    ensures
        r == stops_at(toks.deep_view(), i as int, cfg),
{
    ||| (cfg.kw_by && tok_is_word(&toks[i], "by"))
    ||| (cfg.kw_if && tok_is_word(&toks[i], "if"))
    ||| (cfg.fat_arrow && pair_at(toks, i, '=', '>'))
    ||| (cfg.colon && exec_single_colon_at(toks, i))
    ||| (cfg.comma && punct_char_at(toks, i, ','))
    ||| (cfg.gt && punct_char_at(toks, i, '>'))
    ||| (cfg.eq && exec_single_eq_at(toks, i))
}

/// The exec fragment scan; agrees with [`spec_scan`] from depth zero.
pub fn scan(toks: &Vec<Tok>, start: usize, cfg: ScanCfg, skip_first: bool) -> (r: ScanEnd)
    requires
        start <= toks@.len(),
    ensures
        r == spec_scan(toks.deep_view(), start as int, cfg, 0, 0, skip_first),
{
    let ghost s = toks.deep_view();
    let mut i: usize = start;
    let mut gd: usize = 0;
    let mut ad: usize = 0;
    let mut first: bool = skip_first;
    loop
        invariant
            start <= i <= toks@.len(),
            s == toks.deep_view(),
            s.len() == toks@.len(),
            gd <= i,
            ad <= i,
            spec_scan(s, start as int, cfg, 0, 0, skip_first) == spec_scan(
                s,
                i as int,
                cfg,
                gd as nat,
                ad as nat,
                first,
            ),
        decreases toks@.len() - i,
    {
        if i >= toks.len() {
            if gd == 0 {
                return ScanEnd::End;
            } else {
                return ScanEnd::Fail(toks.len());
            }
        }
        if !first && gd == 0 && ad == 0 && exec_stops_at(toks, i, cfg) {
            return ScanEnd::Hit(i);
        }
        if exec_lifetime_at(toks, i) {
            i = i + 2;
        } else if pair_at(toks, i, ':', ':') {
            if i + 2 < toks.len() && matches!(&toks[i + 2], Tok::Ident(_)) {
                i = i + 3;
            } else {
                i = i + 2;
            }
        } else if pair_at(toks, i, '-', '>') || pair_at(toks, i, '=', '>') {
            i = i + 2;
        } else {
            match &toks[i] {
                Tok::Open(_) => {
                    gd = gd + 1;
                    i = i + 1;
                },
                Tok::Close(_) => {
                    if gd > 0 {
                        gd = gd - 1;
                        i = i + 1;
                    } else {
                        return ScanEnd::Fail(i);
                    }
                },
                Tok::Punct(c, _) => {
                    if *c == '<' && gd == 0 && cfg.angles {
                        ad = ad + 1;
                        i = i + 1;
                    } else if *c == '>' && gd == 0 && cfg.angles && ad > 0 {
                        ad = ad - 1;
                        i = i + 1;
                    } else {
                        i = i + 1;
                    }
                },
                _ => {
                    i = i + 1;
                },
            }
        }
        first = false;
    }
}


/// Terminators for the target record type: the soft keyword `by`.
pub open spec fn cfg_target() -> ScanCfg {
    ScanCfg {
        angles: true,
        kw_by: true,
        kw_if: false,
        fat_arrow: false,
        colon: false,
        comma: false,
        gt: false,
        eq: false,
    }
}

/// Terminators for the key type: the fat arrow.
pub open spec fn cfg_key() -> ScanCfg {
    ScanCfg {
        angles: true,
        kw_by: false,
        kw_if: false,
        fat_arrow: true,
        colon: false,
        comma: false,
        gt: false,
        eq: false,
    }
}

/// Terminators for the output type: a single colon.
pub open spec fn cfg_output() -> ScanCfg {
    ScanCfg {
        angles: true,
        kw_by: false,
        kw_if: false,
        fat_arrow: false,
        colon: true,
        comma: false,
        gt: false,
        eq: false,
    }
}

/// Terminators for a structural pattern: the keyword `if` or the fat arrow.
pub open spec fn cfg_pat() -> ScanCfg {
    ScanCfg {
        angles: false,
        kw_by: false,
        kw_if: true,
        fat_arrow: true,
        colon: false,
        comma: false,
        gt: false,
        eq: false,
    }
}

/// Terminators for a guard expression: the fat arrow.
pub open spec fn cfg_guard() -> ScanCfg {
    ScanCfg {
        angles: false,
        kw_by: false,
        kw_if: false,
        fat_arrow: true,
        colon: false,
        comma: false,
        gt: false,
        eq: false,
    }
}

/// Terminators for a storage-selector expression: a comma.
pub open spec fn cfg_selector() -> ScanCfg {
    ScanCfg {
        angles: false,
        kw_by: false,
        kw_if: false,
        fat_arrow: false,
        colon: false,
        comma: true,
        gt: false,
        eq: false,
    }
}

/// Terminators for generic-parameter bounds or a const parameter's type:
/// a comma, the closing `>`, or the `=` of a default.
pub open spec fn cfg_bounds() -> ScanCfg {
    ScanCfg {
        angles: true,
        kw_by: false,
        kw_if: false,
        fat_arrow: false,
        colon: false,
        comma: true,
        gt: true,
        eq: true,
    }
}

/// Terminators for a generic parameter's default: a comma or the closing `>`.
pub open spec fn cfg_default() -> ScanCfg {
    ScanCfg {
        angles: true,
        kw_by: false,
        kw_if: false,
        fat_arrow: false,
        colon: false,
        comma: true,
        gt: true,
        eq: false,
    }
}

/// Exec values of the scan configurations.
fn mk_cfg_bounds() -> (c: ScanCfg)
    ensures
        c == cfg_bounds(),
{
    ScanCfg {
        angles: true,
        kw_by: false,
        kw_if: false,
        fat_arrow: false,
        colon: false,
        comma: true,
        gt: true,
        eq: true,
    }
}

fn mk_cfg_default() -> (c: ScanCfg)
    ensures
        c == cfg_default(),
{
    ScanCfg {
        angles: true,
        kw_by: false,
        kw_if: false,
        fat_arrow: false,
        colon: false,
        comma: true,
        gt: true,
        eq: false,
    }
}

/// One generic parameter starting at `i`: a lifetime with optional bounds, a
/// `const` parameter with its type and optional default, or a type parameter
/// with optional bounds and optional default. Returns the parameter and the
/// position of the separator (`,` or the closing `>`) that follows it, or
/// `None` when no parameter of this shape starts at `i` (the speculative
/// parse then fails as a whole and the input is read as a type instead).
pub open spec fn spec_gen_param(s: Seq<TokV>, i: int) -> Option<(GenericParamV, int)> {
    if i < 0 || i >= s.len() {
        None
    } else if lifetime_at(s, i) {
        let name = match s[i + 1] {
            TokV::Ident(n) => n,
            _ => Seq::empty(),
        };
        if i + 2 < s.len() && single_colon_at(s, i + 2) {
            match spec_scan(s, i + 3, cfg_bounds(), 0, 0, false) {
                ScanEnd::Hit(j) => if single_eq_at(s, j as int) {
                    None
                } else {
                    Some(
                        (
                            GenericParamV {
                                kind: GpKind::Lifetime,
                                name: name,
                                const_ty: Seq::empty(),
                                bounds: Some(s.subrange(i + 3, j as int)),
                                default: None,
                            },
                            j as int,
                        ),
                    )
                },
                _ => None,
            }
        } else {
            Some(
                (
                    GenericParamV {
                        kind: GpKind::Lifetime,
                        name: name,
                        const_ty: Seq::empty(),
                        bounds: None,
                        default: None,
                    },
                    i + 2,
                ),
            )
        }
    } else if is_word(s[i], "const"@) {
        if i + 2 < s.len() && (s[i + 1] matches TokV::Ident(_)) && single_colon_at(s, i + 2) {
            let name = match s[i + 1] {
                TokV::Ident(n) => n,
                _ => Seq::empty(),
            };
            match spec_scan(s, i + 3, cfg_bounds(), 0, 0, false) {
                ScanEnd::Hit(j) => if j == i + 3 {
                    None
                } else if single_eq_at(s, j as int) {
                    match spec_scan(s, j + 1, cfg_default(), 0, 0, false) {
                        ScanEnd::Hit(k) => if k == j + 1 {
                            None
                        } else {
                            Some(
                                (
                                    GenericParamV {
                                        kind: GpKind::Const,
                                        name: name,
                                        const_ty: s.subrange(i + 3, j as int),
                                        bounds: None,
                                        default: Some(s.subrange(j + 1, k as int)),
                                    },
                                    k as int,
                                ),
                            )
                        },
                        _ => None,
                    }
                } else {
                    Some(
                        (
                            GenericParamV {
                                kind: GpKind::Const,
                                name: name,
                                const_ty: s.subrange(i + 3, j as int),
                                bounds: None,
                                default: None,
                            },
                            j as int,
                        ),
                    )
                },
                _ => None,
            }
        } else {
            None
        }
    } else {
        match s[i] {
            TokV::Ident(name) => {
                if i + 1 < s.len() && single_colon_at(s, i + 1) {
                    match spec_scan(s, i + 2, cfg_bounds(), 0, 0, false) {
                        ScanEnd::Hit(j) => {
                            let bounds = Some(s.subrange(i + 2, j as int));
                            if single_eq_at(s, j as int) {
                                match spec_scan(s, j + 1, cfg_default(), 0, 0, false) {
                                    ScanEnd::Hit(k) => if k == j + 1 {
                                        None
                                    } else {
                                        Some(
                                            (
                                                GenericParamV {
                                                    kind: GpKind::Type,
                                                    name: name,
                                                    const_ty: Seq::empty(),
                                                    bounds: bounds,
                                                    default: Some(s.subrange(j + 1, k as int)),
                                                },
                                                k as int,
                                            ),
                                        )
                                    },
                                    _ => None,
                                }
                            } else {
                                Some(
                                    (
                                        GenericParamV {
                                            kind: GpKind::Type,
                                            name: name,
                                            const_ty: Seq::empty(),
                                            bounds: bounds,
                                            default: None,
                                        },
                                        j as int,
                                    ),
                                )
                            }
                        },
                        _ => None,
                    }
                } else if i + 1 < s.len() && single_eq_at(s, i + 1) {
                    match spec_scan(s, i + 2, cfg_default(), 0, 0, false) {
                        ScanEnd::Hit(k) => if k == i + 2 {
                            None
                        } else {
                            Some(
                                (
                                    GenericParamV {
                                        kind: GpKind::Type,
                                        name: name,
                                        const_ty: Seq::empty(),
                                        bounds: None,
                                        default: Some(s.subrange(i + 2, k as int)),
                                    },
                                    k as int,
                                ),
                            )
                        },
                        _ => None,
                    }
                } else {
                    Some(
                        (
                            GenericParamV {
                                kind: GpKind::Type,
                                name: name,
                                const_ty: Seq::empty(),
                                bounds: None,
                                default: None,
                            },
                            i + 1,
                        ),
                    )
                }
            },
            _ => None,
        }
    }
}

/// A successfully parsed generic parameter always makes progress and stays
/// inside the input.
pub proof fn lemma_gen_param_progress(s: Seq<TokV>, i: int)
    requires
        0 <= i <= s.len(),
        s.len() <= usize::MAX,
    ensures
        match spec_gen_param(s, i) {
            Some((p, j)) => i < j <= s.len(),
            None => true,
        },
{
    if i < s.len() {
        if lifetime_at(s, i) && i + 2 < s.len() && single_colon_at(s, i + 2) {
            lemma_scan_range(s, i + 3, cfg_bounds(), 0, 0, false);
        } else if !lifetime_at(s, i) && is_word(s[i], "const"@) && i + 2 < s.len()
            && single_colon_at(s, i + 2) {
            lemma_scan_range(s, i + 3, cfg_bounds(), 0, 0, false);
            match spec_scan(s, i + 3, cfg_bounds(), 0, 0, false) {
                ScanEnd::Hit(j) => lemma_scan_range(s, j + 1, cfg_default(), 0, 0, false),
                _ => (),
            }
        } else if !lifetime_at(s, i) && !is_word(s[i], "const"@) {
            if i + 1 < s.len() && single_colon_at(s, i + 1) {
                lemma_scan_range(s, i + 2, cfg_bounds(), 0, 0, false);
                match spec_scan(s, i + 2, cfg_bounds(), 0, 0, false) {
                    ScanEnd::Hit(j) => lemma_scan_range(s, j + 1, cfg_default(), 0, 0, false),
                    _ => (),
                }
            } else if i + 1 < s.len() && single_eq_at(s, i + 1) {
                lemma_scan_range(s, i + 2, cfg_default(), 0, 0, false);
            }
        }
    }
}

/// The generic-parameter list from `i` (just inside the opening `<`), with
/// the parameters read so far in `acc`: parameters separated by commas, a
/// trailing comma allowed, closed by `>`. Returns the list and the position
/// just past the closing `>`.
pub open spec fn spec_gen_params(s: Seq<TokV>, i: int, acc: Seq<GenericParamV>) -> Option<
    (GenericsV, int),
>
    decreases s.len() - i,
{
    if i < 0 || i >= s.len() {
        None
    } else if (s[i] matches TokV::Punct(c, _) && c == '>') {
        Some((GenericsV { params: acc }, i + 1))
    } else {
        match spec_gen_param(s, i) {
            None => None,
            Some((p, j)) => if j >= s.len() {
                None
            } else if (s[j] matches TokV::Punct(c, _) && c == ',') {
                if j < i {
                    None
                } else {
                    spec_gen_params(s, j + 1, acc.push(p))
                }
            } else if (s[j] matches TokV::Punct(c, _) && c == '>') {
                Some((GenericsV { params: acc.push(p) }, j + 1))
            } else {
                None
            },
        }
    }
}

/// The speculative parse of a leading generic-parameter list: `<` at the very
/// start, then [`spec_gen_params`]. `None` means the input is to be read as a
/// target type instead.
pub open spec fn spec_try_generics(s: Seq<TokV>) -> Option<(GenericsV, int)> {
    if s.len() > 0 && (s[0] matches TokV::Punct(c, _) && c == '<') {
        spec_gen_params(s, 1, Seq::empty())
    } else {
        None
    }
}

/// An empty token stream.
fn empty_toks() -> (v: Vec<Tok>)
    ensures
        v.deep_view() == Seq::<TokV>::empty(),
{
    let v: Vec<Tok> = Vec::new();
    assert(v.deep_view() =~= Seq::<TokV>::empty());
    v
}

/// Exec parse of one generic parameter; agrees with [`spec_gen_param`].
fn gen_param(toks: &Vec<Tok>, i: usize) -> (r: Option<(GenericParam, usize)>)
    requires
        i <= toks@.len(),
    ensures
        match r {
            Some((p, j)) => spec_gen_param(toks.deep_view(), i as int) == Some(
                (p.deep_view(), j as int),
            ) && i < j <= toks@.len(),
            None => spec_gen_param(toks.deep_view(), i as int) is None,
        },
{
    let ghost s = toks.deep_view();
    let n = toks.len();
    proof {
        assert(s.len() == toks@.len());
        lemma_gen_param_progress(s, i as int);
    }
    if i >= n {
        return None;
    }
    if exec_lifetime_at(toks, i) {
        let name = match &toks[i + 1] {
            Tok::Ident(n) => n.clone(),
            _ => String::new(),
        };
        if n - i > 2 && exec_single_colon_at(toks, i + 2) {
            match scan(toks, i + 3, mk_cfg_bounds(), false) {
                ScanEnd::Hit(j) => {
                    proof {
                        lemma_scan_range(s, i + 3, cfg_bounds(), 0, 0, false);
                    }
                    if exec_single_eq_at(toks, j) {
                        None
                    } else {
                        let bounds = sub_toks(toks, i + 3, j);
                        Some(
                            (
                                GenericParam {
                                    kind: GpKind::Lifetime,
                                    name,
                                    const_ty: empty_toks(),
                                    bounds: Some(bounds),
                                    default: None,
                                },
                                j,
                            ),
                        )
                    }
                },
                _ => None,
            }
        } else {
            Some(
                (
                    GenericParam {
                        kind: GpKind::Lifetime,
                        name,
                        const_ty: empty_toks(),
                        bounds: None,
                        default: None,
                    },
                    i + 2,
                ),
            )
        }
    } else if tok_is_word(&toks[i], "const") {
        if n - i > 2 && matches!(&toks[i + 1], Tok::Ident(_)) && exec_single_colon_at(
            toks,
            i + 2,
        ) {
            let name = match &toks[i + 1] {
                Tok::Ident(n) => n.clone(),
                _ => String::new(),
            };
            match scan(toks, i + 3, mk_cfg_bounds(), false) {
                ScanEnd::Hit(j) => {
                    proof {
                        lemma_scan_range(s, i + 3, cfg_bounds(), 0, 0, false);
                    }
                    if j == i + 3 {
                        None
                    } else if exec_single_eq_at(toks, j) {
                        match scan(toks, j + 1, mk_cfg_default(), false) {
                            ScanEnd::Hit(k) => {
                                proof {
                                    lemma_scan_range(s, j + 1, cfg_default(), 0, 0, false);
                                }
                                if k == j + 1 {
                                    None
                                } else {
                                    let const_ty = sub_toks(toks, i + 3, j);
                                    let default = sub_toks(toks, j + 1, k);
                                    Some(
                                        (
                                            GenericParam {
                                                kind: GpKind::Const,
                                                name,
                                                const_ty,
                                                bounds: None,
                                                default: Some(default),
                                            },
                                            k,
                                        ),
                                    )
                                }
                            },
                            _ => None,
                        }
                    } else {
                        let const_ty = sub_toks(toks, i + 3, j);
                        Some(
                            (
                                GenericParam {
                                    kind: GpKind::Const,
                                    name,
                                    const_ty,
                                    bounds: None,
                                    default: None,
                                },
                                j,
                            ),
                        )
                    }
                },
                _ => None,
            }
        } else {
            None
        }
    } else {
        match &toks[i] {
            Tok::Ident(name0) => {
                let name = name0.clone();
                if n - i > 1 && exec_single_colon_at(toks, i + 1) {
                    match scan(toks, i + 2, mk_cfg_bounds(), false) {
                        ScanEnd::Hit(j) => {
                            proof {
                                lemma_scan_range(s, i + 2, cfg_bounds(), 0, 0, false);
                            }
                            let bounds = sub_toks(toks, i + 2, j);
                            if exec_single_eq_at(toks, j) {
                                match scan(toks, j + 1, mk_cfg_default(), false) {
                                    ScanEnd::Hit(k) => {
                                        proof {
                                            lemma_scan_range(s, j + 1, cfg_default(), 0, 0, false);
                                        }
                                        if k == j + 1 {
                                            None
                                        } else {
                                            let default = sub_toks(toks, j + 1, k);
                                            Some(
                                                (
                                                    GenericParam {
                                                        kind: GpKind::Type,
                                                        name,
                                                        const_ty: empty_toks(),
                                                        bounds: Some(bounds),
                                                        default: Some(default),
                                                    },
                                                    k,
                                                ),
                                            )
                                        }
                                    },
                                    _ => None,
                                }
                            } else {
                                Some(
                                    (
                                        GenericParam {
                                            kind: GpKind::Type,
                                            name,
                                            const_ty: empty_toks(),
                                            bounds: Some(bounds),
                                            default: None,
                                        },
                                        j,
                                    ),
                                )
                            }
                        },
                        _ => None,
                    }
                } else if n - i > 1 && exec_single_eq_at(toks, i + 1) {
                    match scan(toks, i + 2, mk_cfg_default(), false) {
                        ScanEnd::Hit(k) => {
                            proof {
                                lemma_scan_range(s, i + 2, cfg_default(), 0, 0, false);
                            }
                            if k == i + 2 {
                                None
                            } else {
                                let default = sub_toks(toks, i + 2, k);
                                Some(
                                    (
                                        GenericParam {
                                            kind: GpKind::Type,
                                            name,
                                            const_ty: empty_toks(),
                                            bounds: None,
                                            default: Some(default),
                                        },
                                        k,
                                    ),
                                )
                            }
                        },
                        _ => None,
                    }
                } else {
                    Some(
                        (
                            GenericParam {
                                kind: GpKind::Type,
                                name,
                                const_ty: empty_toks(),
                                bounds: None,
                                default: None,
                            },
                            i + 1,
                        ),
                    )
                }
            },
            _ => None,
        }
    }
}

/// Exec speculative parse of a leading generic-parameter list; agrees with
/// [`spec_try_generics`].
pub fn try_generics(toks: &Vec<Tok>) -> (r: Option<(Generics, usize)>)
    ensures
        match r {
            Some((g, j)) => spec_try_generics(toks.deep_view()) == Some(
                (g.deep_view(), j as int),
            ) && j <= toks@.len(),
            None => spec_try_generics(toks.deep_view()) is None,
        },
{
    let ghost s = toks.deep_view();
    if toks.len() == 0 || !punct_char_at(toks, 0, '<') {
        return None;
    }
    let mut acc: Vec<GenericParam> = Vec::new();
    let mut i: usize = 1;
    assert(acc.deep_view() =~= Seq::<GenericParamV>::empty());
    loop
        invariant
            1 <= i <= toks@.len(),
            s == toks.deep_view(),
            s.len() == toks@.len(),
            spec_try_generics(s) == spec_gen_params(s, i as int, acc.deep_view()),
        decreases toks@.len() - i,
    {
        if i >= toks.len() {
            return None;
        }
        if punct_char_at(toks, i, '>') {
            return Some((Generics { params: acc }, i + 1));
        }
        match gen_param(toks, i) {
            None => {
                return None;
            },
            Some((p, j)) => {
                let ghost pv = p.deep_view();
                let ghost accv = acc.deep_view();
                if j < toks.len() && punct_char_at(toks, j, ',') {
                    acc.push(p);
                    assert(acc.deep_view() =~= accv.push(pv));
                    i = j + 1;
                } else if j < toks.len() && punct_char_at(toks, j, '>') {
                    acc.push(p);
                    assert(acc.deep_view() =~= accv.push(pv));
                    return Some((Generics { params: acc }, j + 1));
                } else {
                    return None;
                }
            },
        }
    }
}


/// More exec values of the scan configurations.
fn mk_cfg_target() -> (c: ScanCfg)
    ensures
        c == cfg_target(),
{
    ScanCfg {
        angles: true,
        kw_by: true,
        kw_if: false,
        fat_arrow: false,
        colon: false,
        comma: false,
        gt: false,
        eq: false,
    }
}

fn mk_cfg_key() -> (c: ScanCfg)
    ensures
        c == cfg_key(),
{
    ScanCfg {
        angles: true,
        kw_by: false,
        kw_if: false,
        fat_arrow: true,
        colon: false,
        comma: false,
        gt: false,
        eq: false,
    }
}

fn mk_cfg_output() -> (c: ScanCfg)
    ensures
        c == cfg_output(),
{
    ScanCfg {
        angles: true,
        kw_by: false,
        kw_if: false,
        fat_arrow: false,
        colon: true,
        comma: false,
        gt: false,
        eq: false,
    }
}

fn mk_cfg_pat() -> (c: ScanCfg)
    ensures
        c == cfg_pat(),
{
    ScanCfg {
        angles: false,
        kw_by: false,
        kw_if: true,
        fat_arrow: true,
        colon: false,
        comma: false,
        gt: false,
        eq: false,
    }
}

fn mk_cfg_guard() -> (c: ScanCfg)
    ensures
        c == cfg_guard(),
{
    ScanCfg {
        angles: false,
        kw_by: false,
        kw_if: false,
        fat_arrow: true,
        colon: false,
        comma: false,
        gt: false,
        eq: false,
    }
}

fn mk_cfg_selector() -> (c: ScanCfg)
    ensures
        c == cfg_selector(),
{
    ScanCfg {
        angles: false,
        kw_by: false,
        kw_if: false,
        fat_arrow: false,
        colon: false,
        comma: true,
        gt: false,
        eq: false,
    }
}

/// A structural pattern with its optional guard, starting at `i` (just after
/// the soft keyword `pat`). The returned position is that of the `=>` which
/// follows the whole matcher.
pub open spec fn spec_pattern(s: Seq<TokV>, i: int) -> Result<(PatternV, int), int> {
    match spec_scan(s, i, cfg_pat(), 0, 0, false) {
        ScanEnd::Hit(j0) => if j0 == i {
            Err(i)
        } else {
            let j = j0 as int;
            if is_word(s[j], "if"@) {
                match spec_scan(s, j + 1, cfg_guard(), 0, 0, false) {
                    ScanEnd::Hit(k) => if k == j + 1 {
                        Err(j + 1)
                    } else {
                        Ok(
                            (
                                PatternV {
                                    pat: s.subrange(i, j),
                                    guard: Some(s.subrange(j + 1, k as int)),
                                },
                                k as int,
                            ),
                        )
                    },
                    ScanEnd::End => Err(s.len() as int),
                    ScanEnd::Fail(q) => Err(q as int),
                }
            } else {
                Ok((PatternV { pat: s.subrange(i, j), guard: None }, j))
            }
        },
        ScanEnd::End => Err(s.len() as int),
        ScanEnd::Fail(q) => Err(q as int),
    }
}

/// A key matcher starting at `i`: a bare identifier, or `pat` followed by a
/// pattern and optional guard. The returned position is that of the `=>`.
pub open spec fn spec_key_matcher(s: Seq<TokV>, i: int) -> Result<
    (MaybeIdentV<PatternV>, int),
    int,
> {
    if i < 0 || i >= s.len() {
        Err(s.len() as int)
    } else if is_word(s[i], "pat"@) {
        match spec_pattern(s, i + 1) {
            Ok((p, c)) => Ok((MaybeIdentV::Other(p), c)),
            Err(e) => Err(e),
        }
    } else {
        match s[i] {
            TokV::Ident(name) => Ok((MaybeIdentV::Ident(name), i + 1)),
            _ => Err(i),
        }
    }
}

/// A storage selector starting at `i`: a bare identifier, or `pat` followed
/// by an expression extending to the next pairing comma or to the end of the
/// input. The returned position is that of the separator (or the length).
pub open spec fn spec_selector(s: Seq<TokV>, i: int) -> Result<
    (MaybeIdentV<Seq<TokV>>, int),
    int,
> {
    if i < 0 || i >= s.len() {
        Err(s.len() as int)
    } else if is_word(s[i], "pat"@) {
        match spec_scan(s, i + 1, cfg_selector(), 0, 0, false) {
            ScanEnd::Hit(j) => if j == i + 1 {
                Err(i + 1)
            } else {
                Ok((MaybeIdentV::Other(s.subrange(i + 1, j as int)), j as int))
            },
            ScanEnd::End => if i + 1 >= s.len() {
                Err(s.len() as int)
            } else {
                Ok((MaybeIdentV::Other(s.subrange(i + 1, s.len() as int)), s.len() as int))
            },
            ScanEnd::Fail(q) => Err(q as int),
        }
    } else {
        match s[i] {
            TokV::Ident(name) => Ok((MaybeIdentV::Ident(name), i + 1)),
            _ => Err(i),
        }
    }
}

/// One pairing starting at `i`: a key matcher, a `=>`, and a storage
/// selector. The returned position is that of the separator after it.
pub open spec fn spec_pairing(s: Seq<TokV>, i: int) -> Result<(PairingV, int), int> {
    match spec_key_matcher(s, i) {
        Err(e) => Err(e),
        Ok((kv, c)) => if !fat_arrow_at(s, c) {
            Err(if c <= s.len() { c } else { s.len() as int })
        } else {
            match spec_selector(s, c + 2) {
                Err(e) => Err(e),
                Ok((sv, d)) => Ok((PairingV { enum_variant: kv, struct_field: sv }, d)),
            }
        },
    }
}

/// The pairing list from `i`: one or more pairings separated by commas, a
/// trailing comma allowed, extending to the end of the input.
pub open spec fn spec_pairings(s: Seq<TokV>, i: int) -> Result<Seq<PairingV>, int>
    decreases s.len() - i,
{
    match spec_pairing(s, i) {
        Err(e) => Err(e),
        Ok((p, j)) => if j >= s.len() {
            Ok(seq![p])
        } else if (s[j] matches TokV::Punct(c, _) && c == ',') {
            if j + 1 >= s.len() {
                Ok(seq![p])
            } else if j < i {
                Err(j)
            } else {
                match spec_pairings(s, j + 1) {
                    Ok(ps) => Ok(seq![p] + ps),
                    Err(e) => Err(e),
                }
            }
        } else {
            Err(j)
        },
    }
}

/// The whole invocation: an optional generic-parameter list (decided by the
/// speculative parse), the target type up to the soft keyword `by`, the key
/// type up to `=>`, an optional `mut`, the output type up to `:`, and the
/// pairing list.
pub open spec fn spec_parse(s: Seq<TokV>) -> Result<IndexMacroV, int> {
    let gp = spec_try_generics(s);
    let generics = match gp {
        Some((g, _)) => Some(g),
        None => None,
    };
    let p0 = match gp {
        Some((_, j)) => j,
        None => 0,
    };
    match spec_scan(s, p0, cfg_target(), 0, 0, true) {
        ScanEnd::Hit(jby) => {
            let impl_for = s.subrange(p0, jby as int);
            match spec_scan(s, jby + 1, cfg_key(), 0, 0, false) {
                ScanEnd::Hit(jfa) => if jfa == jby + 1 {
                    Err(jby + 1)
                } else {
                    let idx_by = s.subrange(jby + 1, jfa as int);
                    let p2 = jfa + 2;
                    let impl_mut = p2 < s.len() && is_word(s[p2], "mut"@);
                    let p3: int = if impl_mut {
                        p2 + 1
                    } else {
                        p2
                    };
                    match spec_scan(s, p3, cfg_output(), 0, 0, false) {
                        ScanEnd::Hit(jc) => if jc == p3 {
                            Err(p3)
                        } else {
                            let output = s.subrange(p3, jc as int);
                            match spec_pairings(s, jc + 1) {
                                Ok(ps) => Ok(
                                    IndexMacroV {
                                        impl_mut,
                                        generics,
                                        impl_for,
                                        idx_by,
                                        output,
                                        pairings: ps,
                                    },
                                ),
                                Err(e) => Err(e),
                            }
                        },
                        ScanEnd::End => Err(s.len() as int),
                        ScanEnd::Fail(q) => Err(q as int),
                    }
                },
                ScanEnd::End => Err(s.len() as int),
                ScanEnd::Fail(q) => Err(q as int),
            }
        },
        ScanEnd::End => Err(s.len() as int),
        ScanEnd::Fail(q) => Err(q as int),
    }
}

/// A parsed pattern's cursor lies strictly inside the input, past its start.
pub proof fn lemma_pattern_range(s: Seq<TokV>, i: int)
    requires
        0 <= i <= s.len(),
        s.len() <= usize::MAX,
    ensures
        match spec_pattern(s, i) {
            Ok((p, j)) => i < j < s.len(),
            Err(e) => 0 <= e <= s.len(),
        },
{
    lemma_scan_range(s, i, cfg_pat(), 0, 0, false);
    match spec_scan(s, i, cfg_pat(), 0, 0, false) {
        ScanEnd::Hit(j0) => {
            lemma_scan_range(s, j0 + 1, cfg_guard(), 0, 0, false);
        },
        _ => (),
    }
}

/// A parsed key matcher's cursor lies inside the input, past its start.
pub proof fn lemma_key_matcher_range(s: Seq<TokV>, i: int)
    requires
        0 <= i <= s.len(),
        s.len() <= usize::MAX,
    ensures
        match spec_key_matcher(s, i) {
            Ok((kv, c)) => i < c <= s.len(),
            Err(e) => 0 <= e <= s.len(),
        },
{
    if 0 <= i < s.len() && is_word(s[i], "pat"@) {
        lemma_pattern_range(s, i + 1);
    }
}

/// A parsed selector's cursor lies inside the input, past its start.
pub proof fn lemma_selector_range(s: Seq<TokV>, i: int)
    requires
        0 <= i <= s.len(),
        s.len() <= usize::MAX,
    ensures
        match spec_selector(s, i) {
            Ok((sv, d)) => i < d <= s.len(),
            Err(e) => 0 <= e <= s.len(),
        },
{
    if 0 <= i < s.len() && is_word(s[i], "pat"@) {
        lemma_scan_range(s, i + 1, cfg_selector(), 0, 0, false);
    }
}

/// A parsed pairing's cursor lies inside the input, past its start.
pub proof fn lemma_pairing_progress(s: Seq<TokV>, i: int)
    requires
        0 <= i <= s.len(),
        s.len() <= usize::MAX,
    ensures
        match spec_pairing(s, i) {
            Ok((p, j)) => i < j <= s.len(),
            Err(e) => 0 <= e <= s.len(),
        },
{
    lemma_key_matcher_range(s, i);
    match spec_key_matcher(s, i) {
        Ok((kv, c)) => {
            if fat_arrow_at(s, c) {
                lemma_selector_range(s, c + 2);
            }
        },
        _ => (),
    }
}

impl Pattern {
    /// Parses a structural pattern and its optional guard, starting just
    /// after the soft keyword `pat`. The returned position is that of the
    /// `=>` following the whole matcher. Agrees with [`spec_pattern`].
    pub fn parse(toks: &Vec<Tok>, pos: usize) -> (r: Result<(Pattern, usize), SyntaxError>)
        requires
            pos <= toks@.len(),
        ensures
            match r {
                Ok((p, j)) => spec_pattern(toks.deep_view(), pos as int) == Ok::<
                    (PatternV, int),
                    int,
                >((p.deep_view(), j as int)) && pos < j < toks@.len(),
                Err(e) => spec_pattern(toks.deep_view(), pos as int) == Err::<
                    (PatternV, int),
                    int,
                >(e.pos as int),
            },
    {
        let ghost s = toks.deep_view();
        let n = toks.len();
        proof {
            lemma_pattern_range(s, pos as int);
        }
        match scan(toks, pos, mk_cfg_pat(), false) {
            ScanEnd::Hit(j) => {
                proof {
                    lemma_scan_range(s, pos as int, cfg_pat(), 0, 0, false);
                }
                if j == pos {
                    return Err(SyntaxError { pos });
                }
                if tok_is_word(&toks[j], "if") {
                    match scan(toks, j + 1, mk_cfg_guard(), false) {
                        ScanEnd::Hit(k) => {
                            proof {
                                lemma_scan_range(s, j as int + 1, cfg_guard(), 0, 0, false);
                            }
                            if k == j + 1 {
                                Err(SyntaxError { pos: j + 1 })
                            } else {
                                let pat = sub_toks(toks, pos, j);
                                let guard = sub_toks(toks, j + 1, k);
                                Ok((Pattern { pat, guard: Some(guard) }, k))
                            }
                        },
                        ScanEnd::End => Err(SyntaxError { pos: n }),
                        ScanEnd::Fail(q) => Err(SyntaxError { pos: q }),
                    }
                } else {
                    let pat = sub_toks(toks, pos, j);
                    Ok((Pattern { pat, guard: None }, j))
                }
            },
            ScanEnd::End => Err(SyntaxError { pos: n }),
            ScanEnd::Fail(q) => Err(SyntaxError { pos: q }),
        }
    }
}

impl MaybeIdent<Pattern> {
    /// Parses a key matcher: a bare identifier, or the soft keyword `pat`
    /// followed by a pattern with optional guard. Agrees with
    /// [`spec_key_matcher`].
    pub fn parse(toks: &Vec<Tok>, pos: usize) -> (r: Result<(Self, usize), SyntaxError>)
        requires
            pos <= toks@.len(),
        ensures
            match r {
                Ok((kv, c)) => spec_key_matcher(toks.deep_view(), pos as int) == Ok::<
                    (MaybeIdentV<PatternV>, int),
                    int,
                >((kv.deep_view(), c as int)) && pos < c <= toks@.len(),
                Err(e) => spec_key_matcher(toks.deep_view(), pos as int) == Err::<
                    (MaybeIdentV<PatternV>, int),
                    int,
                >(e.pos as int),
            },
    {
        let n = toks.len();
        if pos >= n {
            return Err(SyntaxError { pos: n });
        }
        if tok_is_word(&toks[pos], "pat") {
            match Pattern::parse(toks, pos + 1) {
                Ok((p, c)) => Ok((MaybeIdent::Other(p), c)),
                Err(e) => Err(e),
            }
        } else {
            match &toks[pos] {
                Tok::Ident(name) => Ok((MaybeIdent::Ident(name.clone()), pos + 1)),
                _ => Err(SyntaxError { pos }),
            }
        }
    }
}

impl MaybeIdent<Vec<Tok>> {
    /// Parses a storage selector: a bare identifier, or the soft keyword
    /// `pat` followed by an expression extending to the next pairing comma
    /// or to the end of the input. Agrees with [`spec_selector`].
    pub fn parse(toks: &Vec<Tok>, pos: usize) -> (r: Result<(Self, usize), SyntaxError>)
        requires
            pos <= toks@.len(),
        ensures
            match r {
                Ok((sv, d)) => spec_selector(toks.deep_view(), pos as int) == Ok::<
                    (MaybeIdentV<Seq<TokV>>, int),
                    int,
                >((sv.deep_view(), d as int)) && pos < d <= toks@.len(),
                Err(e) => spec_selector(toks.deep_view(), pos as int) == Err::<
                    (MaybeIdentV<Seq<TokV>>, int),
                    int,
                >(e.pos as int),
            },
    {
        let ghost s = toks.deep_view();
        let n = toks.len();
        proof {
            lemma_selector_range(s, pos as int);
        }
        if pos >= n {
            return Err(SyntaxError { pos: n });
        }
        if tok_is_word(&toks[pos], "pat") {
            match scan(toks, pos + 1, mk_cfg_selector(), false) {
                ScanEnd::Hit(j) => {
                    proof {
                        lemma_scan_range(s, pos as int + 1, cfg_selector(), 0, 0, false);
                    }
                    if j == pos + 1 {
                        Err(SyntaxError { pos: pos + 1 })
                    } else {
                        let e = sub_toks(toks, pos + 1, j);
                        Ok((MaybeIdent::Other(e), j))
                    }
                },
                ScanEnd::End => {
                    if pos + 1 >= n {
                        Err(SyntaxError { pos: n })
                    } else {
                        let e = sub_toks(toks, pos + 1, n);
                        Ok((MaybeIdent::Other(e), n))
                    }
                },
                ScanEnd::Fail(q) => Err(SyntaxError { pos: q }),
            }
        } else {
            match &toks[pos] {
                Tok::Ident(name) => Ok((MaybeIdent::Ident(name.clone()), pos + 1)),
                _ => Err(SyntaxError { pos }),
            }
        }
    }
}

impl Pairing {
    /// Parses one pairing: a key matcher, a `=>`, and a storage selector.
    /// Agrees with [`spec_pairing`].
    pub fn parse(toks: &Vec<Tok>, pos: usize) -> (r: Result<(Self, usize), SyntaxError>)
        requires
            pos <= toks@.len(),
        ensures
            match r {
                Ok((p, j)) => spec_pairing(toks.deep_view(), pos as int) == Ok::<
                    (PairingV, int),
                    int,
                >((p.deep_view(), j as int)) && pos < j <= toks@.len(),
                Err(e) => spec_pairing(toks.deep_view(), pos as int) == Err::<
                    (PairingV, int),
                    int,
                >(e.pos as int),
            },
    {
        let ghost s = toks.deep_view();
        let n = toks.len();
        match MaybeIdent::<Pattern>::parse(toks, pos) {
            Err(e) => Err(e),
            Ok((kv, c)) => {
                if c >= n {
                    return Err(SyntaxError { pos: c });
                }
                if !pair_at(toks, c, '=', '>') {
                    return Err(SyntaxError { pos: c });
                }
                assert(fat_arrow_at(s, c as int));
                match MaybeIdent::<Vec<Tok>>::parse(toks, c + 2) {
                    Err(e) => Err(e),
                    Ok((sv, d)) => Ok((Pairing { enum_variant: kv, struct_field: sv }, d)),
                }
            },
        }
    }
}

impl IndexMacro {
    /// Parses the whole invocation; agrees with [`spec_parse`].
    #[verifier::loop_isolation(false)]
    pub fn parse(toks: &Vec<Tok>) -> (r: Result<IndexMacro, SyntaxError>)
        ensures
            match r {
                Ok(m) => spec_parse(toks.deep_view()) == Ok::<IndexMacroV, int>(m.deep_view()),
                Err(e) => spec_parse(toks.deep_view()) == Err::<IndexMacroV, int>(e.pos as int),
            },
    {
        let ghost s = toks.deep_view();
        let n = toks.len();
        let (generics, p0): (Option<Generics>, usize) = match try_generics(toks) {
            Some((g, j)) => (Some(g), j),
            None => (None, 0),
        };
        match scan(toks, p0, mk_cfg_target(), true) {
            ScanEnd::Hit(jby) => {
                proof {
                    lemma_scan_range(s, p0 as int, cfg_target(), 0, 0, true);
                }
                let impl_for = sub_toks(toks, p0, jby);
                match scan(toks, jby + 1, mk_cfg_key(), false) {
                    ScanEnd::Hit(jfa) => {
                        proof {
                            lemma_scan_range(s, jby as int + 1, cfg_key(), 0, 0, false);
                        }
                        if jfa == jby + 1 {
                            return Err(SyntaxError { pos: jfa });
                        }
                        assert(fat_arrow_at(s, jfa as int));
                        let idx_by = sub_toks(toks, jby + 1, jfa);
                        let p2 = jfa + 2;
                        let impl_mut = p2 < n && tok_is_word(&toks[p2], "mut");
                        let p3 = if impl_mut {
                            p2 + 1
                        } else {
                            p2
                        };
                        match scan(toks, p3, mk_cfg_output(), false) {
                            ScanEnd::Hit(jc) => {
                                proof {
                                    lemma_scan_range(s, p3 as int, cfg_output(), 0, 0, false);
                                }
                                if jc == p3 {
                                    return Err(SyntaxError { pos: p3 });
                                }
                                let output = sub_toks(toks, p3, jc);
                                let ghost start0: int = jc as int + 1;
                                let mut pairings: Vec<Pairing> = Vec::new();
                                let mut cur: usize = jc + 1;
                                assert(pairings.deep_view() =~= Seq::<PairingV>::empty());
                                loop
                                    invariant
                                        start0 <= cur as int <= toks@.len(),
                                        s == toks.deep_view(),
                                        s.len() == toks@.len(),
                                        n == toks@.len(),
                                        spec_pairings(s, start0) == (match spec_pairings(
                                            s,
                                            cur as int,
                                        ) {
                                            Ok(rest) => Ok::<Seq<PairingV>, int>(
                                                pairings.deep_view() + rest,
                                            ),
                                            Err(e) => Err::<Seq<PairingV>, int>(e),
                                        }),
                                    decreases toks@.len() - cur,
                                {
                                    match Pairing::parse(toks, cur) {
                                        Err(e) => {
                                            proof {
                                                assert(spec_pairings(s, cur as int) == Err::<
                                                    Seq<PairingV>,
                                                    int,
                                                >(e.pos as int));
                                            }
                                            return Err(e);
                                        },
                                        Ok((p, j)) => {
                                            let ghost pv = p.deep_view();
                                            let ghost before = pairings.deep_view();
                                            pairings.push(p);
                                            assert(pairings.deep_view() =~= before.push(pv));
                                            assert(before.push(pv) =~= before + seq![pv]);
                                            if j >= n {
                                                return Ok(
                                                    IndexMacro {
                                                        impl_mut,
                                                        generics,
                                                        impl_for,
                                                        idx_by,
                                                        output,
                                                        pairings,
                                                    },
                                                );
                                            } else if punct_char_at(toks, j, ',') {
                                                if j + 1 >= n {
                                                    return Ok(
                                                        IndexMacro {
                                                            impl_mut,
                                                            generics,
                                                            impl_for,
                                                            idx_by,
                                                            output,
                                                            pairings,
                                                        },
                                                    );
                                                } else {
                                                    proof {
                                                        match spec_pairings(s, j as int + 1) {
                                                            Ok(ps) => {
                                                                assert(before + (seq![pv] + ps)
                                                                    =~= (before + seq![pv]) + ps);
                                                            },
                                                            Err(_) => {},
                                                        }
                                                    }
                                                    cur = j + 1;
                                                }
                                            } else {
                                                proof {
                                                    assert(spec_pairings(s, cur as int) == Err::<
                                                        Seq<PairingV>,
                                                        int,
                                                    >(j as int));
                                                }
                                                return Err(SyntaxError { pos: j });
                                            }
                                        },
                                    }
                                }
                            },
                            ScanEnd::End => Err(SyntaxError { pos: n }),
                            ScanEnd::Fail(q) => Err(SyntaxError { pos: q }),
                        }
                    },
                    ScanEnd::End => Err(SyntaxError { pos: n }),
                    ScanEnd::Fail(q) => Err(SyntaxError { pos: q }),
                }
            },
            ScanEnd::End => Err(SyntaxError { pos: n }),
            ScanEnd::Fail(q) => Err(SyntaxError { pos: q }),
        }
    }
}


/// A pairing list that parses holds at least one pairing.
pub proof fn lemma_pairings_len(s: Seq<TokV>, i: int)
    ensures
        match spec_pairings(s, i) {
            Ok(ps) => ps.len() >= 1,
            Err(_) => true,
        },
{
}

/// A specification that parses holds at least one pairing: an invocation
/// whose pairing list is empty is rejected with a syntax error, never
/// accepted.
pub proof fn lemma_nonempty_pairings(s: Seq<TokV>, m: IndexMacroV)
    requires
        spec_parse(s) == Ok::<IndexMacroV, int>(m),
    ensures
        m.pairings.len() >= 1,
{
    let gp = spec_try_generics(s);
    let p0 = match gp {
        Some((_, j)) => j,
        None => 0,
    };
    match spec_scan(s, p0, cfg_target(), 0, 0, true) {
        ScanEnd::Hit(jby) => {
            match spec_scan(s, jby + 1, cfg_key(), 0, 0, false) {
                ScanEnd::Hit(jfa) => {
                    if jfa != jby + 1 {
                        let p2 = jfa + 2;
                        let impl_mut = p2 < s.len() && is_word(s[p2], "mut"@);
                        let p3: int = if impl_mut {
                            p2 + 1
                        } else {
                            p2
                        };
                        match spec_scan(s, p3, cfg_output(), 0, 0, false) {
                            ScanEnd::Hit(jc) => {
                                lemma_pairings_len(s, jc + 1);
                            },
                            _ => (),
                        }
                    }
                },
                _ => (),
            }
        },
        _ => (),
    }
}

/// The generics ambiguity is resolved by the speculative parse alone: when a
/// leading generic-parameter list parses, the accepted specification carries
/// exactly that list; when it does not, the specification carries no
/// generics and its target type starts at the very first token, a leading
/// `<` included.
pub proof fn lemma_generics_resolution(s: Seq<TokV>, m: IndexMacroV)
    requires
        spec_parse(s) == Ok::<IndexMacroV, int>(m),
        s.len() <= usize::MAX,
    ensures
        match spec_try_generics(s) {
            Some((g, _)) => m.generics == Some(g),
            None => m.generics is None,
        },
        spec_try_generics(s) is None && s.len() > 0 ==> m.impl_for.len() > 0 && m.impl_for[0]
            == s[0],
{
    let gp = spec_try_generics(s);
    match gp {
        Some((g, _)) => (),
        None => {
            match spec_scan(s, 0, cfg_target(), 0, 0, true) {
                ScanEnd::Hit(jby) => {
                    lemma_scan_range(s, 0, cfg_target(), 0, 0, true);
                    assert(m.impl_for == s.subrange(0, jby as int));
                },
                _ => (),
            }
        },
    }
}


/// A specification that parses has non-empty type fragments: the target, key
/// and output types each hold at least one token.
pub proof fn lemma_fragments_nonempty(s: Seq<TokV>, m: IndexMacroV)
    requires
        spec_parse(s) == Ok::<IndexMacroV, int>(m),
        s.len() <= usize::MAX,
    ensures
        m.impl_for.len() > 0,
        m.idx_by.len() > 0,
        m.output.len() > 0,
{
    let gp = spec_try_generics(s);
    let p0 = match gp {
        Some((_, j)) => j,
        None => 0,
    };
    match spec_scan(s, p0, cfg_target(), 0, 0, true) {
        ScanEnd::Hit(jby) => {
            if 0 <= p0 <= s.len() {
                lemma_scan_range(s, p0, cfg_target(), 0, 0, true);
            }
            match spec_scan(s, jby + 1, cfg_key(), 0, 0, false) {
                ScanEnd::Hit(jfa) => {
                    lemma_scan_range(s, jby + 1, cfg_key(), 0, 0, false);
                    if jfa != jby + 1 {
                        let p2 = jfa + 2;
                        let impl_mut = p2 < s.len() && is_word(s[p2], "mut"@);
                        let p3: int = if impl_mut {
                            p2 + 1
                        } else {
                            p2
                        };
                        match spec_scan(s, p3, cfg_output(), 0, 0, false) {
                            ScanEnd::Hit(jc) => {
                                if 0 <= p3 <= s.len() {
                                    lemma_scan_range(s, p3, cfg_output(), 0, 0, false);
                                }
                            },
                            _ => (),
                        }
                    }
                },
                _ => (),
            }
        },
        _ => (),
    }
}

} // verus!




