use impl_index::{index, Delim, IndexMacro, MaybeIdent, Pairing, Pattern, Tok};

/// Lexes a source snippet into the library's flat token model with the
/// spacing convention of a Rust lexer: a punctuation character is joined
/// exactly when the next character is another punctuation character.
fn lex(src: &str) -> Vec<Tok> {
    let chars: Vec<char> = src.chars().collect();
    let mut out: Vec<Tok> = Vec::new();
    let mut k: usize = 0;
    let is_punct = |c: char| -> bool {
        !(c.is_alphanumeric() || c == '_' || c.is_whitespace() || "([{)]}".contains(c))
    };
    while k < chars.len() {
        let c = chars[k];
        if c.is_whitespace() {
            k += 1;
        } else if c.is_alphabetic() || c == '_' {
            let mut w = String::new();
            while k < chars.len() && (chars[k].is_alphanumeric() || chars[k] == '_') {
                w.push(chars[k]);
                k += 1;
            }
            out.push(Tok::Ident(w));
        } else if c.is_ascii_digit() {
            let mut w = String::new();
            while k < chars.len() && (chars[k].is_alphanumeric() || chars[k] == '_') {
                w.push(chars[k]);
                k += 1;
            }
            out.push(Tok::Lit(w));
        } else if c == '(' {
            out.push(Tok::Open(Delim::Paren));
            k += 1;
        } else if c == ')' {
            out.push(Tok::Close(Delim::Paren));
            k += 1;
        } else if c == '[' {
            out.push(Tok::Open(Delim::Bracket));
            k += 1;
        } else if c == ']' {
            out.push(Tok::Close(Delim::Bracket));
            k += 1;
        } else if c == '{' {
            out.push(Tok::Open(Delim::Brace));
            k += 1;
        } else if c == '}' {
            out.push(Tok::Close(Delim::Brace));
            k += 1;
        } else {
            // a lifetime's quote is always joined to its word
            let joint = k + 1 < chars.len()
                && (is_punct(chars[k + 1])
                    || (c == '\'' && (chars[k + 1].is_alphabetic() || chars[k + 1] == '_')));
            out.push(Tok::Punct(c, joint));
            k += 1;
        }
    }
    out
}

/// Finds the first occurrence of `needle` as a contiguous run in `hay`.
fn find_sub(hay: &[Tok], needle: &[Tok]) -> Option<usize> {
    if needle.is_empty() || hay.len() < needle.len() {
        return None;
    }
    let mut k: usize = 0;
    while k + needle.len() <= hay.len() {
        if &hay[k..k + needle.len()] == needle {
            return Some(k);
        }
        k += 1;
    }
    None
}

fn id(s: &str) -> Tok {
    impl_index::ident(s)
}

fn pa(c: char) -> Tok {
    impl_index::punct(c, false)
}

fn pj(c: char) -> Tok {
    impl_index::punct(c, true)
}

#[test]
fn parse_minimal_shorthand() {
    let input = lex("S by E => u8 : A => a");
    let m = IndexMacro::parse(&input).unwrap();
    assert!(!m.impl_mut);
    assert!(m.generics.is_none());
    assert_eq!(m.impl_for, vec![id("S")]);
    assert_eq!(m.idx_by, vec![id("E")]);
    assert_eq!(m.output, vec![id("u8")]);
    assert_eq!(m.pairings.len(), 1);
    assert_eq!(m.pairings[0].enum_variant, MaybeIdent::Ident("A".to_string()));
    assert_eq!(m.pairings[0].struct_field, MaybeIdent::Ident("a".to_string()));
}

#[test]
fn parse_trailing_comma() {
    let input = lex("S by E => u8 : A => a ,");
    let m = IndexMacro::parse(&input).unwrap();
    assert_eq!(m.pairings.len(), 1);
}

#[test]
fn parse_mut_flag() {
    let m = IndexMacro::parse(&lex("S by E => mut u8 : A => a")).unwrap();
    assert!(m.impl_mut);
    let m2 = IndexMacro::parse(&lex("S by E => u8 : A => a")).unwrap();
    assert!(!m2.impl_mut);
}

#[test]
fn parse_full_forms() {
    let input = lex("S by E => u8 : pat E::Arr(idx) if idx < 10 => pat arr[idx]");
    let m = IndexMacro::parse(&input).unwrap();
    assert_eq!(m.pairings.len(), 1);
    let p = &m.pairings[0];
    match &p.enum_variant {
        MaybeIdent::Other(Pattern { pat, guard }) => {
            assert_eq!(
                pat,
                &vec![
                    id("E"),
                    pj(':'),
                    pa(':'),
                    id("Arr"),
                    Tok::Open(Delim::Paren),
                    id("idx"),
                    Tok::Close(Delim::Paren),
                ]
            );
            assert_eq!(
                guard.as_ref().unwrap(),
                &vec![id("idx"), pa('<'), impl_index::lit("10")]
            );
        },
        other => panic!("expected a full-form matcher, got {:?}", other),
    }
    match &p.struct_field {
        MaybeIdent::Other(e) => {
            assert_eq!(
                e,
                &vec![
                    id("arr"),
                    Tok::Open(Delim::Bracket),
                    id("idx"),
                    Tok::Close(Delim::Bracket),
                ]
            );
        },
        other => panic!("expected a full-form selector, got {:?}", other),
    }
}

#[test]
fn zero_pairings_rejected() {
    let input = lex("S by E => u8 :");
    let e = IndexMacro::parse(&input).unwrap_err();
    assert_eq!(e.pos, input.len());
    let e2 = index(&input).unwrap_err();
    assert_eq!(e2.pos, input.len());
}

#[test]
fn missing_keyword_rejected() {
    // no `by`: the target-type scan runs to the end of the input
    let input = lex("S E => u8 : A => a");
    let e = IndexMacro::parse(&input).unwrap_err();
    assert_eq!(e.pos, input.len());
    // no `=>` after the key type
    let input2 = lex("S by E u8 : A => a");
    assert!(IndexMacro::parse(&input2).is_err());
    // no `:` before the pairings
    let input3 = lex("S by E => u8 A => a");
    assert!(IndexMacro::parse(&input3).is_err());
}

#[test]
fn missing_selector_rejected() {
    let input = lex("S by E => u8 : A =>");
    assert!(IndexMacro::parse(&input).is_err());
    let input2 = lex("S by E => u8 : A");
    assert!(IndexMacro::parse(&input2).is_err());
}

#[test]
fn generics_valid_list_populates_generics() {
    // a syntactically valid parameter list commits the speculative parse:
    // the generics are populated and the following type is bare
    let input = lex("<T> S by E => u8 : A => a");
    let m = IndexMacro::parse(&input).unwrap();
    let g = m.generics.as_ref().expect("generics should be present");
    assert_eq!(g.params.len(), 1);
    assert_eq!(g.params[0].name, "T".to_string());
    assert_eq!(m.impl_for, vec![id("S")]);
}

#[test]
fn generics_invalid_list_rolls_back_to_type() {
    // `<S as Tr>::Out` is no parameter list but a qualified type: the
    // speculative parse rolls back, generics stay absent, and the target
    // type keeps the leading `<...>`
    let input = lex("<S as Tr>::Out by E => u8 : A => a");
    let m = IndexMacro::parse(&input).unwrap();
    assert!(m.generics.is_none());
    assert_eq!(
        m.impl_for,
        vec![
            pa('<'),
            id("S"),
            id("as"),
            id("Tr"),
            pj('>'),
            pj(':'),
            pa(':'),
            id("Out"),
        ]
    );
}

#[test]
fn emit_minimal_exact() {
    let input = lex("S by E => u8 : A => a");
    let out = index(&input).unwrap();
    let expected: Vec<Tok> = vec![
        // #[automatically_derived]
        pa('#'),
        Tok::Open(Delim::Bracket),
        id("automatically_derived"),
        Tok::Close(Delim::Bracket),
        // impl ::core::ops::Index<E> for S {
        id("impl"),
        pj(':'),
        pa(':'),
        id("core"),
        pj(':'),
        pa(':'),
        id("ops"),
        pj(':'),
        pa(':'),
        id("Index"),
        pa('<'),
        id("E"),
        pa('>'),
        id("for"),
        id("S"),
        Tok::Open(Delim::Brace),
        // type Output = u8;
        id("type"),
        id("Output"),
        pa('='),
        id("u8"),
        pa(';'),
        // #[inline]
        pa('#'),
        Tok::Open(Delim::Bracket),
        id("inline"),
        Tok::Close(Delim::Bracket),
        // fn index(&self, index_macro_derived_index_input: E) -> &Self::Output
        id("fn"),
        id("index"),
        Tok::Open(Delim::Paren),
        pa('&'),
        id("self"),
        pa(','),
        id("index_macro_derived_index_input"),
        pa(':'),
        id("E"),
        Tok::Close(Delim::Paren),
        pj('-'),
        pa('>'),
        pa('&'),
        id("Self"),
        pj(':'),
        pa(':'),
        id("Output"),
        // { match index_macro_derived_index_input {
        Tok::Open(Delim::Brace),
        id("match"),
        id("index_macro_derived_index_input"),
        Tok::Open(Delim::Brace),
        // E::A => &self.a
        id("E"),
        pj(':'),
        pa(':'),
        id("A"),
        pj('='),
        pa('>'),
        pj('&'),
        id("self"),
        pj('.'),
        id("a"),
        // } } }
        Tok::Close(Delim::Brace),
        Tok::Close(Delim::Brace),
        Tok::Close(Delim::Brace),
    ];
    assert_eq!(out, expected);
}

#[test]
fn mut_flag_controls_accessor_count() {
    let one = index(&lex("S by E => u8 : A => a")).unwrap();
    let two = index(&lex("S by E => mut u8 : A => a")).unwrap();
    let marker = vec![id("automatically_derived")];
    let count = |toks: &Vec<Tok>| -> usize {
        toks.iter()
            .filter(|t| **t == id("automatically_derived"))
            .count()
    };
    assert_eq!(count(&one), 1);
    assert_eq!(count(&two), 2);
    assert!(find_sub(&two, &marker).is_some());
    // the read accessor is emitted first and identically in both cases
    assert_eq!(&two[..one.len()], &one[..]);
    // the second accessor dispatches mutably, in lock-step with the first
    assert!(find_sub(&two, &[id("IndexMut")]).is_some());
    assert!(find_sub(&one, &[id("IndexMut")]).is_none());
    let arm_read = [pj('='), pa('>'), pj('&'), id("self"), pj('.'), id("a")];
    let arm_mut = [pj('='), pa('>'), pj('&'), id("mut"), id("self"), pj('.'), id("a")];
    assert!(find_sub(&two, &arm_read).is_some());
    assert!(find_sub(&two, &arm_mut).is_some());
}

#[test]
fn pairing_order_is_preserved() {
    let out = index(&lex("S by E => u8 : A => a , B => b , C => c")).unwrap();
    let pos_a = find_sub(&out, &[id("A"), pj('='), pa('>')]).unwrap();
    let pos_b = find_sub(&out, &[id("B"), pj('='), pa('>')]).unwrap();
    let pos_c = find_sub(&out, &[id("C"), pj('='), pa('>')]).unwrap();
    assert!(pos_a < pos_b && pos_b < pos_c);
    let rev = index(&lex("S by E => u8 : C => c , B => b , A => a")).unwrap();
    let rpos_a = find_sub(&rev, &[id("A"), pj('='), pa('>')]).unwrap();
    let rpos_c = find_sub(&rev, &[id("C"), pj('='), pa('>')]).unwrap();
    assert!(rpos_c < rpos_a);
}

#[test]
fn guard_precedes_fallback_arm() {
    let out = index(&lex(
        "S by E => u8 : pat E::V(x) if x < 10 => pat arr[x] , pat _ => b",
    ))
    .unwrap();
    // the guarded arm keeps its guard between pattern and `=>`
    let guarded = [
        Tok::Close(Delim::Paren),
        id("if"),
        id("x"),
        pa('<'),
        impl_index::lit("10"),
        pj('='),
        pa('>'),
    ];
    let pos_guarded = find_sub(&out, &guarded).expect("guarded arm missing");
    // the fallback arm follows after the separating comma
    let fallback = [pa(','), id("_"), pj('='), pa('>'), pj('&'), id("self"), pj('.'), id("b")];
    let pos_fallback = find_sub(&out, &fallback).expect("fallback arm missing");
    assert!(pos_guarded < pos_fallback);
}

#[test]
fn emit_is_idempotent() {
    let input = lex("<T> S by E => mut u8 : A => a , pat _ => b");
    let m = IndexMacro::parse(&input).unwrap();
    let first = m.into_token_stream();
    let second = m.into_token_stream();
    assert_eq!(first, second);
    // and the whole pipeline is deterministic as well
    assert_eq!(index(&input).unwrap(), index(&input).unwrap());
}

#[test]
fn generics_bounds_kept_defaults_dropped() {
    let input = lex("<T: Clone = u8> S by E => T : A => a");
    let m = IndexMacro::parse(&input).unwrap();
    let g = m.generics.as_ref().unwrap();
    assert_eq!(g.params.len(), 1);
    assert_eq!(g.params[0].bounds.as_ref().unwrap(), &vec![id("Clone")]);
    assert_eq!(g.params[0].default.as_ref().unwrap(), &vec![id("u8")]);
    let out = m.into_token_stream();
    // impl header: `impl < T : Clone >` (no default)
    let head = [id("impl"), pa('<'), id("T"), pa(':'), id("Clone"), pa('>')];
    assert!(find_sub(&out, &head).is_some());
    assert!(find_sub(&out, &[pa('='), id("u8"), pa('>')]).is_none());
    // type position: `for S < T >`
    let tail = [id("for"), id("S"), pa('<'), id("T"), pa('>')];
    assert!(find_sub(&out, &tail).is_some());
}

#[test]
fn generics_lifetimes_print_first() {
    let input = lex("<T, 'a> S by E => u8 : A => a");
    let m = IndexMacro::parse(&input).unwrap();
    assert_eq!(m.generics.as_ref().unwrap().params.len(), 2);
    let out = m.into_token_stream();
    let head = [id("impl"), pa('<'), pj('\''), id("a"), pa(','), id("T"), pa('>')];
    assert!(find_sub(&out, &head).is_some());
}

#[test]
fn empty_generics_print_nothing() {
    let input = lex("<> S by E => u8 : A => a");
    let m = IndexMacro::parse(&input).unwrap();
    assert!(m.generics.is_some());
    assert_eq!(m.generics.as_ref().unwrap().params.len(), 0);
    let out = m.into_token_stream();
    assert!(find_sub(&out, &[id("impl"), pj(':'), pa(':'), id("core")]).is_some());
}

#[test]
fn inline_hint_only_for_small_dispatches() {
    let small = index(&lex("S by E => u8 : A => a , B => b")).unwrap();
    assert!(find_sub(&small, &[id("inline")]).is_some());
    let large = index(&lex("S by E => u8 : A => a , B => b , C => c")).unwrap();
    assert!(find_sub(&large, &[id("inline")]).is_none());
}

struct Record {
    a: u8,
    arr: [u8; 10],
    thing_1: u8,
    thing_2: u8,
}

enum Key {
    A,
    Arr(usize),
    Thing(Thing),
}

enum Thing {
    One,
    Two,
}

// the two impls below spell out, token for token, the accessors the library
// emits for the end-to-end specification in `end_to_end_scenario`
impl core::ops::Index<Key> for Record {
    type Output = u8;
    fn index(&self, index_macro_derived_index_input: Key) -> &Self::Output {
        match index_macro_derived_index_input {
            Key::A => &self.a,
            Key::Arr(idx) if idx < 10 => &self.arr[idx],
            Key::Thing(Thing::One) => &self.thing_1,
            _ => &self.thing_2,
        }
    }
}

impl core::ops::IndexMut<Key> for Record {
    fn index_mut(&mut self, index_macro_derived_index_input: Key) -> &mut Self::Output {
        match index_macro_derived_index_input {
            Key::A => &mut self.a,
            Key::Arr(idx) if idx < 10 => &mut self.arr[idx],
            Key::Thing(Thing::One) => &mut self.thing_1,
            _ => &mut self.thing_2,
        }
    }
}

#[test]
fn end_to_end_scenario() {
    let input = lex(
        "Record by Key => mut u8 : A => a , pat Key::Arr(idx) if idx < 10 => pat arr[idx] , \
         pat Key::Thing(Thing::One) => thing_1 , pat _ => thing_2 ,",
    );
    let m = IndexMacro::parse(&input).unwrap();
    assert!(m.impl_mut);
    assert_eq!(m.pairings.len(), 4);
    let out = m.into_token_stream();
    // two accessors, the mutable one second
    let pos_index = find_sub(&out, &[id("Index"), pa('<'), id("Key")]).unwrap();
    let pos_index_mut = find_sub(&out, &[id("IndexMut"), pa('<'), id("Key")]).unwrap();
    assert!(pos_index < pos_index_mut);
    // arms appear in input order within the read accessor
    let pos_a = find_sub(&out, &[id("A"), pj('='), pa('>')]).unwrap();
    let pos_arr = find_sub(&out, &[id("Arr"), Tok::Open(Delim::Paren)]).unwrap();
    let pos_thing = find_sub(&out, &[id("Thing"), Tok::Open(Delim::Paren)]).unwrap();
    let pos_wild = find_sub(&out, &[pa(','), id("_"), pj('='), pa('>')]).unwrap();
    assert!(pos_a < pos_arr && pos_arr < pos_thing && pos_thing < pos_wild);
    // the emitted accessors, compiled, behave as specified: writing through
    // the mutable accessor and reading back through the read accessor
    let mut s = Record { a: 0, arr: [0; 10], thing_1: 0, thing_2: 0 };
    s[Key::A] = 1;
    let mut idx: u8 = 0;
    while idx < 10 {
        s[Key::Arr(idx as usize)] = idx * 10;
        idx += 1;
    }
    s[Key::Thing(Thing::One)] = 200;
    s[Key::Thing(Thing::Two)] = 201;
    assert_eq!(s[Key::A], 1);
    let mut idx2: u8 = 0;
    while idx2 < 10 {
        assert_eq!(s[Key::Arr(idx2 as usize)], idx2 * 10);
        idx2 += 1;
    }
    assert_eq!(s[Key::Thing(Thing::One)], 200);
    assert_eq!(s[Key::Thing(Thing::Two)], 201);
    // a guarded miss falls through: index 10 fails `idx < 10` and routes to
    // the wildcard pairing's storage
    assert_eq!(s[Key::Arr(10)], 201);
    s[Key::Arr(10)] = 77;
    assert_eq!(s[Key::Thing(Thing::Two)], 77);
}

#[test]
fn unbalanced_input_rejected() {
    let mut input = lex("S by E => u8 : A => pat f(");
    input.remove(input.len() - 1);
    input.push(Tok::Open(Delim::Paren));
    assert!(IndexMacro::parse(&input).is_err());
    let input2 = vec![Tok::Close(Delim::Paren)];
    assert!(IndexMacro::parse(&input2).is_err());
}

#[test]
fn error_position_points_at_offending_token() {
    // `A` then `B`: the pairing expects `=>` at the position of `B`
    let input = lex("S by E => u8 : A B => a");
    let e = IndexMacro::parse(&input).unwrap_err();
    assert_eq!(e.pos, 8);
}

#[test]
fn keyword_word_inside_angles_is_not_a_terminator() {
    // `by` inside the target type's angle brackets is an ordinary word
    let input = lex("S<by> by E => u8 : A => a");
    let m = IndexMacro::parse(&input).unwrap();
    assert_eq!(m.impl_for, vec![id("S"), pa('<'), id("by"), pa('>')]);
    assert_eq!(m.idx_by, vec![id("E")]);
}

#[test]
fn keyword_word_as_lifetime_is_not_a_terminator() {
    // the lifetime `'by` must not end the target type
    let input = lex("&'by S by E => u8 : A => a");
    let m = IndexMacro::parse(&input).unwrap();
    assert_eq!(m.impl_for, vec![pj('&'), pj('\''), id("by"), id("S")]);
}

#[test]
fn thin_arrow_in_key_type_is_kept() {
    let input = lex("S by Fn(E) -> E => u8 : A => a");
    let m = IndexMacro::parse(&input).unwrap();
    assert_eq!(
        m.idx_by,
        vec![
            id("Fn"),
            Tok::Open(Delim::Paren),
            id("E"),
            Tok::Close(Delim::Paren),
            pj('-'),
            pa('>'),
            id("E"),
        ]
    );
}

#[test]
fn multi_token_output_type() {
    let input = lex("S by E => Vec<u8> : A => a");
    let m = IndexMacro::parse(&input).unwrap();
    assert_eq!(m.output, vec![id("Vec"), pa('<'), id("u8"), pa('>')]);
    let out = m.into_token_stream();
    let item = [id("type"), id("Output"), pa('='), id("Vec"), pa('<'), id("u8"), pa('>'), pa(';')];
    assert!(find_sub(&out, &item).is_some());
}

fn attr_of(word: &str) -> Vec<Tok> {
    vec![pa('#'), Tok::Open(Delim::Bracket), id(word), Tok::Close(Delim::Bracket)]
}

fn psep() -> Vec<Tok> {
    vec![pj(':'), pa(':')]
}

fn fat() -> Vec<Tok> {
    vec![pj('='), pa('>')]
}

fn cat(parts: Vec<Vec<Tok>>) -> Vec<Tok> {
    parts.into_iter().flatten().collect()
}

/// The whole expected accessor for the end-to-end scenario, read or mutable.
fn expected_accessor(mutable: bool) -> Vec<Tok> {
    let trait_name = if mutable { "IndexMut" } else { "Index" };
    let fn_name = if mutable { "index_mut" } else { "index" };
    let mut_tok = |on: bool| -> Vec<Tok> {
        if on {
            vec![id("mut")]
        } else {
            Vec::new()
        }
    };
    let arm_open = |pattern: Vec<Tok>| -> Vec<Tok> {
        cat(vec![pattern, fat(), vec![pj('&')], mut_tok(mutable), vec![id("self"), pj('.')]])
    };
    cat(vec![
        attr_of("automatically_derived"),
        vec![id("impl")],
        psep(),
        vec![id("core")],
        psep(),
        vec![id("ops")],
        psep(),
        vec![id(trait_name), pa('<'), id("Key"), pa('>'), id("for"), id("Record")],
        vec![Tok::Open(Delim::Brace)],
        if mutable {
            Vec::new()
        } else {
            vec![id("type"), id("Output"), pa('='), id("u8"), pa(';')]
        },
        // four pairings: no inlining hint
        vec![id("fn"), id(fn_name), Tok::Open(Delim::Paren), pa('&')],
        mut_tok(mutable),
        vec![
            id("self"),
            pa(','),
            id("index_macro_derived_index_input"),
            pa(':'),
            id("Key"),
            Tok::Close(Delim::Paren),
            pj('-'),
            pa('>'),
            pa('&'),
        ],
        mut_tok(mutable),
        vec![id("Self")],
        psep(),
        vec![id("Output")],
        vec![
            Tok::Open(Delim::Brace),
            id("match"),
            id("index_macro_derived_index_input"),
            Tok::Open(Delim::Brace),
        ],
        // Key::A => &self.a
        arm_open(cat(vec![vec![id("Key")], psep(), vec![id("A")]])),
        vec![id("a"), pa(',')],
        // Key::Arr(idx) if idx < 10 => &self.arr[idx]
        arm_open(cat(vec![
            vec![id("Key")],
            psep(),
            vec![
                id("Arr"),
                Tok::Open(Delim::Paren),
                id("idx"),
                Tok::Close(Delim::Paren),
                id("if"),
                id("idx"),
                pa('<'),
                impl_index::lit("10"),
            ],
        ])),
        vec![
            id("arr"),
            Tok::Open(Delim::Bracket),
            id("idx"),
            Tok::Close(Delim::Bracket),
            pa(','),
        ],
        // Key::Thing(Thing::One) => &self.thing_1
        arm_open(cat(vec![
            vec![id("Key")],
            psep(),
            vec![id("Thing"), Tok::Open(Delim::Paren), id("Thing")],
            psep(),
            vec![id("One"), Tok::Close(Delim::Paren)],
        ])),
        vec![id("thing_1"), pa(',')],
        // _ => &self.thing_2
        arm_open(vec![id("_")]),
        vec![id("thing_2")],
        vec![Tok::Close(Delim::Brace), Tok::Close(Delim::Brace), Tok::Close(Delim::Brace)],
    ])
}

#[test]
fn end_to_end_exact_emission() {
    let input = lex(
        "Record by Key => mut u8 : A => a , pat Key::Arr(idx) if idx < 10 => pat arr[idx] , \
         pat Key::Thing(Thing::One) => thing_1 , pat _ => thing_2 ,",
    );
    let out = index(&input).unwrap();
    let expected = cat(vec![expected_accessor(false), expected_accessor(true)]);
    assert_eq!(out.len(), expected.len());
    let mut k: usize = 0;
    while k < out.len() {
        assert_eq!(out[k], expected[k], "token {} differs", k);
        k += 1;
    }
}
