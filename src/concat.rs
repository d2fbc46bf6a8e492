//! How lexing and parsing behave on texts put together from smaller ones.
use vstd::prelude::*;
use crate::expr::ExprModel;
use crate::parser::{parsed, parse_array, parse_term, parse_level, fold_level, literal_of, op_level, parse_text};
use crate::value::ValueModel;
use crate::op::{Op, op_symbol};
use crate::lexer::{Token, TokenKind, token_fits, lemma_lex_from_fits, lex, lex_from, scan_token, skip_spaces, digits_end, name_end, quote_end, stands_at, lemma_scan_ends, lemma_scan_token_bounds};

verus! {

/// Tokens moved `off` characters to the right.
pub open spec fn shift_tokens(t: Seq<Token>, off: int) -> Seq<Token> {
    Seq::new(
        t.len(),
        |k: int| Token { kind: t[k].kind, start: (t[k].start + off) as usize, end: (t[k].end + off) as usize },
    )
}

/// A lexing result moved `off` characters to the right.
pub open spec fn shift_lex(r: Result<Seq<Token>, int>, off: int) -> Result<Seq<Token>, int> {
    match r {
        Ok(t) => Ok(shift_tokens(t, off)),
        Err(p) => Err(p + off),
    }
}

proof fn lemma_suffix_scans(z: Seq<char>, y: Seq<char>, p: int)
    requires
        0 <= p <= y.len(),
    ensures
        skip_spaces(z + y, z.len() + p) == z.len() + skip_spaces(y, p),
        digits_end(z + y, z.len() + p) == z.len() + digits_end(y, p),
        name_end(z + y, z.len() + p) == z.len() + name_end(y, p),
        quote_end(z + y, z.len() + p) == z.len() + quote_end(y, p),
    decreases y.len() - p,
{
    let s = z + y;
    if p < y.len() {
        assert(s[z.len() + p] == y[p]);
        lemma_suffix_scans(z, y, p + 1);
    }
}

proof fn lemma_suffix_scan_token(z: Seq<char>, y: Seq<char>, p: int)
    requires
        0 <= p < y.len(),
    ensures
        scan_token(z + y, z.len() + p) == match scan_token(y, p) {
            Some((k, e)) => Some((k, e + z.len())),
            None => None,
        },
{
    let s = z + y;
    let n = z.len() as int;
    assert(s[n + p] == y[p]);
    lemma_scan_ends(y, p + 1);
    lemma_suffix_scans(z, y, p + 1);
    if p + 1 < y.len() {
        assert(s[n + p + 1] == y[p + 1]);
        lemma_scan_ends(y, p + 2);
        lemma_suffix_scans(z, y, p + 2);
        let ne = name_end(y, p + 2);
        if ne < y.len() {
            assert(s[n + ne] == y[ne]);
        }
    }
    let e = digits_end(y, p + 1);
    if e < y.len() {
        assert(s[n + e] == y[e]);
    }
    if e + 1 < y.len() {
        assert(s[n + e + 1] == y[e + 1]);
    }
    if e + 2 <= y.len() {
        lemma_scan_ends(y, e + 2);
        lemma_suffix_scans(z, y, e + 2);
    }
    let f = digits_end(y, e + 2);
    assert(s.subrange(n + p, n + e) =~= y.subrange(p, e));
    if e + 2 <= y.len() {
        assert(s.subrange(n + p, n + f) =~= y.subrange(p, f));
    }
    let qe = quote_end(y, p + 1);
    if qe < y.len() {
        assert(s[n + qe] == y[qe]);
    }
    let words = seq![seq!['t', 'r', 'u', 'e'], seq!['f', 'a', 'l', 's', 'e'], seq!['i', 'n']];
    assert forall|w: Seq<char>| #[trigger] stands_at(s, n + p, w) == stands_at(y, p, w) by {
        if p + w.len() <= y.len() {
            assert(s.subrange(n + p, n + p + w.len()) =~= y.subrange(p, p + w.len()));
        }
    }
}

/// Lexing the tail `y` of a text `z + y` gives `y`'s own tokens, moved
/// right by the length of `z`.
pub proof fn lemma_lex_suffix(z: Seq<char>, y: Seq<char>, k: int)
    requires
        0 <= k <= y.len(),
        z.len() + y.len() <= usize::MAX,
    ensures
        lex_from(z + y, z.len() + k) == shift_lex(lex_from(y, k), z.len() as int),
    decreases y.len() - k,
{
    let s = z + y;
    let n = z.len() as int;
    lemma_suffix_scans(z, y, k);
    lemma_scan_ends(y, k);
    let j = skip_spaces(y, k);
    if k <= j < y.len() {
        lemma_suffix_scan_token(z, y, j);
        lemma_scan_token_bounds(y, j);
        match scan_token(y, j) {
            None => {},
            Some((kind, e)) => {
                lemma_lex_suffix(z, y, e);
                let tok = Token { kind, start: j as usize, end: e as usize };
                let tok2 = Token { kind, start: (n + j) as usize, end: (n + e) as usize };
                match lex_from(y, e) {
                    Ok(rest) => {
                        assert(shift_tokens(seq![tok] + rest, n) =~= seq![tok2] + shift_tokens(rest, n));
                    },
                    Err(_) => {},
                }
            },
        }
    } else {
        assert(shift_tokens(Seq::<Token>::empty(), n) =~= Seq::<Token>::empty());
    }
}

proof fn lemma_prefix_scans(x: Seq<char>, y: Seq<char>, i: int)
    requires
        0 <= i <= x.len(),
        y.len() >= 1,
        y[0] == ' ',
    ensures
        digits_end(x + y, i) == digits_end(x, i),
        name_end(x + y, i) == name_end(x, i),
        quote_end(x, i) < x.len() ==> quote_end(x + y, i) == quote_end(x, i),
        skip_spaces(x, i) < x.len() ==> skip_spaces(x + y, i) == skip_spaces(x, i),
        skip_spaces(x, i) == x.len() ==> skip_spaces(x + y, i) == skip_spaces(x + y, x.len() as int),
    decreases x.len() - i,
{
    let s = x + y;
    if i < x.len() {
        assert(s[i] == x[i]);
        lemma_prefix_scans(x, y, i + 1);
    } else {
        assert(s[i] == ' ');
    }
}

proof fn lemma_prefix_scan_token(x: Seq<char>, y: Seq<char>, j: int)
    requires
        0 <= j < x.len(),
        y.len() >= 1,
        y[0] == ' ',
        scan_token(x, j) is Some,
    ensures
        scan_token(x + y, j) == scan_token(x, j),
{
    let s = x + y;
    let n = x.len() as int;
    assert(s[j] == x[j]);
    lemma_scan_ends(x, j + 1);
    lemma_prefix_scans(x, y, j + 1);
    if j + 1 < n {
        assert(s[j + 1] == x[j + 1]);
        lemma_scan_ends(x, j + 2);
        lemma_prefix_scans(x, y, j + 2);
        let ne = name_end(x, j + 2);
        if ne < n {
            assert(s[ne] == x[ne]);
        } else {
            assert(s[ne] == ' ');
        }
    } else {
        assert(s[j + 1] == ' ');
    }
    let e = digits_end(x, j + 1);
    if e < n {
        assert(s[e] == x[e]);
    } else {
        assert(s[e] == ' ');
    }
    if e + 1 < n {
        assert(s[e + 1] == x[e + 1]);
    } else if e + 1 == n {
        assert(s[e + 1] == ' ');
    }
    if e + 2 <= n {
        lemma_scan_ends(x, e + 2);
        lemma_prefix_scans(x, y, e + 2);
        let f = digits_end(x, e + 2);
        assert(s.subrange(j, f) =~= x.subrange(j, f));
    }
    assert(s.subrange(j, e) =~= x.subrange(j, e));
    let qe = quote_end(x, j + 1);
    if qe < n {
        assert(s[qe] == x[qe]);
    }
    assert forall|w: Seq<char>| w.len() > 0 && (forall|m: int| 0 <= m < w.len() ==> w[m] != ' ')
        implies #[trigger] stands_at(s, j, w) == stands_at(x, j, w) by {
        if j + w.len() <= n {
            assert(s.subrange(j, j + w.len()) =~= x.subrange(j, j + w.len()));
        } else if stands_at(s, j, w) {
            assert(s.subrange(j, j + w.len())[n - j] == s[n]);
            assert(s[n] == ' ');
        }
    }
    assert(seq!['t', 'r', 'u', 'e'][0] != ' ');
    assert forall|m: int| 0 <= m < 4 implies seq!['t', 'r', 'u', 'e'][m] != ' ' by {}
    assert forall|m: int| 0 <= m < 5 implies seq!['f', 'a', 'l', 's', 'e'][m] != ' ' by {}
    assert forall|m: int| 0 <= m < 2 implies seq!['i', 'n'][m] != ' ' by {}
}

/// Where position `a` holds only whitespace up to `b`, lexing from `a` and
/// from `b` is the same.
proof fn lemma_lex_from_skip(s: Seq<char>, a: int, b: int)
    requires
        0 <= a <= b <= skip_spaces(s, a),
        skip_spaces(s, a) == skip_spaces(s, b),
    ensures
        lex_from(s, a) == lex_from(s, b),
{
}

/// Lexing a text `x + y`, where `y` starts with a space and `x` lexes on
/// its own, gives `x`'s tokens and then those from the end of `x` on.
pub proof fn lemma_lex_prefix(x: Seq<char>, y: Seq<char>, i: int)
    requires
        0 <= i <= x.len(),
        y.len() >= 1,
        y[0] == ' ',
        lex_from(x, i) is Ok,
        x.len() + y.len() <= usize::MAX,
    ensures
        lex_from(x + y, i) == match lex_from(x + y, x.len() as int) {
            Ok(t) => Ok(lex_from(x, i)->Ok_0 + t),
            Err(p) => Err(p),
        },
    decreases x.len() - i,
{
    let s = x + y;
    let n = x.len() as int;
    lemma_prefix_scans(x, y, i);
    lemma_scan_ends(x, i);
    let j = skip_spaces(x, i);
    if j < n {
        lemma_prefix_scan_token(x, y, j);
        lemma_scan_token_bounds(x, j);
        let (kind, e) = scan_token(x, j)->0;
        lemma_lex_prefix(x, y, e);
        let tok = Token { kind, start: j as usize, end: e as usize };
        match lex_from(s, n) {
            Ok(t) => {
                let rest = lex_from(x, e)->Ok_0;
                assert(seq![tok] + (rest + t) =~= (seq![tok] + rest) + t);
            },
            Err(_) => {},
        }
    } else {
        lemma_scan_ends(s, i);
        lemma_scan_ends(s, n);
        lemma_lex_from_skip(s, i, n);
        match lex_from(s, n) {
            Ok(t) => {
                assert(Seq::<Token>::empty() + t =~= t);
            },
            Err(_) => {},
        }
    }
}

/// Two texts with a space between them.
pub open spec fn join(x: Seq<char>, y: Seq<char>) -> Seq<char> {
    x + seq![' '] + y
}

/// Two texts that lex on their own, put together with a space between
/// them, lex to the tokens of the first and then those of the second, moved
/// right past the first and the space.
pub proof fn lemma_lex_join(x: Seq<char>, y: Seq<char>)
    requires
        lex(x) is Ok,
        lex(y) is Ok,
        x.len() + 1 + y.len() <= usize::MAX,
    ensures
        lex(join(x, y)) == Ok::<Seq<Token>, int>(lex(x)->Ok_0 + shift_tokens(lex(y)->Ok_0, x.len() + 1int)),
{
    let n = x.len() as int;
    let z = x + seq![' '];
    let s = join(x, y);
    let tail = seq![' '] + y;
    assert(s =~= x + tail);
    assert(s =~= z + y);
    lemma_lex_prefix(x, tail, 0);
    assert(s[n] == ' ');
    lemma_scan_ends(s, n + 1);
    assert(skip_spaces(s, n) == skip_spaces(s, n + 1));
    lemma_lex_from_skip(s, n, n + 1);
    lemma_lex_suffix(z, y, 0);
}

/// The tokens `t1` over text `s1` stand in `t2` over text `s2` from index
/// `at` on, with the same kinds and covering the same characters, and the
/// token after them in `t2`, if any, is no operator.
pub open spec fn embedded(s1: Seq<char>, t1: Seq<Token>, s2: Seq<char>, t2: Seq<Token>, at: int) -> bool {
    &&& 0 <= at
    &&& at + t1.len() <= t2.len()
    &&& forall|k: int| 0 <= k < t1.len() ==> {
        &&& (#[trigger] t2[at + k]).kind == t1[k].kind
        &&& s2.subrange(t2[at + k].start as int, t2[at + k].end as int) == s1.subrange(
            t1[k].start as int,
            t1[k].end as int,
        )
    }
    &&& at + t1.len() < t2.len() ==> !(t2[at + t1.len()].kind is Op)
}

proof fn lemma_embed_literal(s1: Seq<char>, t1: Seq<Token>, s2: Seq<char>, t2: Seq<Token>, at: int, i: int)
    requires
        embedded(s1, t1, s2, t2, at),
        0 <= i < t1.len(),
    ensures
        literal_of(s2, t2[at + i]) == literal_of(s1, t1[i]),
{
    assert(t2[at + i].kind == t1[i].kind);
}

proof fn lemma_embed_array(
    s1: Seq<char>,
    t1: Seq<Token>,
    s2: Seq<char>,
    t2: Seq<Token>,
    at: int,
    i: int,
    acc: Seq<ValueModel>,
)
    requires
        embedded(s1, t1, s2, t2, at),
        0 <= i <= t1.len(),
        parse_array(s1, t1, i, acc) is Ok,
    ensures
        parse_array(s2, t2, at + i, acc) == match parse_array(s1, t1, i, acc) {
            Ok((m, j)) => Ok((m, at + j)),
            Err(k) => Err(k),
        },
    decreases t1.len() - i,
{
    if i < t1.len() {
        assert(t2[at + i].kind == t1[i].kind);
        lemma_embed_literal(s1, t1, s2, t2, at, i);
        if i + 1 < t1.len() {
            assert(t2[at + (i + 1)].kind == t1[i + 1].kind);
        }
        if !(t1[i].kind is RBracket) {
            match literal_of(s1, t1[i]) {
                Some(v) => {
                    if i + 1 < t1.len() && t1[i + 1].kind is Comma {
                        lemma_embed_array(s1, t1, s2, t2, at, i + 2, acc.push(v));
                    }
                },
                None => {},
            }
        }
    }
}

proof fn lemma_embed_term(s1: Seq<char>, t1: Seq<Token>, s2: Seq<char>, t2: Seq<Token>, at: int, i: int)
    requires
        embedded(s1, t1, s2, t2, at),
        0 <= i <= t1.len(),
        parse_term(s1, t1, i) is Ok,
    ensures
        parse_term(s2, t2, at + i) == match parse_term(s1, t1, i) {
            Ok((m, j)) => Ok((m, at + j)),
            Err(k) => Err(k),
        },
    decreases t1.len() - i, 0int,
{
    assert(t2[at + i].kind == t1[i].kind);
    lemma_embed_literal(s1, t1, s2, t2, at, i);
    match t1[i].kind {
        TokenKind::LBracket => {
            lemma_embed_array(s1, t1, s2, t2, at, i + 1, Seq::empty());
        },
        TokenKind::LParen => {
            lemma_embed_level(s1, t1, s2, t2, at, i + 1, 0);
            let (e, j) = parse_level(s1, t1, i + 1, 0)->Ok_0;
            assert(t2[at + j].kind == t1[j].kind);
        },
        _ => {},
    }
}

proof fn lemma_embed_level(
    s1: Seq<char>,
    t1: Seq<Token>,
    s2: Seq<char>,
    t2: Seq<Token>,
    at: int,
    i: int,
    level: int,
)
    requires
        embedded(s1, t1, s2, t2, at),
        0 <= i <= t1.len(),
        parse_level(s1, t1, i, level) is Ok,
    ensures
        parse_level(s2, t2, at + i, level) == match parse_level(s1, t1, i, level) {
            Ok((m, j)) => Ok((m, at + j)),
            Err(k) => Err(k),
        },
    decreases t1.len() - i, if level < 4 { 5 - level } else { 1 },
{
    if level >= 4 {
        lemma_embed_term(s1, t1, s2, t2, at, i);
    } else {
        lemma_embed_level(s1, t1, s2, t2, at, i, level + 1);
        let (lhs, j) = parse_level(s1, t1, i, level + 1)->Ok_0;
        lemma_embed_fold(s1, t1, s2, t2, at, j, level, lhs);
    }
}

proof fn lemma_embed_fold(
    s1: Seq<char>,
    t1: Seq<Token>,
    s2: Seq<char>,
    t2: Seq<Token>,
    at: int,
    i: int,
    level: int,
    acc: ExprModel,
)
    requires
        embedded(s1, t1, s2, t2, at),
        0 <= i <= t1.len(),
        fold_level(s1, t1, i, level, acc) is Ok,
    ensures
        fold_level(s2, t2, at + i, level, acc) == match fold_level(s1, t1, i, level, acc) {
            Ok((m, j)) => Ok((m, at + j)),
            Err(k) => Err(k),
        },
    decreases t1.len() - i, 0int,
{
    if i < t1.len() {
        assert(t2[at + i].kind == t1[i].kind);
        if t1[i].kind is Op && crate::parser::op_level(t1[i].kind->Op_0) == level && level < 4 {
            lemma_embed_level(s1, t1, s2, t2, at, i + 1, level + 1);
            let (rhs, j) = parse_level(s1, t1, i + 1, level + 1)->Ok_0;
            lemma_embed_fold(
                s1,
                t1,
                s2,
                t2,
                at,
                j,
                level,
                ExprModel::Op(Box::new(acc), t1[i].kind->Op_0, Box::new(rhs)),
            );
        }
    }
}

/// `(` and `)` lex to one bracket token each.
proof fn lemma_lex_paren(c: char)
    requires
        c == '(' || c == ')',
    ensures
        lex(seq![c]) == Ok::<Seq<Token>, int>(
            seq![Token { kind: if c == '(' { TokenKind::LParen } else { TokenKind::RParen }, start: 0, end: 1 }],
        ),
{
    let s = seq![c];
    assert(skip_spaces(s, 0) == 0);
    assert(skip_spaces(s, 1) == 1);
    assert(!stands_at(s, 0, seq!['t', 'r', 'u', 'e']));
    assert(!stands_at(s, 0, seq!['f', 'a', 'l', 's', 'e']));
    assert(!stands_at(s, 0, seq!['i', 'n']));
    let tok = Token { kind: if c == '(' { TokenKind::LParen } else { TokenKind::RParen }, start: 0, end: 1 };
    assert(scan_token(s, 0) == Some((tok.kind, 1int)));
    assert(lex_from(s, 1) == Ok::<Seq<Token>, int>(Seq::empty()));
    assert(seq![tok] + Seq::<Token>::empty() =~= seq![tok]);
}

/// Nothing parses from the end of a token sequence.
proof fn lemma_parse_nothing(s: Seq<char>, t: Seq<Token>, i: int, level: int)
    requires
        i == t.len(),
        0 <= level <= 4,
    ensures
        parse_level(s, t, i, level) is Err,
    decreases 4 - level,
{
    assert(parse_term(s, t, i) is Err);
    if level < 4 {
        lemma_parse_nothing(s, t, i, level + 1);
    }
}

/// A term read from a text of one token is that token's leaf, and reading
/// the whole text at any level gives the same leaf.
pub proof fn lemma_one_token_term(s: Seq<char>, t: Seq<Token>, level: int)
    requires
        t.len() == 1,
        parse_level(s, t, 0, level) is Ok,
        0 <= level <= 4,
    ensures
        parse_term(s, t, 0) matches Ok((m, j)) && j == 1 && parse_level(s, t, 0, level) == parsed(m, 1int),
        !(t[0].kind is LParen || t[0].kind is LBracket),
    decreases 4 - level,
{
    if level < 4 {
        lemma_one_token_term(s, t, level + 1);
        let (m, _) = parse_term(s, t, 0)->Ok_0;
        assert(fold_level(s, t, 1, level, m) == parsed(m, 1int));
    }
    assert(parse_array(s, t, 1, Seq::empty()) is Err);
    lemma_parse_nothing(s, t, 1, 0);
}

/// A term that ends the token sequence is the expression at every level.
proof fn lemma_climb_to_end(s: Seq<char>, t: Seq<Token>, i: int, level: int)
    requires
        parse_term(s, t, i) matches Ok((m, k)) && k == t.len(),
        0 <= i < t.len(),
        0 <= level <= 4,
    ensures
        parse_level(s, t, i, level) == parse_term(s, t, i),
    decreases 4 - level,
{
    if level < 4 {
        lemma_climb_to_end(s, t, i, level + 1);
        let (m, k) = parse_term(s, t, i)->Ok_0;
        assert(fold_level(s, t, k, level, m) == parsed(m, k));
    }
}

/// The expression of the term at token `i`.
spec fn term_model(s: Seq<char>, t: Seq<Token>, i: int) -> ExprModel {
    let (m, _) = parse_term(s, t, i)->Ok_0;
    m
}

/// A term, an operator, and a term that ends the token sequence make,
/// at the operator's level and below, one operator node; above it, the
/// first term alone.
proof fn lemma_climb_over_op(s: Seq<char>, t: Seq<Token>, i: int, k: int, op: Op, level: int)
    requires
        0 <= i < k,
        k + 1 < t.len(),
        parse_term(s, t, i) matches Ok((m, e)) && e == k,
        t[k].kind == TokenKind::Op(op),
        parse_term(s, t, k + 1) matches Ok((m, e)) && e == t.len(),
        0 <= level <= 4,
    ensures
        parse_level(s, t, i, level) == if level > op_level(op) {
            parsed(term_model(s, t, i), k)
        } else {
            parsed(ExprModel::Op(Box::new(term_model(s, t, i)), op, Box::new(term_model(s, t, k + 1))), t.len() as int)
        },
    decreases 4 - level,
{
    let ma = term_model(s, t, i);
    let mb = term_model(s, t, k + 1);
    assert(parse_term(s, t, i) == parsed(ma, k));
    assert(parse_term(s, t, k + 1) == parsed(mb, t.len() as int));
    assert(op_level(op) <= 3);
    if level < 4 {
        lemma_climb_over_op(s, t, i, k, op, level + 1);
        let node = ExprModel::Op(Box::new(ma), op, Box::new(mb));
        let n = t.len() as int;
        assert(t[k].kind->Op_0 == op);
        if level + 1 > op_level(op) {
            assert(parse_level(s, t, i, level + 1) == parsed(ma, k));
            if level == op_level(op) {
                lemma_climb_to_end(s, t, k + 1, level + 1);
                assert(parse_level(s, t, k + 1, level + 1) == parsed(mb, n));
                assert(fold_level(s, t, n, level, node) == parsed(node, n));
                assert(fold_level(s, t, k, level, ma) == parsed(node, n));
            } else {
                assert(fold_level(s, t, k, level, ma) == parsed(ma, k));
            }
        } else {
            assert(parse_level(s, t, i, level + 1) == parsed(node, n));
            assert(fold_level(s, t, n, level, node) == parsed(node, n));
        }
    }
}

/// An operand as a rule writes it: in parentheses, `( a )`, or bare.
pub open spec fn operand_text(a: Seq<char>, bare: bool) -> Seq<char> {
    if bare {
        a
    } else {
        join(join(seq!['('], a), seq![')'])
    }
}

/// A rule written in text: its left operand, its operator's symbol and its
/// right operand, separated by spaces, each operand bare or in parentheses.
pub open spec fn rule_text(a: Seq<char>, bare_a: bool, op: Op, b: Seq<char>, bare_b: bool) -> Seq<char> {
    join(join(operand_text(a, bare_a), op_symbol(op)), operand_text(b, bare_b))
}

/// The tokens of an operand written in parentheses or bare.
pub open spec fn operand_tokens(ta: Seq<Token>, n: int, bare: bool) -> Seq<Token> {
    if bare {
        ta
    } else {
        seq![Token { kind: TokenKind::LParen, start: 0, end: 1 }] + shift_tokens(ta, 2) + shift_tokens(
            seq![Token { kind: TokenKind::RParen, start: 0, end: 1 }],
            n + 3,
        )
    }
}

proof fn lemma_operand_tokens(a: Seq<char>, bare: bool)
    requires
        lex(a) is Ok,
        operand_text(a, bare).len() <= usize::MAX,
    ensures
        lex(operand_text(a, bare)) == Ok::<Seq<Token>, int>(operand_tokens(lex(a)->Ok_0, a.len() as int, bare)),
        bare ==> operand_text(a, bare) == a,
        !bare ==> operand_text(a, bare).len() == a.len() + 4,
        !bare ==> forall|i: int| 0 <= i < a.len() ==> #[trigger] operand_text(a, bare)[2 + i] == a[i],
{
    if !bare {
        let p = seq!['('];
        let q = seq![')'];
        lemma_lex_paren('(');
        lemma_lex_paren(')');
        lemma_lex_join(p, a);
        lemma_lex_join(join(p, a), q);
        let x = operand_text(a, bare);
        assert forall|i: int| 0 <= i < a.len() implies #[trigger] x[2 + i] == a[i] by {
            assert(join(p, a)[2 + i] == a[i]);
        }
    }
}

/// An operand's term, read where the operand's tokens stand in a larger
/// token sequence `t` over text `big` (from token `at`, text position `off`).
proof fn lemma_operand_term(
    a: Seq<char>,
    bare: bool,
    l: ExprModel,
    big: Seq<char>,
    t: Seq<Token>,
    at: int,
    off: int,
)
    requires
        parse_text(a, 0) == Some(l),
        bare ==> lex(a)->Ok_0.len() == 1,
        operand_text(a, bare).len() <= usize::MAX,
        0 <= at,
        0 <= off,
        off + operand_text(a, bare).len() <= big.len(),
        big.len() <= usize::MAX,
        forall|i: int| 0 <= i < operand_text(a, bare).len() ==> #[trigger] big[off + i] == operand_text(a, bare)[i],
        at + operand_tokens(lex(a)->Ok_0, a.len() as int, bare).len() <= t.len(),
        forall|k: int| 0 <= k < operand_tokens(lex(a)->Ok_0, a.len() as int, bare).len() ==> #[trigger] t[at + k]
            == shift_tokens(operand_tokens(lex(a)->Ok_0, a.len() as int, bare), off)[k],
    ensures
        parse_term(big, t, at) == parsed(l, at + operand_tokens(lex(a)->Ok_0, a.len() as int, bare).len()),
{
    let ta = lex(a)->Ok_0;
    let n1 = ta.len() as int;
    let x = operand_text(a, bare);
    lemma_operand_tokens(a, bare);
    lemma_lex_from_fits(a, 0);
    if n1 == 0 {
        lemma_parse_nothing(a, ta, 0, 0);
    }
    if bare {
        lemma_one_token_term(a, ta, 0);
        assert(t[at + 0] == shift_tokens(ta, off)[0]);
        let st = ta[0].start as int;
        let en = ta[0].end as int;
        assert(token_fits(a, ta[0]));
        assert(big.subrange(off + st, off + en) =~= a.subrange(st, en)) by {
            assert forall|i: int| 0 <= i < en - st implies #[trigger] big.subrange(off + st, off + en)[i] == a.subrange(st, en)[i] by {
                assert(big[off + (st + i)] == x[st + i]);
            }
        }
        assert(t[at].start == off + st && t[at].end == off + en);
    } else {
        let tx = operand_tokens(ta, a.len() as int, bare);
        assert(tx.len() == n1 + 2);
        assert(t[at + 0] == shift_tokens(tx, off)[0]);
        assert(t[at].kind == TokenKind::LParen);
        assert(t[at + (n1 + 1)] == shift_tokens(tx, off)[n1 + 1]);
        assert(t[at + n1 + 1].kind == TokenKind::RParen);
        assert forall|k: int| 0 <= k < n1 implies {
            &&& (#[trigger] t[(at + 1) + k]).kind == ta[k].kind
            &&& big.subrange(t[(at + 1) + k].start as int, t[(at + 1) + k].end as int) == a.subrange(
                ta[k].start as int,
                ta[k].end as int,
            )
        } by {
            assert(t[at + (1 + k)] == shift_tokens(tx, off)[1 + k]);
            assert(tx[1 + k] == shift_tokens(ta, 2)[k]);
            assert(token_fits(a, ta[k]));
            let st = ta[k].start as int;
            let en = ta[k].end as int;
            assert(big.subrange(off + 2 + st, off + 2 + en) =~= a.subrange(st, en)) by {
                assert forall|i: int| 0 <= i < en - st implies #[trigger] big.subrange(off + 2 + st, off + 2 + en)[i] == a.subrange(st, en)[i] by {
                    assert(big[off + (2 + (st + i))] == x[2 + (st + i)]);
                }
            }
        }
        assert(embedded(a, ta, big, t, at + 1));
        lemma_embed_level(a, ta, big, t, at + 1, 0, 0);
    }
}

/// If `a` and `b` each parse to an expression, the rule text with `op`
/// between them parses to the operator node over the two, where an operand
/// written bare is a single token.
#[verifier::rlimit(80)]
#[verifier::spinoff_prover]
pub proof fn lemma_rule_parses(
    a: Seq<char>,
    bare_a: bool,
    op: Op,
    b: Seq<char>,
    bare_b: bool,
    l: ExprModel,
    r: ExprModel,
)
    requires
        parse_text(a, 0) == Some(l),
        parse_text(b, 0) == Some(r),
        bare_a ==> lex(a)->Ok_0.len() == 1,
        bare_b ==> lex(b)->Ok_0.len() == 1,
        rule_text(a, bare_a, op, b, bare_b).len() <= usize::MAX,
    ensures
        parse_text(rule_text(a, bare_a, op, b, bare_b), 0) == Some(ExprModel::Op(Box::new(l), op, Box::new(r))),
{
    let x = operand_text(a, bare_a);
    let y = operand_text(b, bare_b);
    let o = op_symbol(op);
    let xo = join(x, o);
    let big = join(xo, y);
    assert(big == rule_text(a, bare_a, op, b, bare_b));
    let ta = lex(a)->Ok_0;
    let tb = lex(b)->Ok_0;
    if ta.len() == 0 {
        lemma_parse_nothing(a, ta, 0, 0);
    }
    if tb.len() == 0 {
        lemma_parse_nothing(b, tb, 0, 0);
    }
    lemma_operand_tokens(a, bare_a);
    lemma_operand_tokens(b, bare_b);
    crate::laws::lemma_lex_op_symbol(op);
    lemma_lex_join(x, o);
    lemma_lex_join(xo, y);
    let tx = operand_tokens(ta, a.len() as int, bare_a);
    let ty = operand_tokens(tb, b.len() as int, bare_b);
    let t = lex(big)->Ok_0;
    let n = tx.len() as int;
    let off = xo.len() + 1int;
    assert(t.len() == n + 1 + ty.len());
    assert forall|k: int| 0 <= k < n implies #[trigger] t[0 + k] == shift_tokens(tx, 0)[k] by {
        assert(t[k] == tx[k]);
    }
    assert forall|i: int| 0 <= i < x.len() implies #[trigger] big[0 + i] == x[i] by {
        assert(xo[i] == x[i]);
    }
    assert forall|k: int| 0 <= k < ty.len() implies #[trigger] t[(n + 1) + k] == shift_tokens(ty, off)[k] by {}
    assert forall|i: int| 0 <= i < y.len() implies #[trigger] big[off + i] == y[i] by {}
    assert(t[n].kind == TokenKind::Op(op));
    lemma_operand_term(a, bare_a, l, big, t, 0, 0);
    lemma_operand_term(b, bare_b, r, big, t, n + 1, off);
    lemma_climb_over_op(big, t, 0, n, op, 0);
}

} // verus!
