//! Laws that relate several calls of the library: evaluation is
//! repeatable, and the textual and JSON front-ends build the same trees for
//! rules that say the same thing.
use vstd::prelude::*;
use vstd::std_specs::vec::axiom_vec_index_decreases;
use crate::concat::{lemma_rule_parses, rule_text};
use crate::evaluator::{eval, result_model, EvaluatorError};
use crate::expr::{Expr, ExprModel};
use crate::json::{JsonValue, expr_of_json, member_index, op_of_text, single_token};
use crate::lexer::{
    Token, TokenKind, lemma_lex_from_fits, lex, lex_from, scan_token, skip_spaces, stands_at, token_fits,
};
use crate::op::{EqualityOp, Op, op_symbol};
use crate::parameters::Parameters;
use crate::parser::{parsed, ParserErrorModel, fold_level, parse_level, parse_term, parse_text};
use crate::text::strip_ends;
use crate::value::{Value, ValueModel};

verus! {

/// Evaluation is referentially transparent: two evaluations of one
/// expression against one binding give the same result (the value, or the
/// error, with the same content). Each result of `evaluate` meets the
/// `requires` here, by `evaluate`'s own contract.
pub proof fn lemma_evaluate_deterministic(
    expr: Expr,
    parameters: Parameters,
    first: Result<Value, EvaluatorError>,
    second: Result<Value, EvaluatorError>,
)
    requires
        parameters.wf(),
        result_model(first) == eval(expr.model(), parameters.view()),
        result_model(second) == eval(expr.model(), parameters.view()),
    ensures
        result_model(first) == result_model(second),
{
}

/// A text of one token that is a literal or an identifier parses, at every
/// binding level, to that term alone.
proof fn lemma_single_term(s: Seq<char>, t: Seq<Token>, level: int)
    requires
        t.len() == 1,
        parse_term(s, t, 0) matches Ok((m, j)) && j == 1,
        0 <= level <= 4,
    ensures
        parse_level(s, t, 0, level) == parse_term(s, t, 0),
    decreases 4 - level,
{
    if level < 4 {
        lemma_single_term(s, t, level + 1);
        let (m, _) = parse_term(s, t, 0)->Ok_0;
        assert(fold_level(s, t, 1, level, m) == parsed(m, 1int));
    }
}

/// Whether the JSON leaf `j` writes the same identifier or literal as the
/// one token `tok` of text `s`: an identifier token by the same text as a
/// JSON string; a quoted string by its contents (which do not read as an
/// identifier); a numeral by the same numeral; `true` and `false` by the JSON
/// booleans.
pub open spec fn same_leaf(s: Seq<char>, tok: Token, j: JsonValue) -> bool {
    let written = s.subrange(tok.start as int, tok.end as int);
    match tok.kind {
        TokenKind::Identifier => j matches JsonValue::String(x) && x@ == s,
        TokenKind::Str => j matches JsonValue::String(x) && x@ == strip_ends(written)
            && !(single_token(x@) matches Some(u) && u.kind is Identifier),
        TokenKind::Number(_) => j matches JsonValue::Number(x) && x@ == written,
        TokenKind::True => j == JsonValue::Bool(true),
        TokenKind::False => j == JsonValue::Bool(false),
        _ => false,
    }
}

/// The two front-ends agree on leaves: a text that is a single identifier,
/// string, numeral or boolean token and the JSON leaf that writes the same
/// name or literal give structurally equal trees.
pub proof fn lemma_text_and_json_leaves_agree(s: Seq<char>, j: JsonValue)
    requires
        single_token(s) matches Some(tok) && same_leaf(s, tok, j),
    ensures
        parse_text(s, 0) matches Some(m) && expr_of_json(j) == Ok::<ExprModel, ParserErrorModel>(m),
{
    let t = lex(s)->Ok_0;
    let tok = t[0];
    assert(parse_term(s, t, 0) matches Ok((m, n)) && n == 1);
    lemma_single_term(s, t, 0);
    lemma_lex_from_fits(s, 0);
    assert(token_fits(s, t[0]));
}

/// Each operator's symbol lexes to that operator alone.
pub proof fn lemma_lex_op_symbol(op: Op)
    ensures
        lex(op_symbol(op)) == Ok::<Seq<Token>, int>(
            seq![Token { kind: TokenKind::Op(op), start: 0, end: op_symbol(op).len() as usize }],
        ),
{
    let s = op_symbol(op);
    let n = s.len() as int;
    assert(1 <= n <= 2);
    assert(skip_spaces(s, 0) == 0);
    assert(!stands_at(s, 0, seq!['t', 'r', 'u', 'e']));
    assert(!stands_at(s, 0, seq!['f', 'a', 'l', 's', 'e']));
    if op == Op::Equality(EqualityOp::In) {
        assert(s.subrange(0, 2) =~= seq!['i', 'n']);
        assert(stands_at(s, 0, seq!['i', 'n']));
    } else {
        if n == 2 {
            assert(s.subrange(0, 2)[0] != 'i');
        }
        assert(!stands_at(s, 0, seq!['i', 'n']));
    }
    assert(scan_token(s, 0) == Some((TokenKind::Op(op), n)));
    assert(skip_spaces(s, n) == n);
    assert(lex_from(s, n) == Ok::<Seq<Token>, int>(Seq::empty()));
    assert(seq![Token { kind: TokenKind::Op(op), start: 0, end: n as usize }] + Seq::<Token>::empty()
        =~= seq![Token { kind: TokenKind::Op(op), start: 0, end: n as usize }]);
}

/// The JSON front-end reads each operator's symbol as that operator, the
/// same one that the textual grammar reads.
pub proof fn lemma_json_op_symbols(op: Op)
    ensures
        op_of_text(op_symbol(op)) == Some(op),
{
    lemma_lex_op_symbol(op);
}

/// Whether `text` writes the JSON rule `j` in the textual grammar: a leaf
/// by one token that writes the same name or literal (`same_leaf`), and a
/// rule object by its two operands around the symbol of the operator that its
/// `op` member names, each operand written bare (where it is a leaf) or in
/// parentheses (`rule_text`), `a` writing its `lhs` and `b` its `rhs`.
pub open spec fn writes(text: Seq<char>, j: JsonValue) -> bool
    decreases j,
{
    match j {
        JsonValue::Object(m) => match (member_index(m@, "lhs"@, 0), member_index(m@, "op"@, 0), member_index(m@, "rhs"@, 0)) {
            (Some(li), Some(oi), Some(ri)) => {
                &&& 0 <= li < m.len()
                &&& 0 <= oi < m.len()
                &&& 0 <= ri < m.len()
                &&& m@[oi].1 matches JsonValue::String(sym) && op_of_text(sym@) matches Some(op)
                    && exists|a: Seq<char>, bare_a: bool, b: Seq<char>, bare_b: bool|
                        #[trigger] rule_text(a, bare_a, op, b, bare_b) == text
                        && (bare_a ==> !(m@[li].1 is Object)) && (bare_b ==> !(m@[ri].1 is Object))
                        && writes(a, m@[li].1) && writes(b, m@[ri].1)
            },
            _ => false,
        },
        _ => single_token(text) matches Some(tok) && same_leaf(text, tok, j),
    }
}

/// The two front-ends agree: where a text writes a JSON rule (`writes`), as
/// `1 + 2` writes `{"lhs": 1, "op": "+", "rhs": 2}`, and the rule
/// translates, the text parses to the same tree, so both evaluate alike.
pub proof fn lemma_text_and_json_agree(text: Seq<char>, j: JsonValue)
    requires
        writes(text, j),
        expr_of_json(j) is Ok,
        text.len() <= usize::MAX,
    ensures
        parse_text(text, 0) == Some(expr_of_json(j)->Ok_0),
    decreases j,
{
    match j {
        JsonValue::Object(m) => {
            let li = member_index(m@, "lhs"@, 0)->0;
            let oi = member_index(m@, "op"@, 0)->0;
            let ri = member_index(m@, "rhs"@, 0)->0;
            let sym = m@[oi].1->String_0;
            let op = op_of_text(sym@)->0;
            let (a, bare_a, b, bare_b) = choose|a: Seq<char>, bare_a: bool, b: Seq<char>, bare_b: bool|
                #[trigger] rule_text(a, bare_a, op, b, bare_b) == text
                && (bare_a ==> !(m@[li].1 is Object)) && (bare_b ==> !(m@[ri].1 is Object))
                && writes(a, m@[li].1) && writes(b, m@[ri].1);
            axiom_vec_index_decreases(m, li);
            axiom_vec_index_decreases(m, ri);
            assert(a.len() <= text.len() && b.len() <= text.len());
            lemma_text_and_json_agree(a, m@[li].1);
            lemma_text_and_json_agree(b, m@[ri].1);
            let l = expr_of_json(m@[li].1)->Ok_0;
            let r = expr_of_json(m@[ri].1)->Ok_0;
            lemma_rule_parses(a, bare_a, op, b, bare_b, l, r);
        },
        _ => {
            lemma_text_and_json_leaves_agree(text, j);
        },
    }
}

} // verus!
