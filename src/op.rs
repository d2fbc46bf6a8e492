//! The closed set of binary operators, grouped by precedence family.
use vstd::prelude::*;

verus! {

/// A binary operator. Operators carry no operands: they only select the
/// rule that the evaluator applies.
#[derive(Clone, Copy, Debug, PartialEq, Eq, Structural, PartialOrd)]
pub enum Op {
    Logical(LogicalOp),
    Equality(EqualityOp),
    Relational(RelationalOp),
    Additive(AdditiveOp),
    Multiplicative(MultiplicativeOp),
}

/// `&&` and `||`.
#[derive(Clone, Copy, Debug, PartialEq, Eq, Structural, PartialOrd)]
pub enum LogicalOp {
    And,
    Or,
}

/// `==`, `!=` and `in`.
#[derive(Clone, Copy, Debug, PartialEq, Eq, Structural, PartialOrd)]
pub enum EqualityOp {
    Eq,
    Neq,
    In,
}

/// `>`, `<`, `>=` and `<=`.
#[derive(Clone, Copy, Debug, PartialEq, Eq, Structural, PartialOrd)]
pub enum RelationalOp {
    Gt,
    Lt,
    Gte,
    Lte,
}

/// `+` and `-`.
#[derive(Clone, Copy, Debug, PartialEq, Eq, Structural, PartialOrd)]
pub enum AdditiveOp {
    Add,
    Sub,
}

/// `*`, `/` and `%`.
#[derive(Clone, Copy, Debug, PartialEq, Eq, Structural, PartialOrd)]
pub enum MultiplicativeOp {
    Mul,
    Div,
    Mod,
}

/// The symbol that writes an operator, in source text and in JSON rules.
pub open spec fn op_symbol(op: Op) -> Seq<char> {
    match op {
        Op::Logical(LogicalOp::And) => seq!['&', '&'],
        Op::Logical(LogicalOp::Or) => seq!['|', '|'],
        Op::Equality(EqualityOp::Eq) => seq!['=', '='],
        Op::Equality(EqualityOp::Neq) => seq!['!', '='],
        Op::Equality(EqualityOp::In) => seq!['i', 'n'],
        Op::Relational(RelationalOp::Gt) => seq!['>'],
        Op::Relational(RelationalOp::Lt) => seq!['<'],
        Op::Relational(RelationalOp::Gte) => seq!['>', '='],
        Op::Relational(RelationalOp::Lte) => seq!['<', '='],
        Op::Additive(AdditiveOp::Add) => seq!['+'],
        Op::Additive(AdditiveOp::Sub) => seq!['-'],
        Op::Multiplicative(MultiplicativeOp::Mul) => seq!['*'],
        Op::Multiplicative(MultiplicativeOp::Div) => seq!['/'],
        Op::Multiplicative(MultiplicativeOp::Mod) => seq!['%'],
    }
}

/// The operator written by `s`, if any.
pub open spec fn op_of_symbol(s: Seq<char>) -> Option<Op> {
    if s.len() == 1 {
        match s[0] {
            '>' => Some(Op::Relational(RelationalOp::Gt)),
            '<' => Some(Op::Relational(RelationalOp::Lt)),
            '+' => Some(Op::Additive(AdditiveOp::Add)),
            '-' => Some(Op::Additive(AdditiveOp::Sub)),
            '*' => Some(Op::Multiplicative(MultiplicativeOp::Mul)),
            '/' => Some(Op::Multiplicative(MultiplicativeOp::Div)),
            '%' => Some(Op::Multiplicative(MultiplicativeOp::Mod)),
            _ => None,
        }
    } else if s.len() == 2 {
        match (s[0], s[1]) {
            ('&', '&') => Some(Op::Logical(LogicalOp::And)),
            ('|', '|') => Some(Op::Logical(LogicalOp::Or)),
            ('=', '=') => Some(Op::Equality(EqualityOp::Eq)),
            ('!', '=') => Some(Op::Equality(EqualityOp::Neq)),
            ('i', 'n') => Some(Op::Equality(EqualityOp::In)),
            ('>', '=') => Some(Op::Relational(RelationalOp::Gte)),
            ('<', '=') => Some(Op::Relational(RelationalOp::Lte)),
            _ => None,
        }
    } else {
        None
    }
}

/// Reading an operator's symbol gives the operator back, and a symbol is
/// read as an operator only if it is that operator's symbol.
pub proof fn lemma_op_symbol_round_trip(op: Op, s: Seq<char>)
    ensures
        op_of_symbol(op_symbol(op)) == Some(op),
        op_of_symbol(s) == Some(op) ==> op_symbol(op) == s,
{
    if op_of_symbol(s) == Some(op) {
        assert(op_symbol(op) =~= s);
    }
}

impl Op {
    /// The symbol of this operator, e.g. `">="`.
    pub fn to_string(&self) -> (r: String)
        ensures
            r@ == op_symbol(*self),
    {
        let s: &str = match *self {
            Op::Logical(o) => o.symbol(),
            Op::Equality(o) => o.symbol(),
            Op::Relational(o) => o.symbol(),
            Op::Additive(o) => o.symbol(),
            Op::Multiplicative(o) => o.symbol(),
        };
        s.to_string()
    }

    /// The operator that `symbol` writes, e.g. `Op::Equality(EqualityOp::In)`
    /// for `"in"`; `None` where it writes none.
    pub fn from_symbol(symbol: &str) -> (r: Option<Op>)
        ensures
            r == op_of_symbol(symbol@),
    {
        let n = symbol.unicode_len();
        if n == 1 {
            match symbol.get_char(0) {
                '>' => Some(Op::Relational(RelationalOp::Gt)),
                '<' => Some(Op::Relational(RelationalOp::Lt)),
                '+' => Some(Op::Additive(AdditiveOp::Add)),
                '-' => Some(Op::Additive(AdditiveOp::Sub)),
                '*' => Some(Op::Multiplicative(MultiplicativeOp::Mul)),
                '/' => Some(Op::Multiplicative(MultiplicativeOp::Div)),
                '%' => Some(Op::Multiplicative(MultiplicativeOp::Mod)),
                _ => None,
            }
        } else if n == 2 {
            match (symbol.get_char(0), symbol.get_char(1)) {
                ('&', '&') => Some(Op::Logical(LogicalOp::And)),
                ('|', '|') => Some(Op::Logical(LogicalOp::Or)),
                ('=', '=') => Some(Op::Equality(EqualityOp::Eq)),
                ('!', '=') => Some(Op::Equality(EqualityOp::Neq)),
                ('i', 'n') => Some(Op::Equality(EqualityOp::In)),
                ('>', '=') => Some(Op::Relational(RelationalOp::Gte)),
                ('<', '=') => Some(Op::Relational(RelationalOp::Lte)),
                _ => None,
            }
        } else {
            None
        }
    }
}

impl LogicalOp {
    pub fn symbol(&self) -> (r: &'static str)
        ensures
            r@ == op_symbol(Op::Logical(*self)),
    {
        match *self {
            LogicalOp::And => {
                proof { reveal_strlit("&&"); }
                "&&"
            },
            LogicalOp::Or => {
                proof { reveal_strlit("||"); }
                "||"
            },
        }
    }
}

impl EqualityOp {
    pub fn symbol(&self) -> (r: &'static str)
        ensures
            r@ == op_symbol(Op::Equality(*self)),
    {
        match *self {
            EqualityOp::Eq => {
                proof { reveal_strlit("=="); }
                "=="
            },
            EqualityOp::Neq => {
                proof { reveal_strlit("!="); }
                "!="
            },
            EqualityOp::In => {
                proof { reveal_strlit("in"); }
                "in"
            },
        }
    }
}

impl RelationalOp {
    pub fn symbol(&self) -> (r: &'static str)
        ensures
            r@ == op_symbol(Op::Relational(*self)),
    {
        match *self {
            RelationalOp::Gt => {
                proof { reveal_strlit(">"); }
                ">"
            },
            RelationalOp::Lt => {
                proof { reveal_strlit("<"); }
                "<"
            },
            RelationalOp::Gte => {
                proof { reveal_strlit(">="); }
                ">="
            },
            RelationalOp::Lte => {
                proof { reveal_strlit("<="); }
                "<="
            },
        }
    }
}

impl AdditiveOp {
    pub fn symbol(&self) -> (r: &'static str)
        ensures
            r@ == op_symbol(Op::Additive(*self)),
    {
        match *self {
            AdditiveOp::Add => {
                proof { reveal_strlit("+"); }
                "+"
            },
            AdditiveOp::Sub => {
                proof { reveal_strlit("-"); }
                "-"
            },
        }
    }
}

impl MultiplicativeOp {
    pub fn symbol(&self) -> (r: &'static str)
        ensures
            r@ == op_symbol(Op::Multiplicative(*self)),
    {
        match *self {
            MultiplicativeOp::Mul => {
                proof { reveal_strlit("*"); }
                "*"
            },
            MultiplicativeOp::Div => {
                proof { reveal_strlit("/"); }
                "/"
            },
            MultiplicativeOp::Mod => {
                proof { reveal_strlit("%"); }
                "%"
            },
        }
    }
}

impl From<LogicalOp> for Op {
    fn from(op: LogicalOp) -> (r: Op) {
        Op::Logical(op)
    }
}

impl vstd::std_specs::convert::FromSpecImpl<LogicalOp> for Op {
    open spec fn obeys_from_spec() -> bool {
        true
    }

    open spec fn from_spec(op: LogicalOp) -> Op {
        Op::Logical(op)
    }
}

impl From<EqualityOp> for Op {
    fn from(op: EqualityOp) -> (r: Op) {
        Op::Equality(op)
    }
}

impl vstd::std_specs::convert::FromSpecImpl<EqualityOp> for Op {
    open spec fn obeys_from_spec() -> bool {
        true
    }

    open spec fn from_spec(op: EqualityOp) -> Op {
        Op::Equality(op)
    }
}

impl From<RelationalOp> for Op {
    fn from(op: RelationalOp) -> (r: Op) {
        Op::Relational(op)
    }
}

impl vstd::std_specs::convert::FromSpecImpl<RelationalOp> for Op {
    open spec fn obeys_from_spec() -> bool {
        true
    }

    open spec fn from_spec(op: RelationalOp) -> Op {
        Op::Relational(op)
    }
}

impl From<AdditiveOp> for Op {
    fn from(op: AdditiveOp) -> (r: Op) {
        Op::Additive(op)
    }
}

impl vstd::std_specs::convert::FromSpecImpl<AdditiveOp> for Op {
    open spec fn obeys_from_spec() -> bool {
        true
    }

    open spec fn from_spec(op: AdditiveOp) -> Op {
        Op::Additive(op)
    }
}

impl From<MultiplicativeOp> for Op {
    fn from(op: MultiplicativeOp) -> (r: Op) {
        Op::Multiplicative(op)
    }
}

impl vstd::std_specs::convert::FromSpecImpl<MultiplicativeOp> for Op {
    open spec fn obeys_from_spec() -> bool {
        true
    }

    open spec fn from_spec(op: MultiplicativeOp) -> Op {
        Op::Multiplicative(op)
    }
}

} // verus!
