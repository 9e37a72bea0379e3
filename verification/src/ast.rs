//! The boolean-expression syntax tree and its parser. The accepted
//! statement shape is `SELECT <items> [WHERE <expr>]`; the expression
//! grammar has, from loosest to tightest binding: `OR`, `AND`,
//! comparisons and `LIKE`, `||`, then atoms and parentheses.
//!
//! Each `*_spec` function is the mathematical definition of one
//! precedence level over the token models; the executable parser
//! computes it. A spec-level result position outside the token range
//! is treated as a failure; the executable parser shows it never
//! arises.

use vstd::prelude::*;

use crate::lex::{toks_view, Token, TokenView};

verus! {

/// A binary operator of the expression grammar.
#[derive(Clone, Copy, Debug, PartialEq, Eq, Structural, Hash)]
pub enum BinOp {
    Eq,
    NotEq,
    Gt,
    Lt,
    GtEq,
    LtEq,
    And,
    Or,
    StringConcat,
}

/// A boolean sub-expression.
#[derive(Debug)]
pub enum Expr {
    /// A bare or double-quoted identifier.
    Ident { value: String, quoted: bool },
    /// A single-quoted string literal.
    StrLit(String),
    /// An integer literal, kept as text.
    Number(String),
    BoolLit(bool),
    BinaryOp { op: BinOp, left: Box<Expr>, right: Box<Expr> },
    Like { expr: Box<Expr>, pattern: Box<Expr> },
    /// A parenthesized sub-expression.
    Nested(Box<Expr>),
}

/// The model of an expression, with character sequences for the texts.
pub enum ExprView {
    Ident { value: Seq<char>, quoted: bool },
    StrLit(Seq<char>),
    Number(Seq<char>),
    BoolLit(bool),
    BinaryOp { op: BinOp, left: Box<ExprView>, right: Box<ExprView> },
    Like { expr: Box<ExprView>, pattern: Box<ExprView> },
    Nested(Box<ExprView>),
}

pub open spec fn expr_view(e: Expr) -> ExprView
    decreases e,
{
    match e {
        Expr::Ident { value, quoted } => ExprView::Ident { value: value@, quoted },
        Expr::StrLit(s) => ExprView::StrLit(s@),
        Expr::Number(s) => ExprView::Number(s@),
        Expr::BoolLit(b) => ExprView::BoolLit(b),
        Expr::BinaryOp { op, left, right } => ExprView::BinaryOp {
            op,
            left: Box::new(expr_view(*left)),
            right: Box::new(expr_view(*right)),
        },
        Expr::Like { expr, pattern } => ExprView::Like {
            expr: Box::new(expr_view(*expr)),
            pattern: Box::new(expr_view(*pattern)),
        },
        Expr::Nested(e) => ExprView::Nested(Box::new(expr_view(*e))),
    }
}

impl View for Expr {
    type V = ExprView;

    open spec fn view(&self) -> ExprView {
        expr_view(*self)
    }
}

/// The textual symbol of each operator, as queries write it.
pub open spec fn op_symbol(op: BinOp) -> Seq<char> {
    match op {
        BinOp::Eq => "="@,
        BinOp::NotEq => "<>"@,
        BinOp::Gt => ">"@,
        BinOp::Lt => "<"@,
        BinOp::GtEq => ">="@,
        BinOp::LtEq => "<="@,
        BinOp::And => "AND"@,
        BinOp::Or => "OR"@,
        BinOp::StringConcat => "||"@,
    }
}

impl BinOp {
    /// The operator's textual symbol.
    pub fn symbol(&self) -> (r: &'static str)
        ensures
            r@ == op_symbol(*self),
    {
        match self {
            BinOp::Eq => "=",
            BinOp::NotEq => "<>",
            BinOp::Gt => ">",
            BinOp::Lt => "<",
            BinOp::GtEq => ">=",
            BinOp::LtEq => "<=",
            BinOp::And => "AND",
            BinOp::Or => "OR",
            BinOp::StringConcat => "||",
        }
    }
}

/// The comparison operator a token denotes, if any.
pub open spec fn tok_cmp_op(t: TokenView) -> Option<BinOp> {
    match t {
        TokenView::Eq => Option::Some(BinOp::Eq),
        TokenView::NotEq => Option::Some(BinOp::NotEq),
        TokenView::Gt => Option::Some(BinOp::Gt),
        TokenView::Lt => Option::Some(BinOp::Lt),
        TokenView::GtEq => Option::Some(BinOp::GtEq),
        TokenView::LtEq => Option::Some(BinOp::LtEq),
        _ => Option::None,
    }
}

pub open spec fn parse_primary_spec(ts: Seq<TokenView>, i: int) -> Option<(ExprView, int)>
    decreases ts.len() - i, 1int,
{
    if !(0 <= i && i < ts.len()) {
        Option::None
    } else {
        match ts[i] {
            TokenView::Ident(v) => Option::Some((ExprView::Ident { value: v, quoted: false }, i + 1)),
            TokenView::QuotedIdent(v) => Option::Some(
                (ExprView::Ident { value: v, quoted: true }, i + 1),
            ),
            TokenView::StrLit(v) => Option::Some((ExprView::StrLit(v), i + 1)),
            TokenView::Number(v) => Option::Some((ExprView::Number(v), i + 1)),
            TokenView::True => Option::Some((ExprView::BoolLit(true), i + 1)),
            TokenView::False => Option::Some((ExprView::BoolLit(false), i + 1)),
            TokenView::LParen => match parse_or_spec(ts, i + 1) {
                Option::None => Option::None,
                Option::Some((e, j)) => if j < ts.len() && ts[j] is RParen {
                    Option::Some((ExprView::Nested(Box::new(e)), j + 1))
                } else {
                    Option::None
                },
            },
            _ => Option::None,
        }
    }
}

pub open spec fn parse_concat_spec(ts: Seq<TokenView>, i: int) -> Option<(ExprView, int)>
    decreases ts.len() - i, 3int,
{
    if !(0 <= i && i <= ts.len()) {
        Option::None
    } else {
        match parse_primary_spec(ts, i) {
            Option::None => Option::None,
            Option::Some((e, j)) => if i < j && j <= ts.len() {
                concat_tail_spec(ts, j, e)
            } else {
                Option::None
            },
        }
    }
}

pub open spec fn concat_tail_spec(ts: Seq<TokenView>, j: int, acc: ExprView) -> Option<
    (ExprView, int),
>
    decreases ts.len() - j, 2int,
{
    if !(0 <= j && j <= ts.len()) {
        Option::None
    } else if j < ts.len() && ts[j] is Concat {
        match parse_primary_spec(ts, j + 1) {
            Option::None => Option::None,
            Option::Some((r, k)) => if j < k && k <= ts.len() {
                concat_tail_spec(
                    ts,
                    k,
                    ExprView::BinaryOp {
                        op: BinOp::StringConcat,
                        left: Box::new(acc),
                        right: Box::new(r),
                    },
                )
            } else {
                Option::None
            },
        }
    } else {
        Option::Some((acc, j))
    }
}

pub open spec fn parse_cmp_spec(ts: Seq<TokenView>, i: int) -> Option<(ExprView, int)>
    decreases ts.len() - i, 5int,
{
    if !(0 <= i && i <= ts.len()) {
        Option::None
    } else {
        match parse_concat_spec(ts, i) {
            Option::None => Option::None,
            Option::Some((e, j)) => if i < j && j <= ts.len() {
                cmp_tail_spec(ts, j, e)
            } else {
                Option::None
            },
        }
    }
}

pub open spec fn cmp_tail_spec(ts: Seq<TokenView>, j: int, acc: ExprView) -> Option<
    (ExprView, int),
>
    decreases ts.len() - j, 4int,
{
    if !(0 <= j && j <= ts.len()) {
        Option::None
    } else if j < ts.len() && tok_cmp_op(ts[j]) is Some {
        match tok_cmp_op(ts[j]) {
            Option::None => Option::None,
            Option::Some(op) => match parse_concat_spec(ts, j + 1) {
                Option::None => Option::None,
                Option::Some((r, k)) => if j < k && k <= ts.len() {
                    cmp_tail_spec(
                        ts,
                        k,
                        ExprView::BinaryOp { op, left: Box::new(acc), right: Box::new(r) },
                    )
                } else {
                    Option::None
                },
            },
        }
    } else if j < ts.len() && ts[j] is Like {
        match parse_concat_spec(ts, j + 1) {
            Option::None => Option::None,
            Option::Some((r, k)) => if j < k && k <= ts.len() {
                cmp_tail_spec(
                    ts,
                    k,
                    ExprView::Like { expr: Box::new(acc), pattern: Box::new(r) },
                )
            } else {
                Option::None
            },
        }
    } else {
        Option::Some((acc, j))
    }
}

pub open spec fn parse_and_spec(ts: Seq<TokenView>, i: int) -> Option<(ExprView, int)>
    decreases ts.len() - i, 7int,
{
    if !(0 <= i && i <= ts.len()) {
        Option::None
    } else {
        match parse_cmp_spec(ts, i) {
            Option::None => Option::None,
            Option::Some((e, j)) => if i < j && j <= ts.len() {
                and_tail_spec(ts, j, e)
            } else {
                Option::None
            },
        }
    }
}

pub open spec fn and_tail_spec(ts: Seq<TokenView>, j: int, acc: ExprView) -> Option<
    (ExprView, int),
>
    decreases ts.len() - j, 6int,
{
    if !(0 <= j && j <= ts.len()) {
        Option::None
    } else if j < ts.len() && ts[j] is And {
        match parse_cmp_spec(ts, j + 1) {
            Option::None => Option::None,
            Option::Some((r, k)) => if j < k && k <= ts.len() {
                and_tail_spec(
                    ts,
                    k,
                    ExprView::BinaryOp { op: BinOp::And, left: Box::new(acc), right: Box::new(r) },
                )
            } else {
                Option::None
            },
        }
    } else {
        Option::Some((acc, j))
    }
}

pub open spec fn parse_or_spec(ts: Seq<TokenView>, i: int) -> Option<(ExprView, int)>
    decreases ts.len() - i, 9int,
{
    if !(0 <= i && i <= ts.len()) {
        Option::None
    } else {
        match parse_and_spec(ts, i) {
            Option::None => Option::None,
            Option::Some((e, j)) => if i < j && j <= ts.len() {
                or_tail_spec(ts, j, e)
            } else {
                Option::None
            },
        }
    }
}

pub open spec fn or_tail_spec(ts: Seq<TokenView>, j: int, acc: ExprView) -> Option<
    (ExprView, int),
>
    decreases ts.len() - j, 8int,
{
    if !(0 <= j && j <= ts.len()) {
        Option::None
    } else if j < ts.len() && ts[j] is Or {
        match parse_and_spec(ts, j + 1) {
            Option::None => Option::None,
            Option::Some((r, k)) => if j < k && k <= ts.len() {
                or_tail_spec(
                    ts,
                    k,
                    ExprView::BinaryOp { op: BinOp::Or, left: Box::new(acc), right: Box::new(r) },
                )
            } else {
                Option::None
            },
        }
    } else {
        Option::Some((acc, j))
    }
}

/// A token that may stand as one projected column.
pub open spec fn is_proj_item(t: TokenView) -> bool {
    match t {
        TokenView::Star => true,
        TokenView::Ident(_) => true,
        TokenView::QuotedIdent(_) => true,
        TokenView::StrLit(_) => true,
        TokenView::Number(_) => true,
        TokenView::True => true,
        TokenView::False => true,
        _ => false,
    }
}

/// End position of the comma-separated projection list beginning at
/// `i`; the columns themselves are accepted but ignored.
pub open spec fn proj_spec(ts: Seq<TokenView>, i: int) -> Option<int>
    decreases ts.len() - i,
{
    if !(0 <= i && i < ts.len()) {
        Option::None
    } else if !is_proj_item(ts[i]) {
        Option::None
    } else if i + 1 < ts.len() && ts[i + 1] is Comma {
        proj_spec(ts, i + 2)
    } else {
        Option::Some(i + 1)
    }
}

/// The WHERE expression of a `SELECT` statement: `None` when the
/// statement is malformed, `Some(None)` when it has no WHERE clause.
pub open spec fn parse_stmt_spec(ts: Seq<TokenView>) -> Option<Option<ExprView>> {
    if ts.len() == 0 || !(ts[0] is Select) {
        Option::None
    } else {
        match proj_spec(ts, 1) {
            Option::None => Option::None,
            Option::Some(i) => if i == ts.len() {
                Option::Some(Option::None)
            } else if ts[i] is Where {
                match parse_or_spec(ts, i + 1) {
                    Option::None => Option::None,
                    Option::Some((e, j)) => if j == ts.len() {
                        Option::Some(Option::Some(e))
                    } else {
                        Option::None
                    },
                }
            } else {
                Option::None
            },
        }
    }
}

fn cmp_op_of(t: &Token) -> (r: Option<BinOp>)
    ensures
        r == tok_cmp_op(t@),
{
    match t {
        Token::Eq => Option::Some(BinOp::Eq),
        Token::NotEq => Option::Some(BinOp::NotEq),
        Token::Gt => Option::Some(BinOp::Gt),
        Token::Lt => Option::Some(BinOp::Lt),
        Token::GtEq => Option::Some(BinOp::GtEq),
        Token::LtEq => Option::Some(BinOp::LtEq),
        _ => Option::None,
    }
}

fn parse_primary(ts: &Vec<Token>, i: usize) -> (r: Option<(Expr, usize)>)
    requires
        i <= ts@.len(),
    ensures
        match r {
            Option::Some(p) => parse_primary_spec(toks_view(ts@), i as int) == Option::Some(
                (p.0@, p.1 as int),
            ) && i < p.1 <= ts@.len(),
            Option::None => parse_primary_spec(toks_view(ts@), i as int) is None,
        },
    decreases ts@.len() - i, 1int,
{
    if i == ts.len() {
        return Option::None;
    }
    match &ts[i] {
        Token::Ident(s) => Option::Some((Expr::Ident { value: s.clone(), quoted: false }, i + 1)),
        Token::QuotedIdent(s) => Option::Some(
            (Expr::Ident { value: s.clone(), quoted: true }, i + 1),
        ),
        Token::StrLit(s) => Option::Some((Expr::StrLit(s.clone()), i + 1)),
        Token::Number(s) => Option::Some((Expr::Number(s.clone()), i + 1)),
        Token::True => Option::Some((Expr::BoolLit(true), i + 1)),
        Token::False => Option::Some((Expr::BoolLit(false), i + 1)),
        Token::LParen => {
            match parse_or(ts, i + 1) {
                Option::None => Option::None,
                Option::Some((e, j)) => {
                    if j < ts.len() && matches!(&ts[j], Token::RParen) {
                        Option::Some((Expr::Nested(Box::new(e)), j + 1))
                    } else {
                        Option::None
                    }
                },
            }
        },
        _ => Option::None,
    }
}

fn parse_concat(ts: &Vec<Token>, i: usize) -> (r: Option<(Expr, usize)>)
    requires
        i <= ts@.len(),
    ensures
        match r {
            Option::Some(p) => parse_concat_spec(toks_view(ts@), i as int) == Option::Some(
                (p.0@, p.1 as int),
            ) && i < p.1 <= ts@.len(),
            Option::None => parse_concat_spec(toks_view(ts@), i as int) is None,
        },
    decreases ts@.len() - i, 3int,
{
    match parse_primary(ts, i) {
        Option::None => Option::None,
        Option::Some((e, j)) => concat_tail(ts, j, e),
    }
}

fn concat_tail(ts: &Vec<Token>, j: usize, acc: Expr) -> (r: Option<(Expr, usize)>)
    requires
        j <= ts@.len(),
    ensures
        match r {
            Option::Some(p) => concat_tail_spec(toks_view(ts@), j as int, acc@) == Option::Some(
                (p.0@, p.1 as int),
            ) && j <= p.1 <= ts@.len(),
            Option::None => concat_tail_spec(toks_view(ts@), j as int, acc@) is None,
        },
    decreases ts@.len() - j, 2int,
{
    if j < ts.len() && matches!(&ts[j], Token::Concat) {
        match parse_primary(ts, j + 1) {
            Option::None => Option::None,
            Option::Some((r, k)) => concat_tail(
                ts,
                k,
                Expr::BinaryOp {
                    op: BinOp::StringConcat,
                    left: Box::new(acc),
                    right: Box::new(r),
                },
            ),
        }
    } else {
        Option::Some((acc, j))
    }
}

fn parse_cmp(ts: &Vec<Token>, i: usize) -> (r: Option<(Expr, usize)>)
    requires
        i <= ts@.len(),
    ensures
        match r {
            Option::Some(p) => parse_cmp_spec(toks_view(ts@), i as int) == Option::Some(
                (p.0@, p.1 as int),
            ) && i < p.1 <= ts@.len(),
            Option::None => parse_cmp_spec(toks_view(ts@), i as int) is None,
        },
    decreases ts@.len() - i, 5int,
{
    match parse_concat(ts, i) {
        Option::None => Option::None,
        Option::Some((e, j)) => cmp_tail(ts, j, e),
    }
}

fn cmp_tail(ts: &Vec<Token>, j: usize, acc: Expr) -> (r: Option<(Expr, usize)>)
    requires
        j <= ts@.len(),
    ensures
        match r {
            Option::Some(p) => cmp_tail_spec(toks_view(ts@), j as int, acc@) == Option::Some(
                (p.0@, p.1 as int),
            ) && j <= p.1 <= ts@.len(),
            Option::None => cmp_tail_spec(toks_view(ts@), j as int, acc@) is None,
        },
    decreases ts@.len() - j, 4int,
{
    if j < ts.len() {
        let op = cmp_op_of(&ts[j]);
        match op {
            Option::Some(op) => {
                match parse_concat(ts, j + 1) {
                    Option::None => Option::None,
                    Option::Some((r, k)) => cmp_tail(
                        ts,
                        k,
                        Expr::BinaryOp { op, left: Box::new(acc), right: Box::new(r) },
                    ),
                }
            },
            Option::None => {
                if matches!(&ts[j], Token::Like) {
                    match parse_concat(ts, j + 1) {
                        Option::None => Option::None,
                        Option::Some((r, k)) => cmp_tail(
                            ts,
                            k,
                            Expr::Like { expr: Box::new(acc), pattern: Box::new(r) },
                        ),
                    }
                } else {
                    Option::Some((acc, j))
                }
            },
        }
    } else {
        Option::Some((acc, j))
    }
}

fn parse_and(ts: &Vec<Token>, i: usize) -> (r: Option<(Expr, usize)>)
    requires
        i <= ts@.len(),
    ensures
        match r {
            Option::Some(p) => parse_and_spec(toks_view(ts@), i as int) == Option::Some(
                (p.0@, p.1 as int),
            ) && i < p.1 <= ts@.len(),
            Option::None => parse_and_spec(toks_view(ts@), i as int) is None,
        },
    decreases ts@.len() - i, 7int,
{
    match parse_cmp(ts, i) {
        Option::None => Option::None,
        Option::Some((e, j)) => and_tail(ts, j, e),
    }
}

fn and_tail(ts: &Vec<Token>, j: usize, acc: Expr) -> (r: Option<(Expr, usize)>)
    requires
        j <= ts@.len(),
    ensures
        match r {
            Option::Some(p) => and_tail_spec(toks_view(ts@), j as int, acc@) == Option::Some(
                (p.0@, p.1 as int),
            ) && j <= p.1 <= ts@.len(),
            Option::None => and_tail_spec(toks_view(ts@), j as int, acc@) is None,
        },
    decreases ts@.len() - j, 6int,
{
    if j < ts.len() && matches!(&ts[j], Token::And) {
        match parse_cmp(ts, j + 1) {
            Option::None => Option::None,
            Option::Some((r, k)) => and_tail(
                ts,
                k,
                Expr::BinaryOp { op: BinOp::And, left: Box::new(acc), right: Box::new(r) },
            ),
        }
    } else {
        Option::Some((acc, j))
    }
}

fn parse_or(ts: &Vec<Token>, i: usize) -> (r: Option<(Expr, usize)>)
    requires
        i <= ts@.len(),
    ensures
        match r {
            Option::Some(p) => parse_or_spec(toks_view(ts@), i as int) == Option::Some(
                (p.0@, p.1 as int),
            ) && i < p.1 <= ts@.len(),
            Option::None => parse_or_spec(toks_view(ts@), i as int) is None,
        },
    decreases ts@.len() - i, 9int,
{
    match parse_and(ts, i) {
        Option::None => Option::None,
        Option::Some((e, j)) => or_tail(ts, j, e),
    }
}

fn or_tail(ts: &Vec<Token>, j: usize, acc: Expr) -> (r: Option<(Expr, usize)>)
    requires
        j <= ts@.len(),
    ensures
        match r {
            Option::Some(p) => or_tail_spec(toks_view(ts@), j as int, acc@) == Option::Some(
                (p.0@, p.1 as int),
            ) && j <= p.1 <= ts@.len(),
            Option::None => or_tail_spec(toks_view(ts@), j as int, acc@) is None,
        },
    decreases ts@.len() - j, 8int,
{
    if j < ts.len() && matches!(&ts[j], Token::Or) {
        match parse_and(ts, j + 1) {
            Option::None => Option::None,
            Option::Some((r, k)) => or_tail(
                ts,
                k,
                Expr::BinaryOp { op: BinOp::Or, left: Box::new(acc), right: Box::new(r) },
            ),
        }
    } else {
        Option::Some((acc, j))
    }
}

fn is_proj_token(t: &Token) -> (r: bool)
    ensures
        r == is_proj_item(t@),
{
    match t {
        Token::Star => true,
        Token::Ident(_) => true,
        Token::QuotedIdent(_) => true,
        Token::StrLit(_) => true,
        Token::Number(_) => true,
        Token::True => true,
        Token::False => true,
        _ => false,
    }
}

fn parse_proj(ts: &Vec<Token>, i: usize) -> (r: Option<usize>)
    requires
        i <= ts@.len(),
    ensures
        match r {
            Option::Some(j) => proj_spec(toks_view(ts@), i as int) == Option::Some(j as int) && i
                < j <= ts@.len(),
            Option::None => proj_spec(toks_view(ts@), i as int) is None,
        },
    decreases ts@.len() - i,
{
    if i == ts.len() {
        return Option::None;
    }
    if !is_proj_token(&ts[i]) {
        return Option::None;
    }
    if i + 1 < ts.len() && matches!(&ts[i + 1], Token::Comma) {
        parse_proj(ts, i + 2)
    } else {
        Option::Some(i + 1)
    }
}

/// Parse a whole `SELECT` statement from its tokens. `Some(None)`
/// means a well-formed statement without a WHERE clause.
pub fn parse_stmt(ts: &Vec<Token>) -> (r: Option<Option<Expr>>)
    ensures
        match r {
            Option::Some(w) => match w {
                Option::Some(e) => parse_stmt_spec(toks_view(ts@)) == Option::Some(
                    Option::Some(e@),
                ),
                Option::None => parse_stmt_spec(toks_view(ts@)) == Option::Some(
                    Option::None::<ExprView>,
                ),
            },
            Option::None => parse_stmt_spec(toks_view(ts@)) is None,
        },
{
    if ts.len() == 0 || !matches!(&ts[0], Token::Select) {
        return Option::None;
    }
    match parse_proj(ts, 1) {
        Option::None => Option::None,
        Option::Some(i) => {
            if i == ts.len() {
                Option::Some(Option::None)
            } else if matches!(&ts[i], Token::Where) {
                match parse_or(ts, i + 1) {
                    Option::None => Option::None,
                    Option::Some((e, j)) => {
                        if j == ts.len() {
                            Option::Some(Option::Some(e))
                        } else {
                            Option::None
                        }
                    },
                }
            } else {
                Option::None
            }
        },
    }
}

} // verus!
