//! Tokenizer for the query language: keywords, identifiers, quoted
//! literals, numbers and operator symbols. `tok_spec` is the
//! mathematical definition; `tokenize` computes it.

use vstd::prelude::*;
use vstd::string::StrSliceExecFns;

use crate::text::{
    char_is_digit, char_is_word_char, char_is_word_start, char_is_ws, is_digit, is_word_char,
    is_word_start, is_ws, lower_seq, str_eq_lowered,
};

verus! {

/// One token of the query surface syntax.
#[derive(Debug)]
pub enum Token {
    Select,
    Where,
    And,
    Or,
    Like,
    True,
    False,
    /// A bare identifier.
    Ident(String),
    /// A double-quoted identifier.
    QuotedIdent(String),
    /// A single-quoted string literal.
    StrLit(String),
    /// An unsigned integer literal, kept as text.
    Number(String),
    Eq,
    NotEq,
    Lt,
    Gt,
    LtEq,
    GtEq,
    /// The `||` symbol.
    Concat,
    LParen,
    RParen,
    Star,
    Comma,
}

/// The model of a token, with character sequences for the payloads.
pub enum TokenView {
    Select,
    Where,
    And,
    Or,
    Like,
    True,
    False,
    Ident(Seq<char>),
    QuotedIdent(Seq<char>),
    StrLit(Seq<char>),
    Number(Seq<char>),
    Eq,
    NotEq,
    Lt,
    Gt,
    LtEq,
    GtEq,
    Concat,
    LParen,
    RParen,
    Star,
    Comma,
}

impl View for Token {
    type V = TokenView;

    open spec fn view(&self) -> TokenView {
        match self {
            Token::Select => TokenView::Select,
            Token::Where => TokenView::Where,
            Token::And => TokenView::And,
            Token::Or => TokenView::Or,
            Token::Like => TokenView::Like,
            Token::True => TokenView::True,
            Token::False => TokenView::False,
            Token::Ident(s) => TokenView::Ident(s@),
            Token::QuotedIdent(s) => TokenView::QuotedIdent(s@),
            Token::StrLit(s) => TokenView::StrLit(s@),
            Token::Number(s) => TokenView::Number(s@),
            Token::Eq => TokenView::Eq,
            Token::NotEq => TokenView::NotEq,
            Token::Lt => TokenView::Lt,
            Token::Gt => TokenView::Gt,
            Token::LtEq => TokenView::LtEq,
            Token::GtEq => TokenView::GtEq,
            Token::Concat => TokenView::Concat,
            Token::LParen => TokenView::LParen,
            Token::RParen => TokenView::RParen,
            Token::Star => TokenView::Star,
            Token::Comma => TokenView::Comma,
        }
    }
}

/// The models of a sequence of tokens.
pub open spec fn toks_view(ts: Seq<Token>) -> Seq<TokenView> {
    ts.map_values(|t: Token| t@)
}

/// Length of the identifier run at the head of `s`.
pub open spec fn word_run(s: Seq<char>) -> nat
    decreases s.len(),
{
    if s.len() == 0 || !is_word_char(s[0]) {
        0
    } else {
        1 + word_run(s.skip(1))
    }
}

/// Length of the digit run at the head of `s`.
pub open spec fn digit_run(s: Seq<char>) -> nat
    decreases s.len(),
{
    if s.len() == 0 || !is_digit(s[0]) {
        0
    } else {
        1 + digit_run(s.skip(1))
    }
}

/// Distance from the head of `s` to the first occurrence of `q`
/// (the length of `s` when `q` does not occur).
pub open spec fn scan_to(s: Seq<char>, q: char) -> nat
    decreases s.len(),
{
    if s.len() == 0 || s[0] == q {
        0
    } else {
        1 + scan_to(s.skip(1), q)
    }
}

pub proof fn lemma_word_run_is(s: Seq<char>, k: nat)
    requires
        k <= s.len(),
        forall|m: int| 0 <= m < k ==> is_word_char(s[m]),
        k < s.len() ==> !is_word_char(s[k as int]),
    ensures
        word_run(s) == k,
    decreases s.len(),
{
    if s.len() > 0 && is_word_char(s[0]) {
        assert(forall|m: int| 0 <= m < k - 1 ==> s.skip(1)[m] == s[m + 1]);
        lemma_word_run_is(s.skip(1), (k - 1) as nat);
    }
}

pub proof fn lemma_digit_run_is(s: Seq<char>, k: nat)
    requires
        k <= s.len(),
        forall|m: int| 0 <= m < k ==> is_digit(s[m]),
        k < s.len() ==> !is_digit(s[k as int]),
    ensures
        digit_run(s) == k,
    decreases s.len(),
{
    if s.len() > 0 && is_digit(s[0]) {
        assert(forall|m: int| 0 <= m < k - 1 ==> s.skip(1)[m] == s[m + 1]);
        lemma_digit_run_is(s.skip(1), (k - 1) as nat);
    }
}

pub proof fn lemma_scan_to_is(s: Seq<char>, q: char, k: nat)
    requires
        k <= s.len(),
        forall|m: int| 0 <= m < k ==> s[m] != q,
        k < s.len() ==> s[k as int] == q,
    ensures
        scan_to(s, q) == k,
    decreases s.len(),
{
    if s.len() > 0 && s[0] != q {
        assert(forall|m: int| 0 <= m < k - 1 ==> s.skip(1)[m] == s[m + 1]);
        lemma_scan_to_is(s.skip(1), q, (k - 1) as nat);
    }
}

/// The token that a bare word denotes: a keyword, case-insensitively,
/// or else an identifier.
pub open spec fn word_token(w: Seq<char>) -> TokenView {
    if lower_seq(w) == "select"@ {
        TokenView::Select
    } else if lower_seq(w) == "where"@ {
        TokenView::Where
    } else if lower_seq(w) == "and"@ {
        TokenView::And
    } else if lower_seq(w) == "or"@ {
        TokenView::Or
    } else if lower_seq(w) == "like"@ {
        TokenView::Like
    } else if lower_seq(w) == "true"@ {
        TokenView::True
    } else if lower_seq(w) == "false"@ {
        TokenView::False
    } else {
        TokenView::Ident(w)
    }
}

/// Prepend a token to a tokenization result; an error stays an error.
pub open spec fn cons_tok(t: TokenView, rest: Option<Seq<TokenView>>) -> Option<Seq<TokenView>> {
    match rest {
        Option::Some(r) => Option::Some(seq![t] + r),
        Option::None => Option::None,
    }
}

pub proof fn lemma_word_run_le(s: Seq<char>)
    ensures
        word_run(s) <= s.len(),
    decreases s.len(),
{
    if s.len() > 0 && is_word_char(s[0]) {
        lemma_word_run_le(s.skip(1));
    }
}

pub proof fn lemma_digit_run_le(s: Seq<char>)
    ensures
        digit_run(s) <= s.len(),
    decreases s.len(),
{
    if s.len() > 0 && is_digit(s[0]) {
        lemma_digit_run_le(s.skip(1));
    }
}

/// The tokens of `s`, or `None` when `s` holds an unterminated quote
/// or a character that no token may contain.
pub open spec fn tok_spec(s: Seq<char>) -> Option<Seq<TokenView>>
    decreases s.len(),
    via tok_spec_dec
{
    if s.len() == 0 {
        Option::Some(Seq::empty())
    } else {
        let c = s[0];
        if is_ws(c) {
            tok_spec(s.skip(1))
        } else if is_word_start(c) {
            let k = word_run(s);
            cons_tok(word_token(s.take(k as int)), tok_spec(s.skip(k as int)))
        } else if is_digit(c) {
            let k = digit_run(s);
            cons_tok(TokenView::Number(s.take(k as int)), tok_spec(s.skip(k as int)))
        } else if c == '\'' {
            let j = scan_to(s.skip(1), '\'');
            if 1 + j < s.len() {
                cons_tok(
                    TokenView::StrLit(s.subrange(1, 1 + j as int)),
                    tok_spec(s.skip(2 + j as int)),
                )
            } else {
                Option::None
            }
        } else if c == '"' {
            let j = scan_to(s.skip(1), '"');
            if 1 + j < s.len() {
                cons_tok(
                    TokenView::QuotedIdent(s.subrange(1, 1 + j as int)),
                    tok_spec(s.skip(2 + j as int)),
                )
            } else {
                Option::None
            }
        } else if c == '>' {
            if s.len() >= 2 && s[1] == '=' {
                cons_tok(TokenView::GtEq, tok_spec(s.skip(2)))
            } else {
                cons_tok(TokenView::Gt, tok_spec(s.skip(1)))
            }
        } else if c == '<' {
            if s.len() >= 2 && s[1] == '=' {
                cons_tok(TokenView::LtEq, tok_spec(s.skip(2)))
            } else if s.len() >= 2 && s[1] == '>' {
                cons_tok(TokenView::NotEq, tok_spec(s.skip(2)))
            } else {
                cons_tok(TokenView::Lt, tok_spec(s.skip(1)))
            }
        } else if c == '=' {
            cons_tok(TokenView::Eq, tok_spec(s.skip(1)))
        } else if c == '!' {
            if s.len() >= 2 && s[1] == '=' {
                cons_tok(TokenView::NotEq, tok_spec(s.skip(2)))
            } else {
                Option::None
            }
        } else if c == '|' {
            if s.len() >= 2 && s[1] == '|' {
                cons_tok(TokenView::Concat, tok_spec(s.skip(2)))
            } else {
                Option::None
            }
        } else if c == '(' {
            cons_tok(TokenView::LParen, tok_spec(s.skip(1)))
        } else if c == ')' {
            cons_tok(TokenView::RParen, tok_spec(s.skip(1)))
        } else if c == '*' {
            cons_tok(TokenView::Star, tok_spec(s.skip(1)))
        } else if c == ',' {
            cons_tok(TokenView::Comma, tok_spec(s.skip(1)))
        } else {
            Option::None
        }
    }
}

#[via_fn]
proof fn tok_spec_dec(s: Seq<char>) {
    if s.len() > 0 {
        if !is_ws(s[0]) && is_word_start(s[0]) {
            lemma_word_run_le(s);
            assert(word_run(s) >= 1);
        }
        if !is_ws(s[0]) && !is_word_start(s[0]) && is_digit(s[0]) {
            lemma_digit_run_le(s);
            assert(digit_run(s) >= 1);
        }
    }
}

/// Concatenate an already-produced prefix with the tokenization of the
/// rest; an error in the rest makes the whole an error.
pub open spec fn opt_concat(
    prefix: Seq<TokenView>,
    rest: Option<Seq<TokenView>>,
) -> Option<Seq<TokenView>> {
    match rest {
        Option::Some(r) => Option::Some(prefix + r),
        Option::None => Option::None,
    }
}

proof fn lemma_opt_concat_step(prefix: Seq<TokenView>, t: TokenView, rest: Option<Seq<TokenView>>)
    ensures
        opt_concat(prefix, cons_tok(t, rest)) == opt_concat(prefix.push(t), rest),
{
    match rest {
        Option::Some(r) => {
            assert(prefix + (seq![t] + r) =~= prefix.push(t) + r);
        },
        Option::None => {},
    }
}

proof fn lemma_toks_view_push(ts: Seq<Token>, t: Token)
    ensures
        toks_view(ts.push(t)) == toks_view(ts).push(t@),
{
    assert(toks_view(ts.push(t)) =~= toks_view(ts).push(t@));
}

/// Tokenize a query string.
pub fn tokenize(s: &str) -> (r: Option<Vec<Token>>)
    ensures
        match r {
            Option::Some(ts) => tok_spec(s@) == Option::Some(toks_view(ts@)),
            Option::None => tok_spec(s@) is None,
        },
{
    let len = s.unicode_len();
    let mut out: Vec<Token> = Vec::new();
    let mut i: usize = 0;
    proof {
        assert(toks_view(out@) =~= Seq::<TokenView>::empty());
        assert(s@.skip(0) =~= s@);
        if let Option::Some(r) = tok_spec(s@) {
            assert(toks_view(out@) + r =~= r);
        }
    }
    while i < len
        invariant
            len == s@.len(),
            i <= len,
            tok_spec(s@) == opt_concat(toks_view(out@), tok_spec(s@.skip(i as int))),
        decreases len - i,
    {
        let ghost rest0 = s@.skip(i as int);
        proof {
            assert(rest0.len() == len - i);
            assert(rest0[0] == s@[i as int]);
        }
        let c = s.get_char(i);
        if char_is_ws(c) {
            proof {
                assert(rest0.skip(1) =~= s@.skip(i + 1));
            }
            i = i + 1;
        } else if char_is_word_start(c) {
            let mut j: usize = i + 1;
            while j < len && char_is_word_char(s.get_char(j))
                invariant
                    len == s@.len(),
                    i < j <= len,
                    forall|m: int| i <= m < j ==> is_word_char(s@[m]),
                decreases len - j,
            {
                j = j + 1;
            }
            proof {
                assert(forall|m: int| 0 <= m < j - i ==> rest0[m] == s@[i + m]);
                lemma_word_run_is(rest0, (j - i) as nat);
                assert(rest0.take(j - i) =~= s@.subrange(i as int, j as int));
                assert(rest0.skip(j - i) =~= s@.skip(j as int));
            }
            let word = s.substring_char(i, j).to_owned();
            let tok: Token = if str_eq_lowered(word.as_str(), "select") {
                Token::Select
            } else if str_eq_lowered(word.as_str(), "where") {
                Token::Where
            } else if str_eq_lowered(word.as_str(), "and") {
                Token::And
            } else if str_eq_lowered(word.as_str(), "or") {
                Token::Or
            } else if str_eq_lowered(word.as_str(), "like") {
                Token::Like
            } else if str_eq_lowered(word.as_str(), "true") {
                Token::True
            } else if str_eq_lowered(word.as_str(), "false") {
                Token::False
            } else {
                Token::Ident(word)
            };
            proof {
                assert(tok@ == word_token(s@.subrange(i as int, j as int)));
                lemma_opt_concat_step(toks_view(out@), tok@, tok_spec(s@.skip(j as int)));
                lemma_toks_view_push(out@, tok);
            }
            out.push(tok);
            i = j;
        } else if char_is_digit(c) {
            let mut j: usize = i + 1;
            while j < len && char_is_digit(s.get_char(j))
                invariant
                    len == s@.len(),
                    i < j <= len,
                    forall|m: int| i <= m < j ==> is_digit(s@[m]),
                decreases len - j,
            {
                j = j + 1;
            }
            proof {
                assert(forall|m: int| 0 <= m < j - i ==> rest0[m] == s@[i + m]);
                lemma_digit_run_is(rest0, (j - i) as nat);
                assert(rest0.take(j - i) =~= s@.subrange(i as int, j as int));
                assert(rest0.skip(j - i) =~= s@.skip(j as int));
            }
            let num = s.substring_char(i, j).to_owned();
            let tok = Token::Number(num);
            proof {
                lemma_opt_concat_step(toks_view(out@), tok@, tok_spec(s@.skip(j as int)));
                lemma_toks_view_push(out@, tok);
            }
            out.push(tok);
            i = j;
        } else if c == '\'' || c == '"' {
            let mut j: usize = i + 1;
            while j < len && s.get_char(j) != c
                invariant
                    len == s@.len(),
                    i < j <= len,
                    forall|m: int| i < m < j ==> s@[m] != c,
                decreases len - j,
            {
                j = j + 1;
            }
            proof {
                assert(forall|m: int| 0 <= m < j - i - 1 ==> rest0.skip(1)[m] == s@[i + 1 + m]);
                lemma_scan_to_is(rest0.skip(1), c, (j - i - 1) as nat);
            }
            if j == len {
                proof {
                    assert(tok_spec(rest0) is None);
                }
                return Option::None;
            }
            proof {
                assert(rest0.subrange(1, j - i) =~= s@.subrange(i + 1, j as int));
                assert(rest0.skip(j - i + 1) =~= s@.skip(j + 1));
            }
            let content = s.substring_char(i + 1, j).to_owned();
            let tok = if c == '\'' {
                Token::StrLit(content)
            } else {
                Token::QuotedIdent(content)
            };
            proof {
                lemma_opt_concat_step(toks_view(out@), tok@, tok_spec(s@.skip(j + 1)));
                lemma_toks_view_push(out@, tok);
            }
            out.push(tok);
            i = j + 1;
        } else {
            // Operator symbols and punctuation, with two-character lookahead.
            let two = if i + 1 < len {
                Option::Some(s.get_char(i + 1))
            } else {
                Option::None
            };
            let (tok, adv): (Option<Token>, usize) = if c == '>' {
                if two == Option::Some('=') {
                    (Option::Some(Token::GtEq), 2)
                } else {
                    (Option::Some(Token::Gt), 1)
                }
            } else if c == '<' {
                if two == Option::Some('=') {
                    (Option::Some(Token::LtEq), 2)
                } else if two == Option::Some('>') {
                    (Option::Some(Token::NotEq), 2)
                } else {
                    (Option::Some(Token::Lt), 1)
                }
            } else if c == '=' {
                (Option::Some(Token::Eq), 1)
            } else if c == '!' {
                if two == Option::Some('=') {
                    (Option::Some(Token::NotEq), 2)
                } else {
                    (Option::None, 1)
                }
            } else if c == '|' {
                if two == Option::Some('|') {
                    (Option::Some(Token::Concat), 2)
                } else {
                    (Option::None, 1)
                }
            } else if c == '(' {
                (Option::Some(Token::LParen), 1)
            } else if c == ')' {
                (Option::Some(Token::RParen), 1)
            } else if c == '*' {
                (Option::Some(Token::Star), 1)
            } else if c == ',' {
                (Option::Some(Token::Comma), 1)
            } else {
                (Option::None, 1)
            };
            match tok {
                Option::Some(tok) => {
                    proof {
                        assert(rest0.skip(1) =~= s@.skip(i + 1));
                        if i + 2 <= len {
                            assert(rest0.skip(2) =~= s@.skip(i + 2));
                        }
                        assert(tok_spec(rest0) == cons_tok(
                            tok@,
                            tok_spec(s@.skip(i + adv as int)),
                        ));
                        lemma_opt_concat_step(
                            toks_view(out@),
                            tok@,
                            tok_spec(s@.skip(i + adv as int)),
                        );
                        lemma_toks_view_push(out@, tok);
                    }
                    out.push(tok);
                    i = i + adv;
                },
                Option::None => {
                    proof {
                        assert(rest0.skip(1) =~= s@.skip(i + 1));
                        if i + 2 <= len {
                            assert(rest0.skip(2) =~= s@.skip(i + 2));
                        }
                        assert(tok_spec(rest0) is None);
                    }
                    return Option::None;
                },
            }
        }
    }
    proof {
        assert(s@.skip(len as int) =~= Seq::empty());
        assert(tok_spec(s@) == Option::Some(toks_view(out@) + Seq::empty()));
        assert(toks_view(out@) + Seq::empty() =~= toks_view(out@));
    }
    Option::Some(out)
}

} // verus!
