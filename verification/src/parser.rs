//! The Pratt (top-down operator precedence) parser.
//!
//! The parser drains the lexer into a token buffer and walks it with a
//! cursor and one token of look-ahead.  The `parse_*_s` spec functions
//! define what every parsing function produces for any token sequence: the
//! node built, the tokens consumed and the error messages recorded; each
//! executable parsing function is proved to return exactly what its spec
//! twin says, so `parse_program`'s result and error list are a function of
//! the token stream alone.  Every parsing function is also proved to keep
//! the parser well formed, never to move the cursor backwards, only to
//! append to the error list, and to terminate on every input; every node
//! it builds is well-formed (`expr_wf`): in particular a call's callee is
//! always an identifier or a function literal.  Parsing never fails as a
//! whole: `parse_program` returns the statements it could build and
//! records an error for each construct it had to skip.

use vstd::prelude::*;

use crate::ast::{
    expr_view, expr_wf, exprs_view, exprs_wf, idents_view, stmt_view, stmt_wf, stmts_view,
    stmts_wf, ExprV, StmtV, ArrayExpression, BlockStatement, BooleanLiteral, CallExpression, DefStatement,
    Expression, ExpressionStatement, FunctionLiteral, Identifier, IfExpression, IndexExpression,
    InfixExpression, IntegerLiteral, LetStatement, NullLiteral, PrefixExpression, Program,
    ReturnStatement, Statement, StringLiteral,
};
use crate::lexer::{is_digit, Lexer};
use crate::strutil::{chars_of_str, concat2, concat3, str_eq};
use crate::token::{Token, TokenType, TokenV};

verus! {

/// The numeric value of a run of decimal digits, most significant first.
pub open spec fn digits_val(s: Seq<char>) -> int
    decreases s.len(),
{
    if s.len() == 0 {
        0
    } else {
        digits_val(s.drop_last()) * 10 + (s.last() as u32 - 48)
    }
}

/// Whether every character of `s` is a decimal digit.
pub open spec fn all_digits(s: Seq<char>) -> bool {
    forall|i: int| 0 <= i < s.len() ==> is_digit(s[i])
}

/// A longer run of digits never has a smaller value.
proof fn lemma_digits_val_grows(s: Seq<char>, i: int)
    requires
        all_digits(s),
        0 <= i <= s.len(),
    ensures
        digits_val(s.take(i)) <= digits_val(s),
        digits_val(s) >= 0,
    decreases s.len(),
{
    if s.len() == 0 {
        assert(s.take(i) =~= s);
    } else {
        assert(all_digits(s.drop_last()));
        assert(is_digit(s.last()));
        lemma_digits_val_grows(s.drop_last(), if i <= s.len() - 1 {
            i
        } else {
            s.len() - 1
        });
        if i == s.len() {
            assert(s.take(i) =~= s);
        } else {
            assert(s.take(i) =~= s.drop_last().take(i));
            assert(digits_val(s.drop_last()) * 10 + (s.last() as u32 - 48) >= digits_val(
                s.drop_last(),
            )) by (nonlinear_arith)
                requires
                    digits_val(s.drop_last()) >= 0,
                    s.last() as u32 >= 48,
            ;
        }
    }
}

/// Reads a nonnegative decimal literal.  Yields the value exactly when the
/// text is a nonempty run of digits whose value fits in an `i64`; otherwise
/// nothing.
pub fn parse_i64_digits(text: &String) -> (r: Option<i64>)
    ensures
        match r {
            Some(v) => text@.len() > 0 && all_digits(text@) && digits_val(text@) <= i64::MAX
                && v == digits_val(text@),
            None => text@.len() == 0 || !all_digits(text@) || digits_val(text@) > i64::MAX,
        },
{
    let chars = chars_of_str(text.as_str());
    if chars.len() == 0 {
        return None;
    }
    let mut val: u64 = 0;
    let mut i: usize = 0;
    while i < chars.len()
        invariant
            i <= chars@.len(),
            chars@.len() > 0,
            chars@ == text@,
            all_digits(chars@.take(i as int)),
            val == digits_val(chars@.take(i as int)),
            val <= i64::MAX as u64,
        decreases chars@.len() - i,
    {
        let c = chars[i];
        let u = c as u32;
        if !(48 <= u && u <= 57) {
            proof {
                assert(!is_digit(chars@[i as int]));
                assert(text@[i as int] == chars@[i as int]);
                assert(!all_digits(text@));
            }
            return None;
        }
        let d: u64 = (u - 48) as u64;
        if val > (i64::MAX as u64 - d) / 10 {
            proof {
                assert(chars@.take(i + 1).drop_last() =~= chars@.take(i as int));
                assert(chars@.take(i + 1).last() == chars@[i as int]);
                assert(digits_val(chars@.take(i + 1)) == val * 10 + d);
                assert(val * 10 + d > i64::MAX) by (nonlinear_arith)
                    requires
                        val > (i64::MAX as u64 - d) / 10,
                        0 <= d <= 9,
                        val >= 0,
                ;
                if all_digits(chars@) {
                    lemma_digits_val_grows(chars@, i + 1);
                    assert(digits_val(chars@) > i64::MAX);
                }
                assert(text@ == chars@);
            }
            return None;
        }
        proof {
            assert(val * 10 + d <= i64::MAX) by (nonlinear_arith)
                requires
                    val <= (i64::MAX as u64 - d) / 10,
                    0 <= d <= 9,
                    val >= 0,
            ;
            assert(chars@.take(i + 1).drop_last() =~= chars@.take(i as int));
            assert(chars@.take(i + 1).last() == chars@[i as int]);
        }
        val = val * 10 + d;
        i = i + 1;
    }
    proof {
        assert(chars@.take(chars@.len() as int) =~= chars@);
        assert(text@ == chars@);
    }
    Some(val as i64)
}

/// The precedence ladder, lowest first: `==` and `!=`, then the orderings,
/// then `+ -`, then `* /`, then unary operators, then calls and indexing.
pub open spec fn spec_precedence(t: TokenType) -> u8 {
    match t {
        TokenType::Eq => 1,
        TokenType::NotEq => 1,
        TokenType::LArrow => 2,
        TokenType::RArrow => 2,
        TokenType::LessEq => 2,
        TokenType::GreaterEq => 2,
        TokenType::Plus => 3,
        TokenType::Minus => 3,
        TokenType::Star => 4,
        TokenType::Slash => 4,
        TokenType::LSquare => 6,
        TokenType::LParen => 6,
        _ => 0,
    }
}

/// The precedence used for the operand of a unary operator.
pub const PREFIX_PRECEDENCE: u8 = 5;

/// Whether an infix parselet exists for a token kind.
pub open spec fn has_infix(t: TokenType) -> bool {
    match t {
        TokenType::Eq => true,
        TokenType::NotEq => true,
        TokenType::LArrow => true,
        TokenType::RArrow => true,
        TokenType::LessEq => true,
        TokenType::GreaterEq => true,
        TokenType::Plus => true,
        TokenType::Minus => true,
        TokenType::Star => true,
        TokenType::Slash => true,
        TokenType::LSquare => true,
        TokenType::LParen => true,
        _ => false,
    }
}

/// The precedence ladder is strict: equality binds loosest, then the
/// orderings, then additive, then multiplicative operators; the unary
/// operators bind tighter than any of those, and call and index binding
/// tighter still.
pub proof fn lemma_precedence_ladder()
    ensures
        spec_precedence(TokenType::Eq) < spec_precedence(TokenType::LArrow),
        spec_precedence(TokenType::LArrow) < spec_precedence(TokenType::Plus),
        spec_precedence(TokenType::Plus) < spec_precedence(TokenType::Star),
        spec_precedence(TokenType::Star) < PREFIX_PRECEDENCE,
        PREFIX_PRECEDENCE < spec_precedence(TokenType::LParen),
        PREFIX_PRECEDENCE < spec_precedence(TokenType::LSquare),
{
}

// ===== The parser, at the spec level =====
//
// The functions below define what the parser produces for any token
// sequence: the node built, the tokens consumed and the errors recorded.
// They mirror the executable parser one function to one function, and each
// executable parsing function is proved to return exactly what its spec
// twin says.  Recursion is justified by the cursor position: wherever a
// recursive step needs the cursor to have moved, the spec tests that
// progress explicitly and stops otherwise; the executable parser is proved
// never to take those stopped branches.

/// A parser state: the cursor position and the errors recorded so far.
#[verifier::ext_equal]
pub ghost struct PState {
    pub pos: int,
    pub errors: Seq<Seq<char>>,
}

/// An expression parse outcome.
#[verifier::ext_equal]
pub ghost struct PExprR {
    pub expr: Option<ExprV>,
    pub st: PState,
}

/// A statement parse outcome.
#[verifier::ext_equal]
pub ghost struct PStmtR {
    pub stmt: Option<StmtV>,
    pub st: PState,
}

/// A statement-list (block) parse outcome.
#[verifier::ext_equal]
pub ghost struct PStmtsR {
    pub stmts: Option<Seq<StmtV>>,
    pub st: PState,
}

/// An expression-list parse outcome.
#[verifier::ext_equal]
pub ghost struct PExprsR {
    pub exprs: Option<Seq<ExprV>>,
    pub st: PState,
}

/// A parameter-list parse outcome.
#[verifier::ext_equal]
pub ghost struct PNamesR {
    pub names: Option<Seq<Seq<char>>>,
    pub st: PState,
}

/// A program parse outcome; a program parse never fails.
#[verifier::ext_equal]
pub ghost struct PProgR {
    pub prog: Seq<StmtV>,
    pub st: PState,
}

/// The views of the recorded error strings.
pub open spec fn errors_view(es: Seq<String>) -> Seq<Seq<char>> {
    es.map_values(|s: String| s@)
}

/// The token at a position, clamped to the final token of the buffer.
pub open spec fn p_cur(toks: Seq<TokenV>, pos: int) -> TokenV {
    if toks.len() == 0 {
        TokenV { token_type: TokenType::Eof, literal: Seq::empty() }
    } else if 0 <= pos < toks.len() {
        toks[pos]
    } else {
        toks[toks.len() - 1]
    }
}

/// Advances the cursor by one token, never past the end of the buffer.
pub open spec fn p_adv(toks: Seq<TokenV>, st: PState) -> PState {
    if st.pos < toks.len() {
        PState { pos: st.pos + 1, errors: st.errors }
    } else {
        st
    }
}

/// Records one error message.
pub open spec fn push_err(st: PState, msg: Seq<char>) -> PState {
    PState { pos: st.pos, errors: st.errors.push(msg) }
}

/// How many tokens are left in front of the cursor; the termination
/// measure of the spec parser.
pub open spec fn rem_of(toks: Seq<TokenV>, st: PState) -> int {
    if st.pos <= toks.len() {
        toks.len() - st.pos
    } else {
        0
    }
}

/// Whether a parsing step moved the cursor forward and kept it in bounds.
pub open spec fn p_progress(toks: Seq<TokenV>, pre: PState, post: PState) -> bool {
    pre.pos < post.pos <= toks.len()
}

/// The name of a token kind, as error messages print it.
pub open spec fn name_of(t: TokenType) -> Seq<char> {
    match t {
        TokenType::Illegal => "Illegal"@,
        TokenType::Eof => "Eof"@,
        TokenType::Ident => "Ident"@,
        TokenType::Int => "Int"@,
        TokenType::Str => "Str"@,
        TokenType::Assign => "Assign"@,
        TokenType::Plus => "Plus"@,
        TokenType::Comma => "Comma"@,
        TokenType::Semicolon => "Semicolon"@,
        TokenType::LParen => "LParen"@,
        TokenType::RParen => "RParen"@,
        TokenType::LBrace => "LBrace"@,
        TokenType::RBrace => "RBrace"@,
        TokenType::LSquare => "LSquare"@,
        TokenType::RSquare => "RSquare"@,
        TokenType::Function => "Function"@,
        TokenType::Let => "Let"@,
        TokenType::Rec => "Rec"@,
        TokenType::Bang => "Bang"@,
        TokenType::Minus => "Minus"@,
        TokenType::Slash => "Slash"@,
        TokenType::Star => "Star"@,
        TokenType::LArrow => "LArrow"@,
        TokenType::RArrow => "RArrow"@,
        TokenType::True => "True"@,
        TokenType::False => "False"@,
        TokenType::If => "If"@,
        TokenType::Else => "Else"@,
        TokenType::Return => "Return"@,
        TokenType::Eq => "Eq"@,
        TokenType::NotEq => "NotEq"@,
        TokenType::GreaterEq => "GreaterEq"@,
        TokenType::LessEq => "LessEq"@,
        TokenType::Null => "Null"@,
        TokenType::Def => "Def"@,
    }
}

/// The message recorded when an expected token kind is not found.
pub open spec fn expect_msg(expected: TokenType, found: TokenType) -> Seq<char> {
    "Expected "@.add(name_of(expected)).add(
        ", found "@.add(name_of(found)).add(" instead"@),
    )
}

/// The message recorded when a token kind has no prefix parselet.
pub open spec fn no_prefix_msg(t: TokenType) -> Seq<char> {
    "no prefix parse function for "@.add(name_of(t))
}

/// The message recorded when an integer literal does not fit.
pub open spec fn int_parse_msg(lit: Seq<char>) -> Seq<char> {
    "Could not parse "@.add(lit).add(" as integer"@)
}

/// The message recorded when a boolean literal is malformed.
pub open spec fn bool_parse_msg(lit: Seq<char>) -> Seq<char> {
    "Could not parse "@.add(lit).add(" as a bool"@)
}

/// What `expect_peek` does: when the look-ahead has the expected kind the
/// cursor moves onto it.
pub open spec fn expect_peek_s(toks: Seq<TokenV>, st: PState, expected: TokenType) -> (bool, PState) {
    if p_cur(toks, st.pos + 1).token_type == expected {
        (true, p_adv(toks, st))
    } else {
        (false, st)
    }
}

/// What `expect_error` does: records the expected/found message.
pub open spec fn expect_error_s(toks: Seq<TokenV>, st: PState, expected: TokenType) -> PState {
    push_err(st, expect_msg(expected, p_cur(toks, st.pos + 1).token_type))
}

/// What `skip_to_statement_end` does: moves just past the next semicolon
/// or the end of the input.
pub open spec fn skip_stmt_end_s(toks: Seq<TokenV>, st: PState) -> PState
    decreases rem_of(toks, st), 1nat,
{
    let t = p_cur(toks, st.pos).token_type;
    if t is Semicolon || t is Eof {
        p_adv(toks, st)
    } else {
        let st1 = p_adv(toks, st);
        if p_progress(toks, st, st1) {
            skip_stmt_end_s(toks, st1)
        } else {
            st1
        }
    }
}

/// What the identifier parselet yields.
pub open spec fn parse_identifier_s(toks: Seq<TokenV>, st: PState) -> PExprR {
    PExprR { expr: Some(ExprV::Ident { name: p_cur(toks, st.pos).literal }), st }
}

/// What the integer-literal parselet yields: the digits' value when it
/// fits an `i64`, otherwise no node and the diagnostic message.
pub open spec fn parse_integer_literal_s(toks: Seq<TokenV>, st: PState) -> PExprR {
    let lit = p_cur(toks, st.pos).literal;
    if lit.len() > 0 && all_digits(lit) && digits_val(lit) <= i64::MAX {
        PExprR { expr: Some(ExprV::Int { value: digits_val(lit) as i64 }), st }
    } else {
        PExprR { expr: None, st: push_err(st, int_parse_msg(lit)) }
    }
}

/// What the boolean-literal parselet yields.
pub open spec fn parse_boolean_literal_s(toks: Seq<TokenV>, st: PState) -> PExprR {
    let lit = p_cur(toks, st.pos).literal;
    if lit == "true"@ {
        PExprR { expr: Some(ExprV::Bool { value: true }), st }
    } else if lit == "false"@ {
        PExprR { expr: Some(ExprV::Bool { value: false }), st }
    } else {
        PExprR { expr: None, st: push_err(st, bool_parse_msg(lit)) }
    }
}

/// What the `null` parselet yields.
pub open spec fn parse_null_s(toks: Seq<TokenV>, st: PState) -> PExprR {
    PExprR { expr: Some(ExprV::Null), st }
}

/// What the string-literal parselet yields.
pub open spec fn parse_string_literal_s(toks: Seq<TokenV>, st: PState) -> PExprR {
    PExprR { expr: Some(ExprV::Str { value: p_cur(toks, st.pos).literal }), st }
}

/// What the unary-operator parselet yields: the operator applied to the
/// expression after it, parsed at unary precedence.
pub open spec fn parse_prefix_expression_s(toks: Seq<TokenV>, st: PState) -> PExprR
    decreases rem_of(toks, st), 6nat,
{
    let t = p_cur(toks, st.pos);
    if t.token_type is Eof {
        PExprR { expr: None, st: push_err(st, no_prefix_msg(t.token_type)) }
    } else {
        let st1 = p_adv(toks, st);
        if p_progress(toks, st, st1) {
            let r = parse_expression_s(toks, PREFIX_PRECEDENCE, st1);
            match r.expr {
                Some(e) => PExprR {
                    expr: Some(ExprV::Prefix { op: t.literal, right: Box::new(e) }),
                    st: r.st,
                },
                None => PExprR { expr: None, st: r.st },
            }
        } else {
            PExprR { expr: None, st: st1 }
        }
    }
}

/// What the grouping parselet yields: the inner expression, which must be
/// followed by a closing parenthesis.
pub open spec fn parse_grouped_expression_s(toks: Seq<TokenV>, st: PState) -> PExprR
    decreases rem_of(toks, st), 6nat,
{
    let st1 = p_adv(toks, st);
    if p_progress(toks, st, st1) {
        let r = parse_expression_s(toks, 0, st1);
        match r.expr {
            Some(e) => {
                let (ok, st2) = expect_peek_s(toks, r.st, TokenType::RParen);
                if ok {
                    PExprR { expr: Some(e), st: st2 }
                } else {
                    PExprR { expr: None, st: expect_error_s(toks, st2, TokenType::RParen) }
                }
            },
            None => PExprR { expr: None, st: r.st },
        }
    } else {
        PExprR { expr: None, st: st1 }
    }
}

/// What the `if` parselet yields.
pub open spec fn parse_if_expression_s(toks: Seq<TokenV>, st: PState) -> PExprR
    decreases rem_of(toks, st), 6nat,
{
    if !(p_cur(toks, st.pos).token_type is If) {
        PExprR { expr: None, st }
    } else {
        let (ok1, st1) = expect_peek_s(toks, st, TokenType::LParen);
        if !ok1 {
            PExprR { expr: None, st: expect_error_s(toks, st1, TokenType::LParen) }
        } else {
            let st2 = p_adv(toks, st1);
            if !p_progress(toks, st, st2) {
                PExprR { expr: None, st: st2 }
            } else {
                let rc = parse_expression_s(toks, 0, st2);
                match rc.expr {
                    None => PExprR { expr: None, st: rc.st },
                    Some(cond) => {
                        let (ok2, st3) = expect_peek_s(toks, rc.st, TokenType::RParen);
                        if !ok2 {
                            PExprR { expr: None, st: expect_error_s(toks, st3, TokenType::RParen) }
                        } else {
                            let (ok3, st4) = expect_peek_s(toks, st3, TokenType::LBrace);
                            if !ok3 {
                                PExprR {
                                    expr: None,
                                    st: expect_error_s(toks, st4, TokenType::LBrace),
                                }
                            } else if !(st.pos <= st4.pos <= toks.len()) {
                                PExprR { expr: None, st: st4 }
                            } else {
                                let rb = parse_block_statement_s(toks, st4);
                                match rb.stmts {
                                    None => PExprR { expr: None, st: rb.st },
                                    Some(cons) => {
                                        if p_cur(toks, rb.st.pos + 1).token_type is Else {
                                            let st5 = p_adv(toks, rb.st);
                                            let (ok4, st6) = expect_peek_s(
                                                toks,
                                                st5,
                                                TokenType::LBrace,
                                            );
                                            if !ok4 {
                                                PExprR {
                                                    expr: None,
                                                    st: expect_error_s(
                                                        toks,
                                                        st6,
                                                        TokenType::LBrace,
                                                    ),
                                                }
                                            } else if !(st.pos <= st6.pos <= toks.len()) {
                                                PExprR { expr: None, st: st6 }
                                            } else {
                                                let ra = parse_block_statement_s(toks, st6);
                                                match ra.stmts {
                                                    None => PExprR { expr: None, st: ra.st },
                                                    Some(alt) => PExprR {
                                                        expr: Some(
                                                            ExprV::If {
                                                                cond: Box::new(cond),
                                                                cons,
                                                                alt: Some(alt),
                                                            },
                                                        ),
                                                        st: ra.st,
                                                    },
                                                }
                                            }
                                        } else {
                                            PExprR {
                                                expr: Some(
                                                    ExprV::If {
                                                        cond: Box::new(cond),
                                                        cons,
                                                        alt: None,
                                                    },
                                                ),
                                                st: rb.st,
                                            }
                                        }
                                    },
                                }
                            }
                        }
                    },
                }
            }
        }
    }
}

/// What the `fun` parselet yields.
pub open spec fn parse_function_literal_s(toks: Seq<TokenV>, st: PState) -> PExprR
    decreases rem_of(toks, st), 6nat,
{
    if !(p_cur(toks, st.pos).token_type is Function) {
        PExprR { expr: None, st }
    } else {
        let (ok1, st1) = expect_peek_s(toks, st, TokenType::LParen);
        if !ok1 {
            PExprR { expr: None, st: expect_error_s(toks, st1, TokenType::LParen) }
        } else {
            let rp = parse_parameter_list_s(toks, st1);
            match rp.names {
                None => PExprR { expr: None, st: rp.st },
                Some(params) => {
                    let (ok2, st2) = expect_peek_s(toks, rp.st, TokenType::LBrace);
                    if !ok2 {
                        PExprR { expr: None, st: expect_error_s(toks, st2, TokenType::LBrace) }
                    } else if !(st.pos <= st2.pos <= toks.len()) {
                        PExprR { expr: None, st: st2 }
                    } else {
                        let rb = parse_block_statement_s(toks, st2);
                        match rb.stmts {
                            None => PExprR { expr: None, st: rb.st },
                            Some(body) => PExprR {
                                expr: Some(ExprV::Fun { params, body }),
                                st: rb.st,
                            },
                        }
                    }
                },
            }
        }
    }
}

/// What the array parselet yields.
pub open spec fn parse_array_expression_s(toks: Seq<TokenV>, st: PState) -> PExprR
    decreases rem_of(toks, st), 6nat,
{
    if !(p_cur(toks, st.pos).token_type is LSquare) {
        PExprR { expr: None, st }
    } else {
        let (ok, st1) = expect_peek_s(toks, st, TokenType::RSquare);
        if ok {
            PExprR { expr: Some(ExprV::Array { items: Seq::empty() }), st: st1 }
        } else {
            let st2 = p_adv(toks, st1);
            if !p_progress(toks, st, st2) {
                PExprR { expr: None, st: st2 }
            } else {
                let ri = parse_items_s(toks, st2, TokenType::RSquare);
                match ri.exprs {
                    None => PExprR { expr: None, st: ri.st },
                    Some(items) => PExprR { expr: Some(ExprV::Array { items }), st: ri.st },
                }
            }
        }
    }
}

/// What a comma-separated expression list (array items or call arguments)
/// yields, up to the given closing token.
pub open spec fn parse_items_s(toks: Seq<TokenV>, st: PState, close: TokenType) -> PExprsR
    decreases rem_of(toks, st), 9nat,
{
    let r0 = parse_expression_s(toks, 0, st);
    match r0.expr {
        None => PExprsR { exprs: None, st: r0.st },
        Some(item) => {
            let (ok, st1) = expect_peek_s(toks, r0.st, close);
            if ok {
                PExprsR { exprs: Some(seq![item]), st: st1 }
            } else {
                let (okc, st2) = expect_peek_s(toks, st1, TokenType::Comma);
                if !okc {
                    PExprsR { exprs: None, st: expect_error_s(toks, st2, TokenType::Comma) }
                } else {
                    let st3 = p_adv(toks, st2);
                    if p_progress(toks, st, st3) {
                        let rest = parse_items_s(toks, st3, close);
                        match rest.exprs {
                            None => PExprsR { exprs: None, st: rest.st },
                            Some(more) => PExprsR {
                                exprs: Some(seq![item].add(more)),
                                st: rest.st,
                            },
                        }
                    } else {
                        PExprsR { exprs: None, st: st3 }
                    }
                }
            }
        },
    }
}

/// What the call parselet yields: the callee must be an identifier or a
/// function literal, then a parenthesized argument list follows.
pub open spec fn parse_call_expression_s(toks: Seq<TokenV>, left: ExprV, st: PState) -> PExprR
    decreases rem_of(toks, st), 6nat,
{
    if !(left matches ExprV::Ident { .. } || left matches ExprV::Fun { .. }) {
        PExprR {
            expr: None,
            st: push_err(st, "Expected function literal or identifier in call position"@),
        }
    } else if !(p_cur(toks, st.pos).token_type is LParen) {
        PExprR { expr: None, st }
    } else {
        let ra = parse_argument_list_s(toks, st);
        match ra.exprs {
            None => PExprR { expr: None, st: ra.st },
            Some(args) => PExprR {
                expr: Some(ExprV::Call { callee: Box::new(left), args }),
                st: ra.st,
            },
        }
    }
}

/// What the index parselet yields.
pub open spec fn parse_index_expression_s(toks: Seq<TokenV>, left: ExprV, st: PState) -> PExprR
    decreases rem_of(toks, st), 6nat,
{
    if !(p_cur(toks, st.pos).token_type is LSquare) {
        PExprR { expr: None, st }
    } else {
        let st1 = p_adv(toks, st);
        if !p_progress(toks, st, st1) {
            PExprR { expr: None, st: st1 }
        } else {
            let r = parse_expression_s(toks, 0, st1);
            match r.expr {
                None => PExprR { expr: None, st: r.st },
                Some(index) => {
                    let (ok, st2) = expect_peek_s(toks, r.st, TokenType::RSquare);
                    if ok {
                        PExprR {
                            expr: Some(
                                ExprV::Index {
                                    collection: Box::new(left),
                                    index: Box::new(index),
                                },
                            ),
                            st: st2,
                        }
                    } else {
                        PExprR { expr: None, st: expect_error_s(toks, st2, TokenType::RSquare) }
                    }
                },
            }
        }
    }
}

/// What the binary-operator parselet yields: the right operand is parsed
/// at the operator's own precedence, which makes the operators
/// left-associative.
pub open spec fn parse_infix_expression_s(toks: Seq<TokenV>, left: ExprV, st: PState) -> PExprR
    decreases rem_of(toks, st), 6nat,
{
    let t = p_cur(toks, st.pos);
    let st1 = p_adv(toks, st);
    if p_progress(toks, st, st1) {
        let r = parse_expression_s(toks, spec_precedence(t.token_type), st1);
        match r.expr {
            None => PExprR { expr: None, st: r.st },
            Some(right) => PExprR {
                expr: Some(
                    ExprV::Infix {
                        op: t.literal,
                        left: Box::new(left),
                        right: Box::new(right),
                    },
                ),
                st: r.st,
            },
        }
    } else {
        PExprR { expr: None, st: st1 }
    }
}

/// What the argument list yields: empty when `)` follows at once,
/// otherwise the comma-separated items.
pub open spec fn parse_argument_list_s(toks: Seq<TokenV>, st: PState) -> PExprsR
    decreases rem_of(toks, st), 5nat,
{
    let (ok, st1) = expect_peek_s(toks, st, TokenType::RParen);
    if ok {
        PExprsR { exprs: Some(Seq::empty()), st: st1 }
    } else {
        let st2 = p_adv(toks, st1);
        if p_progress(toks, st, st2) {
            parse_items_s(toks, st2, TokenType::RParen)
        } else {
            PExprsR { exprs: None, st: st2 }
        }
    }
}

/// What the parameter-name list after the opening parenthesis yields.
pub open spec fn parse_params_s(toks: Seq<TokenV>, st: PState) -> PNamesR
    decreases rem_of(toks, st), 9nat,
{
    let name = p_cur(toks, st.pos).literal;
    let (ok, st1) = expect_peek_s(toks, st, TokenType::RParen);
    if ok {
        PNamesR { names: Some(seq![name]), st: st1 }
    } else {
        let (okc, st2) = expect_peek_s(toks, st1, TokenType::Comma);
        if !okc {
            PNamesR { names: None, st: expect_error_s(toks, st2, TokenType::Comma) }
        } else {
            let st3 = p_adv(toks, st2);
            if p_progress(toks, st, st3) {
                let rest = parse_params_s(toks, st3);
                match rest.names {
                    None => PNamesR { names: None, st: rest.st },
                    Some(more) => PNamesR { names: Some(seq![name].add(more)), st: rest.st },
                }
            } else {
                PNamesR { names: None, st: st3 }
            }
        }
    }
}

/// What the parameter list yields: empty when `)` follows at once,
/// otherwise the comma-separated names.
pub open spec fn parse_parameter_list_s(toks: Seq<TokenV>, st: PState) -> PNamesR
    decreases rem_of(toks, st), 5nat,
{
    let (ok, st1) = expect_peek_s(toks, st, TokenType::RParen);
    if ok {
        PNamesR { names: Some(Seq::empty()), st: st1 }
    } else {
        let st2 = p_adv(toks, st1);
        if p_progress(toks, st, st2) {
            parse_params_s(toks, st2)
        } else {
            PNamesR { names: None, st: st2 }
        }
    }
}

/// What one expression parse yields: a prefix parselet chosen by the
/// current token builds the first operand, then infix steps extend it.
pub open spec fn parse_expression_s(toks: Seq<TokenV>, precedence: u8, st: PState) -> PExprR
    decreases rem_of(toks, st), 8nat,
{
    let t = p_cur(toks, st.pos).token_type;
    let pr = if t is Ident {
        parse_identifier_s(toks, st)
    } else if t is Int {
        parse_integer_literal_s(toks, st)
    } else if t is Null {
        parse_null_s(toks, st)
    } else if t is True || t is False {
        parse_boolean_literal_s(toks, st)
    } else if t is Str {
        parse_string_literal_s(toks, st)
    } else if t is Minus || t is Bang {
        parse_prefix_expression_s(toks, st)
    } else if t is LParen {
        parse_grouped_expression_s(toks, st)
    } else if t is LSquare {
        parse_array_expression_s(toks, st)
    } else if t is If {
        parse_if_expression_s(toks, st)
    } else if t is Function {
        parse_function_literal_s(toks, st)
    } else {
        PExprR { expr: None, st: push_err(st, no_prefix_msg(t)) }
    };
    match pr.expr {
        None => PExprR { expr: None, st: pr.st },
        Some(e) => {
            if st.pos <= pr.st.pos <= toks.len() {
                parse_ops_s(toks, precedence, e, pr.st)
            } else {
                PExprR { expr: Some(e), st: pr.st }
            }
        },
    }
}

/// The infix steps of one expression parse: while the look-ahead operator
/// binds tighter than the caller's precedence, the operand built so far
/// becomes the left side of the next operator node.
pub open spec fn parse_ops_s(toks: Seq<TokenV>, precedence: u8, left: ExprV, st: PState) -> PExprR
    decreases rem_of(toks, st), 7nat,
{
    let pt = p_cur(toks, st.pos + 1).token_type;
    if pt is Semicolon || pt is Comma {
        PExprR { expr: Some(left), st }
    } else if !(spec_precedence(pt) > precedence) {
        PExprR { expr: Some(left), st }
    } else if !has_infix(pt) {
        PExprR { expr: Some(left), st }
    } else {
        let st1 = p_adv(toks, st);
        let ct = p_cur(toks, st1.pos).token_type;
        let r = if ct is LParen {
            parse_call_expression_s(toks, left, st1)
        } else if ct is LSquare {
            parse_index_expression_s(toks, left, st1)
        } else {
            parse_infix_expression_s(toks, left, st1)
        };
        match r.expr {
            None => PExprR { expr: None, st: r.st },
            Some(e2) => {
                if p_progress(toks, st, r.st) {
                    parse_ops_s(toks, precedence, e2, r.st)
                } else {
                    PExprR { expr: Some(e2), st: r.st }
                }
            },
        }
    }
}

/// What one statement parse yields, dispatching on the current token.
pub open spec fn parse_statement_s(toks: Seq<TokenV>, st: PState) -> PStmtR
    decreases rem_of(toks, st), 11nat,
{
    let t = p_cur(toks, st.pos).token_type;
    if t is Let {
        parse_let_statement_s(toks, st)
    } else if t is Return {
        parse_return_statement_s(toks, st)
    } else if t is Def {
        parse_def_statement_s(toks, st)
    } else {
        parse_expression_statement_s(toks, st)
    }
}

/// What a `let` statement parse yields: `let [rec] IDENT = expression ;`.
pub open spec fn parse_let_statement_s(toks: Seq<TokenV>, st: PState) -> PStmtR
    decreases rem_of(toks, st), 10nat,
{
    if !(p_cur(toks, st.pos).token_type is Let) {
        PStmtR { stmt: None, st }
    } else {
        let (rec, st1) = expect_peek_s(toks, st, TokenType::Rec);
        let (ok_id, st2) = expect_peek_s(toks, st1, TokenType::Ident);
        if !ok_id {
            PStmtR { stmt: None, st: expect_error_s(toks, st2, TokenType::Ident) }
        } else {
            let name = p_cur(toks, st2.pos).literal;
            let (ok_as, st3) = expect_peek_s(toks, st2, TokenType::Assign);
            if !ok_as {
                PStmtR { stmt: None, st: expect_error_s(toks, st3, TokenType::Assign) }
            } else {
                let st4 = p_adv(toks, st3);
                let r = parse_expression_s(toks, 0, st4);
                match r.expr {
                    None => PStmtR { stmt: None, st: r.st },
                    Some(value) => {
                        let st5 = p_adv(toks, r.st);
                        if p_cur(toks, st5.pos).token_type is Semicolon {
                            PStmtR {
                                stmt: Some(StmtV::Let { name, value, rec }),
                                st: p_adv(toks, st5),
                            }
                        } else {
                            PStmtR {
                                stmt: Some(StmtV::Let { name, value, rec }),
                                st: expect_error_s(toks, st5, TokenType::Semicolon),
                            }
                        }
                    },
                }
            }
        }
    }
}

/// What a `return` statement parse yields: `return expression ;`.
pub open spec fn parse_return_statement_s(toks: Seq<TokenV>, st: PState) -> PStmtR
    decreases rem_of(toks, st), 10nat,
{
    if !(p_cur(toks, st.pos).token_type is Return) {
        PStmtR { stmt: None, st }
    } else {
        let st1 = p_adv(toks, st);
        if !p_progress(toks, st, st1) {
            PStmtR { stmt: None, st: st1 }
        } else {
            let r = parse_expression_s(toks, 0, st1);
            match r.expr {
                None => PStmtR { stmt: None, st: r.st },
                Some(value) => {
                    let st2 = p_adv(toks, r.st);
                    if p_cur(toks, st2.pos).token_type is Semicolon {
                        PStmtR { stmt: Some(StmtV::Return { value }), st: p_adv(toks, st2) }
                    } else {
                        PStmtR {
                            stmt: Some(StmtV::Return { value }),
                            st: expect_error_s(toks, st2, TokenType::Semicolon),
                        }
                    }
                },
            }
        }
    }
}

/// What a `def` statement parse yields: `def IDENT ( params ) { body }`.
pub open spec fn parse_def_statement_s(toks: Seq<TokenV>, st: PState) -> PStmtR
    decreases rem_of(toks, st), 10nat,
{
    if !(p_cur(toks, st.pos).token_type is Def) {
        PStmtR { stmt: None, st }
    } else {
        let (ok_id, st1) = expect_peek_s(toks, st, TokenType::Ident);
        if !ok_id {
            PStmtR { stmt: None, st: expect_error_s(toks, st1, TokenType::Ident) }
        } else {
            let name = p_cur(toks, st1.pos).literal;
            let (ok_lp, st2) = expect_peek_s(toks, st1, TokenType::LParen);
            if !ok_lp {
                PStmtR { stmt: None, st: expect_error_s(toks, st2, TokenType::LParen) }
            } else {
                let rp = parse_parameter_list_s(toks, st2);
                match rp.names {
                    None => PStmtR { stmt: None, st: rp.st },
                    Some(params) => {
                        let (ok_lb, st3) = expect_peek_s(toks, rp.st, TokenType::LBrace);
                        if !ok_lb {
                            PStmtR { stmt: None, st: expect_error_s(toks, st3, TokenType::LBrace) }
                        } else if !(st.pos <= st3.pos <= toks.len()) {
                            PStmtR { stmt: None, st: st3 }
                        } else {
                            let rb = parse_block_statement_s(toks, st3);
                            match rb.stmts {
                                None => PStmtR { stmt: None, st: rb.st },
                                Some(body) => PStmtR {
                                    stmt: Some(StmtV::Def { name, params, body }),
                                    st: p_adv(toks, rb.st),
                                },
                            }
                        }
                    },
                }
            }
        }
    }
}

/// What an expression statement parse yields; the trailing semicolon is
/// optional.
pub open spec fn parse_expression_statement_s(toks: Seq<TokenV>, st: PState) -> PStmtR
    decreases rem_of(toks, st), 10nat,
{
    let r = parse_expression_s(toks, 0, st);
    match r.expr {
        None => PStmtR { stmt: None, st: r.st },
        Some(value) => {
            let st1 = p_adv(toks, r.st);
            if p_cur(toks, st1.pos).token_type is Semicolon {
                PStmtR { stmt: Some(StmtV::Expr { value }), st: p_adv(toks, st1) }
            } else {
                PStmtR { stmt: Some(StmtV::Expr { value }), st: st1 }
            }
        },
    }
}

/// What a block parse yields: `{`, then statements until the closing brace.
pub open spec fn parse_block_statement_s(toks: Seq<TokenV>, st: PState) -> PStmtsR
    decreases rem_of(toks, st), 6nat,
{
    if !(p_cur(toks, st.pos).token_type is LBrace) {
        PStmtsR { stmts: None, st }
    } else {
        let st1 = p_adv(toks, st);
        if p_progress(toks, st, st1) {
            block_stmts_s(toks, st1)
        } else {
            PStmtsR { stmts: None, st: st1 }
        }
    }
}

/// The statements of a block, read until the cursor rests on the closing
/// brace or the look-ahead is the end of the input.
pub open spec fn block_stmts_s(toks: Seq<TokenV>, st: PState) -> PStmtsR
    decreases rem_of(toks, st), 12nat,
{
    if p_cur(toks, st.pos + 1).token_type is Eof {
        PStmtsR { stmts: Some(Seq::empty()), st }
    } else {
        let r0 = parse_statement_s(toks, st);
        match r0.stmt {
            None => PStmtsR { stmts: None, st: r0.st },
            Some(sv) => {
                if p_cur(toks, r0.st.pos).token_type is RBrace {
                    PStmtsR { stmts: Some(seq![sv]), st: r0.st }
                } else if p_progress(toks, st, r0.st) {
                    let rest = block_stmts_s(toks, r0.st);
                    match rest.stmts {
                        None => PStmtsR { stmts: None, st: rest.st },
                        Some(more) => PStmtsR { stmts: Some(seq![sv].add(more)), st: rest.st },
                    }
                } else {
                    PStmtsR { stmts: None, st: r0.st }
                }
            },
        }
    }
}

/// What parsing a whole program yields: statements until the end of the
/// input; a failed statement records its errors, the cursor skips to the
/// next statement boundary, and the failed statement is left out.
pub open spec fn parse_program_s(toks: Seq<TokenV>, st: PState) -> PProgR
    decreases rem_of(toks, st), 13nat,
{
    if p_cur(toks, st.pos).token_type is Eof {
        PProgR { prog: Seq::empty(), st }
    } else {
        let r0 = parse_statement_s(toks, st);
        match r0.stmt {
            Some(sv) => {
                if p_progress(toks, st, r0.st) {
                    let rest = parse_program_s(toks, r0.st);
                    PProgR { prog: seq![sv].add(rest.prog), st: rest.st }
                } else {
                    PProgR { prog: seq![sv], st: r0.st }
                }
            },
            None => {
                if st.pos <= r0.st.pos <= toks.len() {
                    let st1 = skip_stmt_end_s(toks, r0.st);
                    if p_progress(toks, st, st1) {
                        let rest = parse_program_s(toks, st1);
                        PProgR { prog: rest.prog, st: rest.st }
                    } else {
                        PProgR { prog: Seq::empty(), st: st1 }
                    }
                } else {
                    PProgR { prog: Seq::empty(), st: r0.st }
                }
            },
        }
    }
}

/// The spec-level view of a parser's token buffer.
pub open spec fn toks_of(p: Parser) -> Seq<TokenV> {
    crate::lexer::token_views(p.tokens@)
}

/// The spec-level view of a parser's cursor and error list.
pub open spec fn pstate_of(p: Parser) -> PState {
    PState { pos: p.pos as int, errors: errors_view(p.errors@) }
}

/// Whether an executable expression result mirrors a spec one exactly.
pub open spec fn expr_opt_matches(s: Option<ExprV>, r: Option<Box<Expression>>) -> bool {
    match r {
        Some(e) => s == Some((*e)@),
        None => s is None,
    }
}

/// Whether an executable statement result mirrors a spec one exactly.
pub open spec fn stmt_opt_matches(s: Option<StmtV>, r: Option<Statement>) -> bool {
    match r {
        Some(st) => s == Some(st@),
        None => s is None,
    }
}

/// Whether an executable block result mirrors a spec one exactly.
pub open spec fn block_opt_matches(s: Option<Seq<StmtV>>, r: Option<BlockStatement>) -> bool {
    match r {
        Some(b) => s == Some(stmts_view(b.statements@)),
        None => s is None,
    }
}

/// Whether an executable expression-list result mirrors a spec one.
pub open spec fn exprs_opt_matches(s: Option<Seq<ExprV>>, r: Option<Vec<Expression>>) -> bool {
    match r {
        Some(es) => s == Some(exprs_view(es@)),
        None => s is None,
    }
}

/// Whether an executable parameter-list result mirrors a spec one.
pub open spec fn names_opt_matches(s: Option<Seq<Seq<char>>>, r: Option<Vec<Identifier>>) -> bool {
    match r {
        Some(ps) => s == Some(idents_view(ps@)),
        None => s is None,
    }
}

/// The spec view of the token buffer indexes token views, and the clamped
/// spec cursor agrees with the executable parser's current and look-ahead
/// tokens.
proof fn lemma_bridge(p: Parser)
    requires
        p.wf(),
    ensures
        toks_of(p).len() == p.tokens@.len(),
        forall|i: int| 0 <= i < p.tokens@.len() ==> toks_of(p)[i] == #[trigger] p.tokens@[i]@,
        p_cur(toks_of(p), p.pos as int) == p.cur(),
        p_cur(toks_of(p), p.pos + 1) == p.peek(),
{
    assert forall|i: int| 0 <= i < p.tokens@.len() implies toks_of(p)[i]
        == #[trigger] p.tokens@[i]@ by {}
}

/// Pushing an error string pushes its view.
proof fn lemma_errors_push(es: Seq<String>, s: String)
    ensures
        errors_view(es.push(s)) == errors_view(es).push(s@),
{
    assert(errors_view(es.push(s)) =~= errors_view(es).push(s@));
}

/// The parser state: the token buffer the lexer produced, a cursor into it,
/// and the errors recorded so far.
pub struct Parser {
    pub tokens: Vec<Token>,
    pub pos: usize,
    pub errors: Vec<String>,
}

/// One parser state follows another legally: the tokens are the same, the
/// cursor has not moved backwards, and the old errors are a prefix of the
/// new ones.
pub open spec fn advances(pre: Parser, post: Parser) -> bool {
    &&& post.wf()
    &&& post.tokens == pre.tokens
    &&& post.pos >= pre.pos
    &&& pre.errors@.is_prefix_of(post.errors@)
}

impl Parser {
    /// The token buffer ends with `Eof`, nothing before the end is `Eof`,
    /// and the cursor stays inside the buffer.
    pub open spec fn wf(&self) -> bool {
        &&& self.pos <= self.tokens.len()
        &&& self.tokens@.len() >= 1
        &&& self.tokens@[self.tokens@.len() - 1]@.token_type is Eof
        &&& forall|i: int|
            0 <= i < self.tokens@.len() - 1 ==> !(self.tokens@[i]@.token_type is Eof)
    }

    /// The index the cursor reads: clamped to the final `Eof` token.
    pub open spec fn cur_index(&self) -> int {
        if self.pos < self.tokens@.len() {
            self.pos as int
        } else {
            self.tokens@.len() - 1
        }
    }

    /// The current token.
    pub open spec fn cur(&self) -> TokenV {
        self.tokens@[self.cur_index()]@
    }

    /// The look-ahead token.
    pub open spec fn peek(&self) -> TokenV {
        if self.pos + 1 < self.tokens@.len() {
            self.tokens@[self.pos + 1]@
        } else {
            self.tokens@[self.tokens@.len() - 1]@
        }
    }

    /// How many tokens are left in front of the cursor.
    pub open spec fn remaining(&self) -> int {
        self.tokens@.len() - self.pos
    }

    /// Builds a parser over the given lexer's token stream.
    pub fn new(lexer: Lexer) -> (p: Parser)
        requires
            lexer.wf(),
        ensures
            p.wf(),
            p.pos == 0,
            p.errors@.len() == 0,
            toks_of(p) == crate::lexer::spec_tokens(lexer.remaining()),
            pstate_of(p) == (PState { pos: 0, errors: Seq::<Seq<char>>::empty() }),
    {
        let mut lexer = lexer;
        let ghost rem0 = lexer.remaining();
        let tokens = lexer.tokenize();
        proof {
            let views = crate::lexer::token_views(tokens@);
            crate::lexer::lemma_spec_tokens_shape(rem0);
            assert(views.len() == tokens@.len());
            assert forall|i: int| 0 <= i < tokens@.len() implies views[i]
                == #[trigger] tokens@[i]@ by {}
            assert(tokens@[tokens@.len() - 1]@.token_type is Eof);
            assert forall|i: int| 0 <= i < tokens@.len() - 1 implies !(
            tokens@[i]@.token_type is Eof) by {
                assert(views[i] == tokens@[i]@);
            }
        }
        let errors: Vec<String> = Vec::new();
        let p = Parser { tokens, pos: 0, errors };
        proof {
            assert(p.errors@.len() == 0);
            assert(errors_view(p.errors@) =~= Seq::<Seq<char>>::empty());
            assert(pstate_of(p) =~= (PState { pos: 0, errors: Seq::<Seq<char>>::empty() }));
        }
        p
    }

    /// The recorded parse errors, in the order they were found.
    pub fn get_errors(&self) -> (r: &Vec<String>)
        ensures
            r == &self.errors,
    {
        &self.errors
    }

    /// The kind of the current token.
    fn cur_token_type(&self) -> (t: TokenType)
        requires
            self.wf(),
        ensures
            t == self.cur().token_type,
    {
        if self.pos < self.tokens.len() {
            self.tokens[self.pos].token_type
        } else {
            self.tokens[self.tokens.len() - 1].token_type
        }
    }

    /// The kind of the look-ahead token.
    fn peek_token_type(&self) -> (t: TokenType)
        requires
            self.wf(),
        ensures
            t == self.peek().token_type,
    {
        if self.pos < self.tokens.len() - 1 {
            self.tokens[self.pos + 1].token_type
        } else {
            self.tokens[self.tokens.len() - 1].token_type
        }
    }

    /// A copy of the current token.
    fn cur_token_clone(&self) -> (t: Token)
        requires
            self.wf(),
        ensures
            t@ == self.cur(),
    {
        if self.pos < self.tokens.len() {
            self.tokens[self.pos].clone()
        } else {
            self.tokens[self.tokens.len() - 1].clone()
        }
    }

    /// Advances the cursor by one token, never past the end of the buffer.
    fn next_token(&mut self)
        requires
            old(self).wf(),
        ensures
            advances(*old(self), *final(self)),
            final(self).errors == old(self).errors,
            old(self).pos < old(self).tokens@.len() ==> final(self).pos == old(self).pos + 1,
            old(self).pos >= old(self).tokens@.len() ==> final(self).pos == old(self).pos,
            !(old(self).cur().token_type is Eof) ==> final(self).pos == old(self).pos + 1
                && final(self).remaining() < old(self).remaining(),
            pstate_of(*final(self)) == p_adv(toks_of(*old(self)), pstate_of(*old(self))),
    {
        proof {
            lemma_bridge(*self);
            if !(self.cur().token_type is Eof) {
                assert(self.cur_index() < self.tokens@.len() - 1);
            }
        }
        if self.pos < self.tokens.len() {
            self.pos = self.pos + 1;
        }
        proof {
            assert(pstate_of(*self) =~= p_adv(toks_of(*old(self)), pstate_of(*old(self))));
        }
    }

    /// If the look-ahead token has the expected kind, consumes one token and
    /// answers true; otherwise leaves the cursor alone and answers false.
    fn expect_peek(&mut self, expected_token_type: TokenType) -> (r: bool)
        requires
            old(self).wf(),
            !(expected_token_type is Eof),
        ensures
            advances(*old(self), *final(self)),
            final(self).errors == old(self).errors,
            r == (old(self).peek().token_type == expected_token_type),
            r ==> final(self).pos == old(self).pos + 1 && final(self).remaining() < old(
                self,
            ).remaining() && final(self).cur() == old(self).peek(),
            !r ==> *final(self) == *old(self),
            ({
                let (ok_s, st_s) = expect_peek_s(
                    toks_of(*old(self)),
                    pstate_of(*old(self)),
                    expected_token_type,
                );
                r == ok_s && pstate_of(*final(self)) == st_s
            }),
    {
        proof {
            lemma_bridge(*self);
        }
        let pt = self.peek_token_type();
        if pt == expected_token_type {
            proof {
                if self.pos + 1 < self.tokens@.len() {
                    assert(self.tokens@[self.pos + 1]@.token_type == expected_token_type);
                    assert(self.pos + 1 < self.tokens@.len() - 1 || self.pos + 1
                        == self.tokens@.len() - 1);
                    assert(!(expected_token_type is Eof));
                    assert(self.pos + 1 < self.tokens@.len() - 1);
                } else {
                    assert(self.peek().token_type is Eof);
                    assert(false);
                }
            }
            self.pos = self.pos + 1;
            proof {
                assert(pstate_of(*self) =~= p_adv(toks_of(*old(self)), pstate_of(*old(self))));
            }
            true
        } else {
            false
        }
    }

    /// Records that the expected token kind was not found.
    fn expect_error(&mut self, expected_token_type: TokenType)
        requires
            old(self).wf(),
        ensures
            advances(*old(self), *final(self)),
            final(self).pos == old(self).pos,
            final(self).tokens == old(self).tokens,
            pstate_of(*final(self)) == expect_error_s(
                toks_of(*old(self)),
                pstate_of(*old(self)),
                expected_token_type,
            ),
            final(self).errors@ == old(self).errors@.push(
                final(self).errors@[final(self).errors@.len() - 1],
            ),
    {
        proof {
            lemma_bridge(*self);
        }
        let found = self.peek_token_type();
        let msg = concat3(
            "Expected ",
            token_type_name(expected_token_type),
            concat3(", found ", token_type_name(found), " instead").as_str(),
        );
        let ghost pre = self.errors@;
        self.errors.push(msg);
        proof {
            assert(self.errors@ =~= pre.push(msg));
            assert(pre.is_prefix_of(self.errors@));
            lemma_errors_push(pre, msg);
            assert(msg@ == expect_msg(expected_token_type, old(self).peek().token_type));
            assert(pstate_of(*self) =~= expect_error_s(
                toks_of(*old(self)),
                pstate_of(*old(self)),
                expected_token_type,
            ));
        }
    }

    /// Records that no prefix parselet exists for a token kind.
    fn no_prefix_function_error(&mut self, token_type: TokenType)
        requires
            old(self).wf(),
        ensures
            advances(*old(self), *final(self)),
            final(self).pos == old(self).pos,
            pstate_of(*final(self)) == push_err(pstate_of(*old(self)), no_prefix_msg(token_type)),
    {
        let msg = concat2(
            "no prefix parse function for ",
            token_type_name(token_type),
        );
        let ghost pre = self.errors@;
        self.errors.push(msg);
        proof {
            assert(self.errors@ =~= pre.push(msg));
            assert(pre.is_prefix_of(self.errors@));
            lemma_errors_push(pre, msg);
            assert(pstate_of(*self) =~= push_err(
                pstate_of(*old(self)),
                no_prefix_msg(token_type),
            ));
        }
    }

    /// The precedence of a token kind, `0` for anything that is not an
    /// infix operator.
    fn token_to_precedence(token_type: TokenType) -> (p: u8)
        ensures
            p == spec_precedence(token_type),
    {
        match token_type {
            TokenType::Eq => 1,
            TokenType::NotEq => 1,
            TokenType::LArrow => 2,
            TokenType::RArrow => 2,
            TokenType::LessEq => 2,
            TokenType::GreaterEq => 2,
            TokenType::Plus => 3,
            TokenType::Minus => 3,
            TokenType::Star => 4,
            TokenType::Slash => 4,
            TokenType::LSquare => 6,
            TokenType::LParen => 6,
            _ => 0,
        }
    }

    /// Whether an infix parselet exists for a token kind.
    fn has_infix_function(token_type: TokenType) -> (r: bool)
        ensures
            r == has_infix(token_type),
    {
        match token_type {
            TokenType::Eq => true,
            TokenType::NotEq => true,
            TokenType::LArrow => true,
            TokenType::RArrow => true,
            TokenType::LessEq => true,
            TokenType::GreaterEq => true,
            TokenType::Plus => true,
            TokenType::Minus => true,
            TokenType::Star => true,
            TokenType::Slash => true,
            TokenType::LSquare => true,
            TokenType::LParen => true,
            _ => false,
        }
    }

    /// Whether the cursor stands on a statement terminator or the end of
    /// the input.
    fn at_statement_end(&self) -> (r: bool)
        requires
            self.wf(),
        ensures
            r == (self.cur().token_type is Semicolon || self.cur().token_type is Eof),
    {
        let t = self.cur_token_type();
        match t {
            TokenType::Semicolon => true,
            TokenType::Eof => true,
            _ => false,
        }
    }

    /// Skips forward to just past the next statement terminator, so parsing
    /// can resume after a malformed statement.
    fn skip_to_statement_end(&mut self)
        requires
            old(self).wf(),
        ensures
            advances(*old(self), *final(self)),
            old(self).pos < old(self).tokens@.len() ==> final(self).pos > old(self).pos,
            pstate_of(*final(self)) == skip_stmt_end_s(toks_of(*old(self)), pstate_of(*old(self))),
        decreases old(self).remaining(),
    {
        let ghost toks = toks_of(*old(self));
        while !self.at_statement_end()
            invariant
                self.wf(),
                self.tokens == old(self).tokens,
                self.pos >= old(self).pos,
                self.errors == old(self).errors,
                toks == toks_of(*self),
                skip_stmt_end_s(toks, pstate_of(*old(self))) == skip_stmt_end_s(
                    toks,
                    pstate_of(*self),
                ),
            decreases self.remaining(),
        {
            proof {
                lemma_bridge(*self);
                assert(self.cur_index() < self.tokens@.len() - 1);
            }
            let ghost pre = pstate_of(*self);
            self.next_token();
            proof {
                assert(skip_stmt_end_s(toks, pre) == skip_stmt_end_s(toks, pstate_of(*self)));
            }
        }
        proof {
            lemma_bridge(*self);
        }
        self.next_token();
        proof {
            assert(pstate_of(*self) == skip_stmt_end_s(toks, pstate_of(*old(self))));
        }
    }
}

impl Parser {
    /// Whether the cursor stands at the end of the input.
    fn at_eof(&self) -> (r: bool)
        requires
            self.wf(),
        ensures
            r == (self.cur().token_type is Eof),
    {
        let t = self.cur_token_type();
        match t {
            TokenType::Eof => true,
            _ => false,
        }
    }

    /// Parses the whole token stream into a program.  Never fails: a
    /// malformed statement is recorded as an error and skipped, and parsing
    /// resumes at the next statement boundary.  Every statement of the
    /// result is well-formed.
    pub fn parse_program(&mut self) -> (prog: Program)
        requires
            old(self).wf(),
        ensures
            advances(*old(self), *final(self)),
            stmts_wf(prog@),
            final(self).cur().token_type is Eof,
            ({
                let sp = parse_program_s(toks_of(*old(self)), pstate_of(*old(self)));
                prog@ == sp.prog && pstate_of(*final(self)) == sp.st
            }),
    {
        let ghost toks = toks_of(*old(self));
        let ghost whole = parse_program_s(toks, pstate_of(*self));
        let mut statements: Vec<Statement> = Vec::new();
        proof {
            assert(stmts_view(statements@) =~= Seq::<crate::ast::StmtV>::empty());
            let rest0 = parse_program_s(toks, pstate_of(*self));
            assert(stmts_view(statements@).add(rest0.prog) =~= rest0.prog);
        }
        while !self.at_eof()
            invariant
                self.wf(),
                self.tokens == old(self).tokens,
                self.pos >= old(self).pos,
                old(self).errors@.is_prefix_of(self.errors@),
                stmts_wf(stmts_view(statements@)),
                toks == toks_of(*self),
                whole == parse_program_s(toks, pstate_of(*old(self))),
                ({
                    let rest = parse_program_s(toks, pstate_of(*self));
                    whole == (PProgR {
                        prog: stmts_view(statements@).add(rest.prog),
                        st: rest.st,
                    })
                }),
            decreases self.remaining(),
        {
            let ghost head = pstate_of(*self);
            proof {
                lemma_bridge(*self);
                assert(self.cur_index() < self.tokens@.len() - 1);
            }
            match self.parse_statement() {
                Some(st) => {
                    let ghost prev = statements@;
                    proof {
                        assert(prev.push(st).drop_last() =~= prev);
                    }
                    statements.push(st);
                    proof {
                        assert(statements@.drop_last() =~= prev);
                        assert(stmts_view(statements@) == stmts_view(prev).push(stmt_view(
                            statements@.last(),
                        )));
                        assert(stmts_view(statements@).drop_last() =~= stmts_view(prev));
                        assert(p_progress(toks, head, pstate_of(*self)));
                        let rest_new = parse_program_s(toks, pstate_of(*self));
                        assert(stmts_view(prev).add(seq![stmt_view(st)].add(rest_new.prog))
                            =~= stmts_view(statements@).add(rest_new.prog));
                    }
                },
                None => {
                    let ghost mid = pstate_of(*self);
                    proof {
                        assert(head.pos <= mid.pos <= toks.len());
                    }
                    self.skip_to_statement_end();
                    proof {
                        assert(p_progress(toks, head, pstate_of(*self)));
                    }
                },
            }
        }
        proof {
            let rest = parse_program_s(toks, pstate_of(*self));
            assert(rest == (PProgR { prog: Seq::<StmtV>::empty(), st: pstate_of(*self) }));
            assert(stmts_view(statements@).add(Seq::<StmtV>::empty()) =~= stmts_view(
                statements@,
            ));
        }
        Program { statements }
    }

    /// Parses one statement, dispatching on the current token; the cursor
    /// ends at the first token of the next statement.
    fn parse_statement(&mut self) -> (r: Option<Statement>)
        requires
            old(self).wf(),
        ensures
            advances(*old(self), *final(self)),
            r matches Some(st) ==> stmt_wf(st@) && final(self).pos > old(self).pos,
            ({
                let sp = parse_statement_s(toks_of(*old(self)), pstate_of(*old(self)));
                pstate_of(*final(self)) == sp.st && stmt_opt_matches(sp.stmt, r)
            }),
        decreases old(self).remaining(), 10nat,
    {
        proof {
            lemma_bridge(*self);
        }
        let t = self.cur_token_type();
        match t {
            TokenType::Let => self.parse_let_statement(),
            TokenType::Return => self.parse_return_statement(),
            TokenType::Def => self.parse_def_statement(),
            _ => self.parse_expression_statement(),
        }
    }

    /// `let [rec] IDENT = expression ;`
    fn parse_let_statement(&mut self) -> (r: Option<Statement>)
        requires
            old(self).wf(),
        ensures
            advances(*old(self), *final(self)),
            r matches Some(st) ==> stmt_wf(st@) && final(self).pos > old(self).pos && (
            st@ matches StmtV::Let { rec, .. } && rec == (old(self).peek().token_type
                is Rec)),
            ({
                let sp = parse_let_statement_s(toks_of(*old(self)), pstate_of(*old(self)));
                pstate_of(*final(self)) == sp.st && stmt_opt_matches(sp.stmt, r)
            }),
        decreases old(self).remaining(), 9nat,
    {
        proof {
            lemma_bridge(*self);
        }
        let t = self.cur_token_type();
        let is_let = match t {
            TokenType::Let => true,
            _ => false,
        };
        if !is_let {
            return None;
        }
        let token = self.cur_token_clone();
        let rec = self.expect_peek(TokenType::Rec);
        let name = if self.expect_peek(TokenType::Ident) {
            proof {
                lemma_bridge(*self);
            }
            let nt = self.cur_token_clone();
            let value = nt.literal.clone();
            Identifier { token: nt, value }
        } else {
            self.expect_error(TokenType::Ident);
            return None;
        };
        if !self.expect_peek(TokenType::Assign) {
            self.expect_error(TokenType::Assign);
            return None;
        }
        self.next_token();
        let value = match self.parse_expression(0) {
            Some(e) => e,
            None => {
                return None;
            },
        };
        self.next_token();
        proof {
            lemma_bridge(*self);
        }
        let ct = self.cur_token_type();
        let at_semi = match ct {
            TokenType::Semicolon => true,
            _ => false,
        };
        if !at_semi {
            self.expect_error(TokenType::Semicolon);
        } else {
            self.next_token();
        }
        Some(Statement::Let(LetStatement { token, name, value, rec }))
    }

    /// `return expression ;`
    fn parse_return_statement(&mut self) -> (r: Option<Statement>)
        requires
            old(self).wf(),
        ensures
            advances(*old(self), *final(self)),
            r matches Some(st) ==> stmt_wf(st@) && final(self).pos > old(self).pos
                && st@ matches StmtV::Return { .. },
            ({
                let sp = parse_return_statement_s(toks_of(*old(self)), pstate_of(*old(self)));
                pstate_of(*final(self)) == sp.st && stmt_opt_matches(sp.stmt, r)
            }),
        decreases old(self).remaining(), 9nat,
    {
        proof {
            lemma_bridge(*self);
        }
        let t = self.cur_token_type();
        let is_return = match t {
            TokenType::Return => true,
            _ => false,
        };
        if !is_return {
            return None;
        }
        let token = self.cur_token_clone();
        self.next_token();
        proof {
            assert(p_progress(
                toks_of(*old(self)),
                pstate_of(*old(self)),
                pstate_of(*self),
            ));
        }
        let return_value = match self.parse_expression(0) {
            Some(e) => e,
            None => {
                return None;
            },
        };
        self.next_token();
        proof {
            lemma_bridge(*self);
        }
        let ct = self.cur_token_type();
        let at_semi = match ct {
            TokenType::Semicolon => true,
            _ => false,
        };
        if !at_semi {
            self.expect_error(TokenType::Semicolon);
        } else {
            self.next_token();
        }
        Some(Statement::Return(ReturnStatement { token, return_value }))
    }

    /// `def IDENT ( params ) { body }`, with no trailing semicolon.
    fn parse_def_statement(&mut self) -> (r: Option<Statement>)
        requires
            old(self).wf(),
        ensures
            advances(*old(self), *final(self)),
            r matches Some(st) ==> stmt_wf(st@) && final(self).pos > old(self).pos && (
            st@ matches StmtV::Def { name, .. } && name == old(self).peek().literal),
            ({
                let sp = parse_def_statement_s(toks_of(*old(self)), pstate_of(*old(self)));
                pstate_of(*final(self)) == sp.st && stmt_opt_matches(sp.stmt, r)
            }),
        decreases old(self).remaining(), 9nat,
    {
        proof {
            lemma_bridge(*self);
        }
        let t = self.cur_token_type();
        let is_def = match t {
            TokenType::Def => true,
            _ => false,
        };
        if !is_def {
            return None;
        }
        let token = self.cur_token_clone();
        let name = if self.expect_peek(TokenType::Ident) {
            proof {
                lemma_bridge(*self);
            }
            let nt = self.cur_token_clone();
            let value = nt.literal.clone();
            Identifier { token: nt, value }
        } else {
            self.expect_error(TokenType::Ident);
            return None;
        };
        if !self.expect_peek(TokenType::LParen) {
            self.expect_error(TokenType::LParen);
            return None;
        }
        let parameters = match self.parse_parameter_list() {
            Some(ps) => ps,
            None => {
                return None;
            },
        };
        if !self.expect_peek(TokenType::LBrace) {
            self.expect_error(TokenType::LBrace);
            return None;
        }
        proof {
            assert(pstate_of(*old(self)).pos <= pstate_of(*self).pos <= toks_of(
                *old(self),
            ).len());
        }
        let body = match self.parse_block_statement() {
            Some(b) => b,
            None => {
                return None;
            },
        };
        self.next_token();
        Some(Statement::Def(DefStatement { token, name, parameters, body }))
    }

    /// One expression in statement position; the trailing semicolon is
    /// optional.
    fn parse_expression_statement(&mut self) -> (r: Option<Statement>)
        requires
            old(self).wf(),
        ensures
            advances(*old(self), *final(self)),
            r matches Some(st) ==> stmt_wf(st@) && final(self).pos > old(self).pos
                && st@ matches StmtV::Expr { .. },
            ({
                let sp = parse_expression_statement_s(toks_of(*old(self)), pstate_of(*old(self)));
                pstate_of(*final(self)) == sp.st && stmt_opt_matches(sp.stmt, r)
            }),
        decreases old(self).remaining(), 9nat,
    {
        proof {
            lemma_bridge(*self);
        }
        let token = self.cur_token_clone();
        let expression = match self.parse_expression(0) {
            Some(e) => e,
            None => {
                return None;
            },
        };
        self.next_token();
        proof {
            lemma_bridge(*self);
        }
        let ct = self.cur_token_type();
        let at_semi = match ct {
            TokenType::Semicolon => true,
            _ => false,
        };
        if at_semi {
            self.next_token();
        }
        Some(Statement::Expression(ExpressionStatement { token, expression }))
    }

    /// `{` statements `}`; the cursor ends on the closing brace.
    pub fn parse_block_statement(&mut self) -> (r: Option<BlockStatement>)
        requires
            old(self).wf(),
        ensures
            advances(*old(self), *final(self)),
            r matches Some(b) ==> stmts_wf(stmts_view(b.statements@)) && final(self).pos > old(
                self,
            ).pos,
            ({
                let sp = parse_block_statement_s(toks_of(*old(self)), pstate_of(*old(self)));
                pstate_of(*final(self)) == sp.st && block_opt_matches(sp.stmts, r)
            }),
        decreases old(self).remaining(), 7nat,
    {
        let ghost toks = toks_of(*old(self));
        proof {
            lemma_bridge(*self);
        }
        let t = self.cur_token_type();
        let is_lbrace = match t {
            TokenType::LBrace => true,
            _ => false,
        };
        if !is_lbrace {
            return None;
        }
        let token = self.cur_token_clone();
        self.next_token();
        proof {
            assert(p_progress(toks, pstate_of(*old(self)), pstate_of(*self)));
        }
        let ghost whole_blk = block_stmts_s(toks, pstate_of(*self));
        proof {
            assert(parse_block_statement_s(toks, pstate_of(*old(self))) == whole_blk);
        }
        let mut statements: Vec<Statement> = Vec::new();
        proof {
            assert(stmts_view(statements@) =~= Seq::<crate::ast::StmtV>::empty());
            let rest0 = block_stmts_s(toks, pstate_of(*self));
            match rest0.stmts {
                Some(more) => {
                    assert(stmts_view(statements@).add(more) =~= more);
                },
                None => {},
            }
        }
        let ghost start = self.pos;
        loop
            invariant_except_break
                self.wf(),
                self.tokens == old(self).tokens,
                self.pos >= start,
                start > old(self).pos,
                old(self).errors@.is_prefix_of(self.errors@),
                stmts_wf(stmts_view(statements@)),
                toks == toks_of(*self),
                parse_block_statement_s(toks, pstate_of(*old(self))) == whole_blk,
                ({
                    let rest = block_stmts_s(toks, pstate_of(*self));
                    whole_blk == (match rest.stmts {
                        Some(more) => PStmtsR {
                            stmts: Some(stmts_view(statements@).add(more)),
                            st: rest.st,
                        },
                        None => PStmtsR { stmts: None, st: rest.st },
                    })
                }),
            ensures
                self.wf(),
                self.tokens == old(self).tokens,
                self.pos >= start,
                start > old(self).pos,
                old(self).errors@.is_prefix_of(self.errors@),
                stmts_wf(stmts_view(statements@)),
                toks == toks_of(*self),
                parse_block_statement_s(toks, pstate_of(*old(self))) == whole_blk,
                whole_blk == (PStmtsR {
                    stmts: Some(stmts_view(statements@)),
                    st: pstate_of(*self),
                }),
            decreases self.remaining(),
        {
            let ghost head = pstate_of(*self);
            proof {
                lemma_bridge(*self);
            }
            let pt = self.peek_token_type();
            let peek_eof = match pt {
                TokenType::Eof => true,
                _ => false,
            };
            if peek_eof {
                proof {
                    assert(block_stmts_s(toks, head) == (PStmtsR {
                        stmts: Some(Seq::<StmtV>::empty()),
                        st: head,
                    }));
                    assert(stmts_view(statements@).add(Seq::<StmtV>::empty()) =~= stmts_view(
                        statements@,
                    ));
                }
                break;
            }
            match self.parse_statement() {
                Some(st) => {
                    let ghost prev = statements@;
                    statements.push(st);
                    proof {
                        assert(statements@.drop_last() =~= prev);
                        assert(stmts_view(statements@).drop_last() =~= stmts_view(prev));
                        lemma_bridge(*self);
                    }
                },
                None => {
                    proof {
                        let rest = block_stmts_s(toks, head);
                        assert(rest.stmts is None && rest.st == pstate_of(*self));
                        assert(whole_blk.stmts is None && whole_blk.st == pstate_of(*self));
                        let sp = parse_block_statement_s(toks, pstate_of(*old(self)));
                        assert(sp.stmts is None && sp.st == pstate_of(*self));
                    }
                    return None;
                },
            }
            let ct = self.cur_token_type();
            let at_rbrace = match ct {
                TokenType::RBrace => true,
                _ => false,
            };
            if at_rbrace {
                proof {
                    assert(stmts_view(statements@.drop_last()).add(
                        seq![stmts_view(statements@).last()],
                    ) =~= stmts_view(statements@));
                }
                break;
            }
            proof {
                let rest_new = block_stmts_s(toks, pstate_of(*self));
                match rest_new.stmts {
                    Some(more) => {
                        assert(stmts_view(statements@.drop_last()).add(
                            seq![stmts_view(statements@).last()].add(more),
                        ) =~= stmts_view(statements@).add(more));
                    },
                    None => {},
                }
            }
        }
        proof {
            let sp = parse_block_statement_s(toks, pstate_of(*old(self)));
            assert(sp.st == pstate_of(*self) && sp.stmts == Some(stmts_view(statements@)));
        }
        Some(BlockStatement { token, statements })
    }

    /// Parses one expression with the Pratt scheme: a prefix parselet
    /// builds the first operand, then infix parselets extend it while the
    /// look-ahead operator binds tighter than `precedence`.
    fn parse_expression(&mut self, precedence: u8) -> (r: Option<Box<Expression>>)
        requires
            old(self).wf(),
        ensures
            advances(*old(self), *final(self)),
            r matches Some(e) ==> expr_wf((*e)@),
            r is Some ==> !(old(self).cur().token_type is Eof),
            ({
                let sp = parse_expression_s(
                    toks_of(*old(self)),
                    precedence,
                    pstate_of(*old(self)),
                );
                pstate_of(*final(self)) == sp.st && expr_opt_matches(sp.expr, r)
            }),
        decreases old(self).remaining(), 8nat,
    {
        let ghost toks = toks_of(*old(self));
        proof {
            lemma_bridge(*self);
        }
        let t = self.cur_token_type();
        let prefix_result: Option<Box<Expression>> = match t {
            TokenType::Ident => self.parse_identifier(),
            TokenType::Int => self.parse_integer_literal(),
            TokenType::Null => self.parse_null(),
            TokenType::True => self.parse_boolean_literal(),
            TokenType::False => self.parse_boolean_literal(),
            TokenType::Str => self.parse_string_literal(),
            TokenType::Minus => self.parse_prefix_expression(),
            TokenType::Bang => self.parse_prefix_expression(),
            TokenType::LParen => self.parse_grouped_expression(),
            TokenType::LSquare => self.parse_array_expression(),
            TokenType::If => self.parse_if_expression(),
            TokenType::Function => self.parse_function_literal(),
            _ => {
                self.no_prefix_function_error(t);
                None
            },
        };
        let mut left = match prefix_result {
            Some(e) => e,
            None => {
                proof {
                    let sp = parse_expression_s(toks, precedence, pstate_of(*old(self)));
                    assert(sp.expr is None && sp.st == pstate_of(*self));
                }
                return None;
            },
        };
        proof {
            assert(pstate_of(*old(self)).pos <= pstate_of(*self).pos <= toks.len());
        }
        let ghost target = parse_ops_s(toks, precedence, (*left)@, pstate_of(*self));
        proof {
            assert(parse_expression_s(toks, precedence, pstate_of(*old(self))) == target);
        }
        loop
            invariant_except_break
                self.wf(),
                self.tokens == old(self).tokens,
                self.pos >= old(self).pos,
                old(self).errors@.is_prefix_of(self.errors@),
                expr_wf((*left)@),
                toks == toks_of(*self),
                target == parse_ops_s(toks, precedence, (*left)@, pstate_of(*self)),
                parse_expression_s(toks, precedence, pstate_of(*old(self))) == target,
            ensures
                self.wf(),
                self.tokens == old(self).tokens,
                self.pos >= old(self).pos,
                old(self).errors@.is_prefix_of(self.errors@),
                expr_wf((*left)@),
                toks == toks_of(*self),
                target == (PExprR { expr: Some((*left)@), st: pstate_of(*self) }),
                parse_expression_s(toks, precedence, pstate_of(*old(self))) == target,
            decreases self.remaining(),
        {
            let ghost head = pstate_of(*self);
            proof {
                lemma_bridge(*self);
            }
            let pt = self.peek_token_type();
            let stop = match pt {
                TokenType::Semicolon => true,
                TokenType::Comma => true,
                _ => false,
            };
            if stop {
                break;
            }
            let next_precedence = Self::token_to_precedence(pt);
            if !(next_precedence > precedence) {
                break;
            }
            if !Self::has_infix_function(pt) {
                break;
            }
            proof {
                assert(!(self.peek().token_type is Eof));
            }
            self.next_token();
            proof {
                lemma_bridge(*self);
            }
            let ct = self.cur_token_type();
            let ghost lv = (*left)@;
            let infix_result: Option<Box<Expression>> = match ct {
                TokenType::LParen => self.parse_call_expression(left),
                TokenType::LSquare => self.parse_index_expression(left),
                _ => self.parse_infix_expression(left),
            };
            left = match infix_result {
                Some(e) => e,
                None => {
                    proof {
                        assert(parse_ops_s(toks, precedence, lv, head) == (PExprR {
                            expr: None,
                            st: pstate_of(*self),
                        }));
                        let sp = parse_expression_s(toks, precedence, pstate_of(*old(self)));
                        assert(sp.expr is None && sp.st == pstate_of(*self));
                    }
                    return None;
                },
            };
            proof {
                assert(p_progress(toks, head, pstate_of(*self)));
            }
        }
        proof {
            let sp = parse_expression_s(toks, precedence, pstate_of(*old(self)));
            assert(sp.st == pstate_of(*self) && sp.expr == Some((*left)@));
        }
        Some(left)
    }

    /// The identifier at the cursor, as an expression.
    fn parse_identifier(&mut self) -> (r: Option<Box<Expression>>)
        requires
            old(self).wf(),
        ensures
            advances(*old(self), *final(self)),
            final(self).pos == old(self).pos,
            r matches Some(e) ==> expr_wf((*e)@) && (*e)@ == (ExprV::Ident {
                name: old(self).cur().literal,
            }),
            ({
                let sp = parse_identifier_s(toks_of(*old(self)), pstate_of(*old(self)));
                pstate_of(*final(self)) == sp.st && expr_opt_matches(sp.expr, r)
            }),
    {
        proof {
            lemma_bridge(*self);
        }
        let token = self.cur_token_clone();
        let value = token.literal.clone();
        Some(Box::new(Expression::Identifier(Identifier { token, value })))
    }

    /// The integer literal at the cursor; a value that does not fit in an
    /// `i64` is recorded as an error.
    fn parse_integer_literal(&mut self) -> (r: Option<Box<Expression>>)
        requires
            old(self).wf(),
        ensures
            advances(*old(self), *final(self)),
            final(self).pos == old(self).pos,
            r matches Some(e) ==> expr_wf((*e)@) && ((*e)@ matches ExprV::Int { value } && value
                == digits_val(old(self).cur().literal) && all_digits(old(self).cur().literal)),
            r is None ==> old(self).cur().literal.len() == 0 || !all_digits(
                old(self).cur().literal,
            ) || digits_val(old(self).cur().literal) > i64::MAX,
            ({
                let sp = parse_integer_literal_s(toks_of(*old(self)), pstate_of(*old(self)));
                pstate_of(*final(self)) == sp.st && expr_opt_matches(sp.expr, r)
            }),
    {
        proof {
            lemma_bridge(*self);
        }
        let token = self.cur_token_clone();
        match parse_i64_digits(&token.literal) {
            Some(value) => Some(Box::new(Expression::Integer(IntegerLiteral { token, value }))),
            None => {
                let msg = concat3("Could not parse ", token.literal.as_str(), " as integer");
                let ghost pre = self.errors@;
                self.errors.push(msg);
                proof {
                    assert(self.errors@ =~= pre.push(msg));
                    assert(pre.is_prefix_of(self.errors@));
                    lemma_errors_push(pre, msg);
                    assert(pstate_of(*self) =~= push_err(
                        pstate_of(*old(self)),
                        int_parse_msg(old(self).cur().literal),
                    ));
                }
                None
            },
        }
    }

    /// The boolean literal at the cursor.
    fn parse_boolean_literal(&mut self) -> (r: Option<Box<Expression>>)
        requires
            old(self).wf(),
        ensures
            advances(*old(self), *final(self)),
            final(self).pos == old(self).pos,
            r matches Some(e) ==> expr_wf((*e)@) && (*e)@ == (ExprV::Bool {
                value: old(self).cur().literal == "true"@,
            }),
            ({
                let sp = parse_boolean_literal_s(toks_of(*old(self)), pstate_of(*old(self)));
                pstate_of(*final(self)) == sp.st && expr_opt_matches(sp.expr, r)
            }),
    {
        proof {
            lemma_bridge(*self);
        }
        let token = self.cur_token_clone();
        if str_eq(&token.literal, "true") {
            Some(Box::new(Expression::Boolean(BooleanLiteral { token, value: true })))
        } else if str_eq(&token.literal, "false") {
            Some(Box::new(Expression::Boolean(BooleanLiteral { token, value: false })))
        } else {
            let msg = concat3("Could not parse ", token.literal.as_str(), " as a bool");
            let ghost pre = self.errors@;
            self.errors.push(msg);
            proof {
                assert(self.errors@ =~= pre.push(msg));
                assert(pre.is_prefix_of(self.errors@));
                lemma_errors_push(pre, msg);
                assert(pstate_of(*self) =~= push_err(
                    pstate_of(*old(self)),
                    bool_parse_msg(old(self).cur().literal),
                ));
            }
            None
        }
    }

    /// The `null` literal at the cursor.
    fn parse_null(&mut self) -> (r: Option<Box<Expression>>)
        requires
            old(self).wf(),
        ensures
            advances(*old(self), *final(self)),
            final(self).pos == old(self).pos,
            r matches Some(e) ==> expr_wf((*e)@) && (*e)@ == ExprV::Null,
            ({
                let sp = parse_null_s(toks_of(*old(self)), pstate_of(*old(self)));
                pstate_of(*final(self)) == sp.st && expr_opt_matches(sp.expr, r)
            }),
    {
        let token = self.cur_token_clone();
        Some(Box::new(Expression::Null(NullLiteral { token })))
    }

    /// The string literal at the cursor; its token literal is the interior
    /// text.
    fn parse_string_literal(&mut self) -> (r: Option<Box<Expression>>)
        requires
            old(self).wf(),
        ensures
            advances(*old(self), *final(self)),
            final(self).pos == old(self).pos,
            r matches Some(e) ==> expr_wf((*e)@) && (*e)@ == (ExprV::Str {
                value: old(self).cur().literal,
            }),
            ({
                let sp = parse_string_literal_s(toks_of(*old(self)), pstate_of(*old(self)));
                pstate_of(*final(self)) == sp.st && expr_opt_matches(sp.expr, r)
            }),
    {
        proof {
            lemma_bridge(*self);
        }
        let token = self.cur_token_clone();
        let value = token.literal.clone();
        Some(Box::new(Expression::Str(StringLiteral { token, value })))
    }

    /// `!operand` or `-operand`: the operator at the cursor applied to the
    /// expression after it, parsed at unary precedence.
    pub fn parse_prefix_expression(&mut self) -> (r: Option<Box<Expression>>)
        requires
            old(self).wf(),
        ensures
            advances(*old(self), *final(self)),
            r matches Some(e) ==> expr_wf((*e)@) && ((*e)@ matches ExprV::Prefix { op, .. } && op
                == old(self).cur().literal),
            ({
                let sp = parse_prefix_expression_s(toks_of(*old(self)), pstate_of(*old(self)));
                pstate_of(*final(self)) == sp.st && expr_opt_matches(sp.expr, r)
            }),
        decreases old(self).remaining(), 7nat,
    {
        proof {
            lemma_bridge(*self);
        }
        if self.at_eof() {
            let t = self.cur_token_type();
            self.no_prefix_function_error(t);
            return None;
        }
        let token = self.cur_token_clone();
        let operator = token.literal.clone();
        self.next_token();
        proof {
            assert(p_progress(toks_of(*old(self)), pstate_of(*old(self)), pstate_of(*self)));
        }
        let right = match self.parse_expression(PREFIX_PRECEDENCE) {
            Some(e) => e,
            None => {
                return None;
            },
        };
        Some(Box::new(Expression::Prefix(PrefixExpression { token, operator, right })))
    }

    /// A parenthesized expression: `( expression )`.
    fn parse_grouped_expression(&mut self) -> (r: Option<Box<Expression>>)
        requires
            old(self).wf(),
            !(old(self).cur().token_type is Eof),
        ensures
            advances(*old(self), *final(self)),
            r matches Some(e) ==> expr_wf((*e)@),
            ({
                let sp = parse_grouped_expression_s(toks_of(*old(self)), pstate_of(*old(self)));
                pstate_of(*final(self)) == sp.st && expr_opt_matches(sp.expr, r)
            }),
        decreases old(self).remaining(), 7nat,
    {
        proof {
            lemma_bridge(*self);
        }
        self.next_token();
        proof {
            assert(p_progress(toks_of(*old(self)), pstate_of(*old(self)), pstate_of(*self)));
        }
        let expression = match self.parse_expression(0) {
            Some(e) => e,
            None => {
                return None;
            },
        };
        if self.expect_peek(TokenType::RParen) {
            Some(expression)
        } else {
            self.expect_error(TokenType::RParen);
            None
        }
    }

    /// `if ( condition ) { consequence } [ else { alternative } ]`.
    fn parse_if_expression(&mut self) -> (r: Option<Box<Expression>>)
        requires
            old(self).wf(),
        ensures
            advances(*old(self), *final(self)),
            r matches Some(e) ==> expr_wf((*e)@) && (*e)@ matches ExprV::If { .. },
            ({
                let sp = parse_if_expression_s(toks_of(*old(self)), pstate_of(*old(self)));
                pstate_of(*final(self)) == sp.st && expr_opt_matches(sp.expr, r)
            }),
        decreases old(self).remaining(), 7nat,
    {
        let ghost toks = toks_of(*old(self));
        proof {
            lemma_bridge(*self);
        }
        let t = self.cur_token_type();
        let is_if = match t {
            TokenType::If => true,
            _ => false,
        };
        if !is_if {
            return None;
        }
        let token = self.cur_token_clone();
        if !self.expect_peek(TokenType::LParen) {
            self.expect_error(TokenType::LParen);
            return None;
        }
        self.next_token();
        proof {
            assert(p_progress(toks, pstate_of(*old(self)), pstate_of(*self)));
        }
        let condition = match self.parse_expression(0) {
            Some(e) => e,
            None => {
                return None;
            },
        };
        if !self.expect_peek(TokenType::RParen) {
            self.expect_error(TokenType::RParen);
            return None;
        }
        if !self.expect_peek(TokenType::LBrace) {
            self.expect_error(TokenType::LBrace);
            return None;
        }
        proof {
            assert(pstate_of(*old(self)).pos <= pstate_of(*self).pos <= toks.len());
        }
        let consequence = match self.parse_block_statement() {
            Some(b) => b,
            None => {
                return None;
            },
        };
        proof {
            lemma_bridge(*self);
        }
        let pt = self.peek_token_type();
        let peek_else = match pt {
            TokenType::Else => true,
            _ => false,
        };
        if peek_else {
            self.next_token();
            if !self.expect_peek(TokenType::LBrace) {
                self.expect_error(TokenType::LBrace);
                return None;
            }
            proof {
                assert(pstate_of(*old(self)).pos <= pstate_of(*self).pos <= toks.len());
            }
            let alternative = match self.parse_block_statement() {
                Some(b) => b,
                None => {
                    return None;
                },
            };
            Some(
                Box::new(
                    Expression::If(
                        IfExpression {
                            token,
                            condition,
                            consequence,
                            alternative: Some(alternative),
                        },
                    ),
                ),
            )
        } else {
            Some(
                Box::new(
                    Expression::If(
                        IfExpression { token, condition, consequence, alternative: None },
                    ),
                ),
            )
        }
    }

    /// `fun ( params ) { body }`.
    fn parse_function_literal(&mut self) -> (r: Option<Box<Expression>>)
        requires
            old(self).wf(),
        ensures
            advances(*old(self), *final(self)),
            r matches Some(e) ==> expr_wf((*e)@) && (*e)@ matches ExprV::Fun { .. },
            ({
                let sp = parse_function_literal_s(toks_of(*old(self)), pstate_of(*old(self)));
                pstate_of(*final(self)) == sp.st && expr_opt_matches(sp.expr, r)
            }),
        decreases old(self).remaining(), 7nat,
    {
        let ghost toks = toks_of(*old(self));
        proof {
            lemma_bridge(*self);
        }
        let t = self.cur_token_type();
        let is_fun = match t {
            TokenType::Function => true,
            _ => false,
        };
        if !is_fun {
            return None;
        }
        let token = self.cur_token_clone();
        if !self.expect_peek(TokenType::LParen) {
            self.expect_error(TokenType::LParen);
            return None;
        }
        let parameters = match self.parse_parameter_list() {
            Some(ps) => ps,
            None => {
                return None;
            },
        };
        if !self.expect_peek(TokenType::LBrace) {
            self.expect_error(TokenType::LBrace);
            return None;
        }
        proof {
            assert(pstate_of(*old(self)).pos <= pstate_of(*self).pos <= toks.len());
        }
        let body = match self.parse_block_statement() {
            Some(b) => b,
            None => {
                return None;
            },
        };
        Some(Box::new(Expression::Function(FunctionLiteral { token, parameters, body })))
    }

    /// `[ expression ( , expression )* ]` or `[]`.
    #[verifier::rlimit(50)]
    fn parse_array_expression(&mut self) -> (r: Option<Box<Expression>>)
        requires
            old(self).wf(),
        ensures
            advances(*old(self), *final(self)),
            r matches Some(e) ==> expr_wf((*e)@) && (*e)@ matches ExprV::Array { .. },
            ({
                let sp = parse_array_expression_s(toks_of(*old(self)), pstate_of(*old(self)));
                pstate_of(*final(self)) == sp.st && expr_opt_matches(sp.expr, r)
            }),
        decreases old(self).remaining(), 7nat,
    {
        let ghost toks = toks_of(*old(self));
        proof {
            lemma_bridge(*self);
        }
        let t = self.cur_token_type();
        let is_lsquare = match t {
            TokenType::LSquare => true,
            _ => false,
        };
        if !is_lsquare {
            return None;
        }
        let token = self.cur_token_clone();
        let mut items: Vec<Expression> = Vec::new();
        proof {
            assert(exprs_view(items@) =~= Seq::<crate::ast::ExprV>::empty());
            assert(exprs_wf(exprs_view(items@)));
        }
        if !self.expect_peek(TokenType::RSquare) {
            self.next_token();
            proof {
                assert(p_progress(toks, pstate_of(*old(self)), pstate_of(*self)));
            }
            let ghost whole_items = parse_items_s(toks, pstate_of(*self), TokenType::RSquare);
            proof {
                let rest0 = parse_items_s(toks, pstate_of(*self), TokenType::RSquare);
                match rest0.exprs {
                    Some(more) => {
                        assert(exprs_view(items@).add(more) =~= more);
                    },
                    None => {},
                }
                assert(parse_array_expression_s(toks, pstate_of(*old(self))) == (
                match whole_items.exprs {
                    Some(more) => PExprR {
                        expr: Some(ExprV::Array { items: more }),
                        st: whole_items.st,
                    },
                    None => PExprR { expr: None, st: whole_items.st },
                }));
            }
            loop
                invariant_except_break
                    self.wf(),
                    self.tokens == old(self).tokens,
                    self.pos > old(self).pos,
                    old(self).errors@.is_prefix_of(self.errors@),
                    exprs_wf(exprs_view(items@)),
                    toks == toks_of(*self),
                    parse_array_expression_s(toks, pstate_of(*old(self))) == (
                    match whole_items.exprs {
                        Some(more) => PExprR {
                            expr: Some(ExprV::Array { items: more }),
                            st: whole_items.st,
                        },
                        None => PExprR { expr: None, st: whole_items.st },
                    }),
                    ({
                        let rest = parse_items_s(toks, pstate_of(*self), TokenType::RSquare);
                        whole_items == (match rest.exprs {
                            Some(more) => PExprsR {
                                exprs: Some(exprs_view(items@).add(more)),
                                st: rest.st,
                            },
                            None => PExprsR { exprs: None, st: rest.st },
                        })
                    }),
                ensures
                    self.wf(),
                    self.tokens == old(self).tokens,
                    self.pos > old(self).pos,
                    old(self).errors@.is_prefix_of(self.errors@),
                    exprs_wf(exprs_view(items@)),
                    toks == toks_of(*self),
                    parse_array_expression_s(toks, pstate_of(*old(self))) == (
                    match whole_items.exprs {
                        Some(more) => PExprR {
                            expr: Some(ExprV::Array { items: more }),
                            st: whole_items.st,
                        },
                        None => PExprR { expr: None, st: whole_items.st },
                    }),
                    whole_items == (PExprsR {
                        exprs: Some(exprs_view(items@)),
                        st: pstate_of(*self),
                    }),
                decreases self.remaining(),
            {
                let ghost head = pstate_of(*self);
                let item = match self.parse_expression(0) {
                    Some(e) => e,
                    None => {
                        proof {
                            let rest = parse_items_s(toks, head, TokenType::RSquare);
                            assert(rest.exprs is None && rest.st == pstate_of(*self));
                            assert(whole_items.exprs is None && whole_items.st == pstate_of(
                                *self,
                            ));
                            let sp = parse_array_expression_s(toks, pstate_of(*old(self)));
                            assert(sp.expr is None && sp.st == pstate_of(*self));
                        }
                        return None;
                    },
                };
                let ghost prev = items@;
                items.push(*item);
                proof {
                    assert(items@.drop_last() =~= prev);
                    assert(exprs_view(items@).drop_last() =~= exprs_view(prev));
                }
                if self.expect_peek(TokenType::RSquare) {
                    proof {
                        assert(exprs_view(prev).add(seq![exprs_view(items@).last()])
                            =~= exprs_view(items@));
                    }
                    break;
                }
                if !self.expect_peek(TokenType::Comma) {
                    self.expect_error(TokenType::Comma);
                    proof {
                        let rest = parse_items_s(toks, head, TokenType::RSquare);
                        assert(rest.exprs is None && rest.st == pstate_of(*self));
                        assert(whole_items.exprs is None && whole_items.st == pstate_of(*self));
                        let sp = parse_array_expression_s(toks, pstate_of(*old(self)));
                        assert(sp.expr is None && sp.st == pstate_of(*self));
                    }
                    return None;
                }
                self.next_token();
                proof {
                    assert(p_progress(toks, head, pstate_of(*self)));
                    let rest_new = parse_items_s(toks, pstate_of(*self), TokenType::RSquare);
                    match rest_new.exprs {
                        Some(more) => {
                            assert(exprs_view(prev).add(
                                seq![exprs_view(items@).last()].add(more),
                            ) =~= exprs_view(items@).add(more));
                        },
                        None => {},
                    }
                }
            }
        }
        let result = Expression::Array(ArrayExpression { token, items });
        proof {
            assert(expr_view(result) matches ExprV::Array { .. });
            assert(expr_view(result) == (ExprV::Array { items: exprs_view(items@) }));
            assert(exprs_wf(exprs_view(items@)));
            assert(expr_wf(expr_view(result)));
            let sp = parse_array_expression_s(toks, pstate_of(*old(self)));
            assert(sp.st == pstate_of(*self) && sp.expr == Some(expr_view(result)));
        }
        Some(Box::new(result))
    }

    /// `left ( arguments )`: the callee must be an identifier or a function
    /// literal.
    fn parse_call_expression(&mut self, left: Box<Expression>) -> (r: Option<Box<Expression>>)
        requires
            old(self).wf(),
            expr_wf((*left)@),
        ensures
            advances(*old(self), *final(self)),
            r matches Some(e) ==> expr_wf((*e)@) && ((*e)@ matches ExprV::Call {
                callee,
                ..
            } && *callee == (*left)@),
            ({
                let sp = parse_call_expression_s(
                    toks_of(*old(self)),
                    (*left)@,
                    pstate_of(*old(self)),
                );
                pstate_of(*final(self)) == sp.st && expr_opt_matches(sp.expr, r)
            }),
        decreases old(self).remaining(), 7nat,
    {
        proof {
            lemma_bridge(*self);
            match *left {
                Expression::Identifier(_) => {
                    assert(expr_view(*left) matches ExprV::Ident { .. });
                },
                Expression::Function(_) => {
                    assert(expr_view(*left) matches ExprV::Fun { .. });
                },
                _ => {
                    assert(!(expr_view(*left) matches ExprV::Ident { .. }) && !(expr_view(
                        *left,
                    ) matches ExprV::Fun { .. }));
                },
            }
        }
        let callee_ok: bool = match &*left {
            Expression::Identifier(_) => true,
            Expression::Function(_) => true,
            _ => false,
        };
        if !callee_ok {
            let ghost pre = self.errors@;
            self.errors.push("Expected function literal or identifier in call position".to_owned());
            proof {
                assert(self.errors@ =~= pre.push(self.errors@.last()));
                assert(pre.is_prefix_of(self.errors@));
                lemma_errors_push(pre, self.errors@.last());
                assert(pstate_of(*self) =~= push_err(
                    pstate_of(*old(self)),
                    "Expected function literal or identifier in call position"@,
                ));
            }
            return None;
        }
        let t = self.cur_token_type();
        let is_lparen = match t {
            TokenType::LParen => true,
            _ => false,
        };
        if !is_lparen {
            return None;
        }
        let token = self.cur_token_clone();
        let arguments = match self.parse_argument_list() {
            Some(a) => a,
            None => {
                return None;
            },
        };
        proof {
            match *left {
                Expression::Identifier(_) => {
                    assert(expr_view(*left) matches crate::ast::ExprV::Ident { .. });
                },
                Expression::Function(_) => {
                    assert(expr_view(*left) matches crate::ast::ExprV::Fun { .. });
                },
                _ => {
                    assert(false);
                },
            }
        }
        Some(Box::new(Expression::Call(CallExpression { token, function: left, arguments })))
    }

    /// `left [ index ]`.
    fn parse_index_expression(&mut self, left: Box<Expression>) -> (r: Option<Box<Expression>>)
        requires
            old(self).wf(),
            expr_wf((*left)@),
        ensures
            advances(*old(self), *final(self)),
            r matches Some(e) ==> expr_wf((*e)@) && ((*e)@ matches ExprV::Index {
                collection,
                ..
            } && *collection == (*left)@),
            ({
                let sp = parse_index_expression_s(
                    toks_of(*old(self)),
                    (*left)@,
                    pstate_of(*old(self)),
                );
                pstate_of(*final(self)) == sp.st && expr_opt_matches(sp.expr, r)
            }),
        decreases old(self).remaining(), 7nat,
    {
        proof {
            lemma_bridge(*self);
        }
        let t = self.cur_token_type();
        let is_lsquare = match t {
            TokenType::LSquare => true,
            _ => false,
        };
        if !is_lsquare {
            return None;
        }
        let token = self.cur_token_clone();
        self.next_token();
        proof {
            assert(p_progress(toks_of(*old(self)), pstate_of(*old(self)), pstate_of(*self)));
        }
        let index = match self.parse_expression(0) {
            Some(e) => e,
            None => {
                return None;
            },
        };
        if !self.expect_peek(TokenType::RSquare) {
            self.expect_error(TokenType::RSquare);
            return None;
        }
        Some(Box::new(Expression::Index(IndexExpression { token, collection: left, index })))
    }

    /// `left op right`, with `right` parsed at the operator's precedence,
    /// which makes the infix operators left-associative.
    fn parse_infix_expression(&mut self, left: Box<Expression>) -> (r: Option<Box<Expression>>)
        requires
            old(self).wf(),
            expr_wf((*left)@),
            !(old(self).cur().token_type is Eof),
        ensures
            advances(*old(self), *final(self)),
            r matches Some(e) ==> expr_wf((*e)@) && ((*e)@ matches ExprV::Infix {
                op,
                left: l,
                ..
            } && op == old(self).cur().literal && *l == (*left)@),
            ({
                let sp = parse_infix_expression_s(
                    toks_of(*old(self)),
                    (*left)@,
                    pstate_of(*old(self)),
                );
                pstate_of(*final(self)) == sp.st && expr_opt_matches(sp.expr, r)
            }),
        decreases old(self).remaining(), 7nat,
    {
        proof {
            lemma_bridge(*self);
        }
        let token = self.cur_token_clone();
        let operator = token.literal.clone();
        let t = self.cur_token_type();
        let precedence = Self::token_to_precedence(t);
        self.next_token();
        proof {
            assert(p_progress(toks_of(*old(self)), pstate_of(*old(self)), pstate_of(*self)));
        }
        let right = match self.parse_expression(precedence) {
            Some(e) => e,
            None => {
                return None;
            },
        };
        Some(Box::new(Expression::Infix(InfixExpression { token, operator, left, right })))
    }

    /// A parenthesized, comma-separated argument list; the cursor starts on
    /// the opening parenthesis and ends on the closing one.
    fn parse_argument_list(&mut self) -> (r: Option<Vec<Expression>>)
        requires
            old(self).wf(),
            old(self).cur().token_type is LParen,
        ensures
            advances(*old(self), *final(self)),
            r matches Some(es) ==> exprs_wf(exprs_view(es@)) && final(self).pos > old(self).pos,
            ({
                let sp = parse_argument_list_s(toks_of(*old(self)), pstate_of(*old(self)));
                pstate_of(*final(self)) == sp.st && exprs_opt_matches(sp.exprs, r)
            }),
        decreases old(self).remaining(), 6nat,
    {
        let ghost toks = toks_of(*old(self));
        proof {
            lemma_bridge(*self);
        }
        let mut ret: Vec<Expression> = Vec::new();
        proof {
            assert(exprs_view(ret@) =~= Seq::<crate::ast::ExprV>::empty());
        }
        if !self.expect_peek(TokenType::RParen) {
            self.next_token();
            proof {
                assert(p_progress(toks, pstate_of(*old(self)), pstate_of(*self)));
            }
            let ghost whole_items = parse_items_s(toks, pstate_of(*self), TokenType::RParen);
            proof {
                let rest0 = parse_items_s(toks, pstate_of(*self), TokenType::RParen);
                match rest0.exprs {
                    Some(more) => {
                        assert(exprs_view(ret@).add(more) =~= more);
                    },
                    None => {},
                }
                assert(parse_argument_list_s(toks, pstate_of(*old(self))) == whole_items);
            }
            loop
                invariant_except_break
                    self.wf(),
                    self.tokens == old(self).tokens,
                    self.pos > old(self).pos,
                    old(self).errors@.is_prefix_of(self.errors@),
                    exprs_wf(exprs_view(ret@)),
                    toks == toks_of(*self),
                    parse_argument_list_s(toks, pstate_of(*old(self))) == whole_items,
                    ({
                        let rest = parse_items_s(toks, pstate_of(*self), TokenType::RParen);
                        whole_items == (match rest.exprs {
                            Some(more) => PExprsR {
                                exprs: Some(exprs_view(ret@).add(more)),
                                st: rest.st,
                            },
                            None => PExprsR { exprs: None, st: rest.st },
                        })
                    }),
                ensures
                    self.wf(),
                    self.tokens == old(self).tokens,
                    self.pos > old(self).pos,
                    old(self).errors@.is_prefix_of(self.errors@),
                    exprs_wf(exprs_view(ret@)),
                    toks == toks_of(*self),
                    parse_argument_list_s(toks, pstate_of(*old(self))) == whole_items,
                    whole_items == (PExprsR {
                        exprs: Some(exprs_view(ret@)),
                        st: pstate_of(*self),
                    }),
                decreases self.remaining(),
            {
                let ghost head = pstate_of(*self);
                let argument = match self.parse_expression(0) {
                    Some(e) => e,
                    None => {
                        proof {
                            let rest = parse_items_s(toks, head, TokenType::RParen);
                            assert(rest.exprs is None && rest.st == pstate_of(*self));
                            assert(whole_items.exprs is None && whole_items.st == pstate_of(
                                *self,
                            ));
                            let sp = parse_argument_list_s(toks, pstate_of(*old(self)));
                            assert(sp.exprs is None && sp.st == pstate_of(*self));
                        }
                        return None;
                    },
                };
                let ghost prev = ret@;
                ret.push(*argument);
                proof {
                    assert(ret@.drop_last() =~= prev);
                    assert(exprs_view(ret@).drop_last() =~= exprs_view(prev));
                }
                if self.expect_peek(TokenType::RParen) {
                    proof {
                        assert(exprs_view(prev).add(seq![exprs_view(ret@).last()])
                            =~= exprs_view(ret@));
                    }
                    break;
                }
                if !self.expect_peek(TokenType::Comma) {
                    self.expect_error(TokenType::Comma);
                    proof {
                        let rest = parse_items_s(toks, head, TokenType::RParen);
                        assert(rest.exprs is None && rest.st == pstate_of(*self));
                        assert(whole_items.exprs is None && whole_items.st == pstate_of(*self));
                        let sp = parse_argument_list_s(toks, pstate_of(*old(self)));
                        assert(sp.exprs is None && sp.st == pstate_of(*self));
                    }
                    return None;
                }
                self.next_token();
                proof {
                    assert(p_progress(toks, head, pstate_of(*self)));
                    let rest_new = parse_items_s(toks, pstate_of(*self), TokenType::RParen);
                    match rest_new.exprs {
                        Some(more) => {
                            assert(exprs_view(prev).add(
                                seq![exprs_view(ret@).last()].add(more),
                            ) =~= exprs_view(ret@).add(more));
                        },
                        None => {},
                    }
                }
            }
        }
        proof {
            let sp = parse_argument_list_s(toks, pstate_of(*old(self)));
            assert(sp.st == pstate_of(*self) && sp.exprs == Some(exprs_view(ret@)));
        }
        Some(ret)
    }

    /// A parenthesized, comma-separated parameter list; the cursor starts
    /// on the opening parenthesis and ends on the closing one.
    fn parse_parameter_list(&mut self) -> (r: Option<Vec<Identifier>>)
        requires
            old(self).wf(),
            old(self).cur().token_type is LParen,
        ensures
            advances(*old(self), *final(self)),
            r matches Some(ps) ==> final(self).pos > old(self).pos,
            ({
                let sp = parse_parameter_list_s(toks_of(*old(self)), pstate_of(*old(self)));
                pstate_of(*final(self)) == sp.st && names_opt_matches(sp.names, r)
            }),
        decreases old(self).remaining(), 6nat,
    {
        let ghost toks = toks_of(*old(self));
        proof {
            lemma_bridge(*self);
        }
        let mut ret: Vec<Identifier> = Vec::new();
        proof {
            assert(idents_view(ret@) =~= Seq::<Seq<char>>::empty());
        }
        if !self.expect_peek(TokenType::RParen) {
            self.next_token();
            proof {
                assert(p_progress(toks, pstate_of(*old(self)), pstate_of(*self)));
            }
            let ghost whole_params = parse_params_s(toks, pstate_of(*self));
            proof {
                let rest0 = parse_params_s(toks, pstate_of(*self));
                match rest0.names {
                    Some(more) => {
                        assert(idents_view(ret@).add(more) =~= more);
                    },
                    None => {},
                }
                assert(parse_parameter_list_s(toks, pstate_of(*old(self))) == whole_params);
            }
            loop
                invariant_except_break
                    self.wf(),
                    self.tokens == old(self).tokens,
                    self.pos > old(self).pos,
                    old(self).errors@.is_prefix_of(self.errors@),
                    toks == toks_of(*self),
                    parse_parameter_list_s(toks, pstate_of(*old(self))) == whole_params,
                    ({
                        let rest = parse_params_s(toks, pstate_of(*self));
                        whole_params == (match rest.names {
                            Some(more) => PNamesR {
                                names: Some(idents_view(ret@).add(more)),
                                st: rest.st,
                            },
                            None => PNamesR { names: None, st: rest.st },
                        })
                    }),
                ensures
                    self.wf(),
                    self.tokens == old(self).tokens,
                    self.pos > old(self).pos,
                    old(self).errors@.is_prefix_of(self.errors@),
                    toks == toks_of(*self),
                    parse_parameter_list_s(toks, pstate_of(*old(self))) == whole_params,
                    whole_params == (PNamesR {
                        names: Some(idents_view(ret@)),
                        st: pstate_of(*self),
                    }),
                decreases self.remaining(),
            {
                let ghost head = pstate_of(*self);
                proof {
                    lemma_bridge(*self);
                }
                let token = self.cur_token_clone();
                let value = token.literal.clone();
                let ghost prev = ret@;
                ret.push(Identifier { token, value });
                proof {
                    assert(ret@.drop_last() =~= prev);
                    assert(idents_view(ret@) =~= idents_view(prev).push(
                        ret@.last().value@,
                    ));
                }
                if self.expect_peek(TokenType::RParen) {
                    proof {
                        assert(idents_view(prev).add(seq![idents_view(ret@).last()])
                            =~= idents_view(ret@));
                    }
                    break;
                }
                if !self.expect_peek(TokenType::Comma) {
                    self.expect_error(TokenType::Comma);
                    proof {
                        let rest = parse_params_s(toks, head);
                        assert(rest.names is None && rest.st == pstate_of(*self));
                        assert(whole_params.names is None && whole_params.st == pstate_of(*self));
                        let sp = parse_parameter_list_s(toks, pstate_of(*old(self)));
                        assert(sp.names is None && sp.st == pstate_of(*self));
                    }
                    return None;
                }
                self.next_token();
                proof {
                    assert(p_progress(toks, head, pstate_of(*self)));
                    let rest_new = parse_params_s(toks, pstate_of(*self));
                    match rest_new.names {
                        Some(more) => {
                            assert(idents_view(prev).add(
                                seq![idents_view(ret@).last()].add(more),
                            ) =~= idents_view(ret@).add(more));
                        },
                        None => {},
                    }
                }
            }
        }
        proof {
            let sp = parse_parameter_list_s(toks, pstate_of(*old(self)));
            assert(sp.st == pstate_of(*self) && sp.names == Some(idents_view(ret@)));
        }
        Some(ret)
    }
}

/// A human-readable name for each token kind, used in error messages.
fn token_type_name(t: TokenType) -> (r: &'static str)
    ensures
        r@ == name_of(t),
{
    match t {
        TokenType::Illegal => "Illegal",
        TokenType::Eof => "Eof",
        TokenType::Ident => "Ident",
        TokenType::Int => "Int",
        TokenType::Str => "Str",
        TokenType::Assign => "Assign",
        TokenType::Plus => "Plus",
        TokenType::Comma => "Comma",
        TokenType::Semicolon => "Semicolon",
        TokenType::LParen => "LParen",
        TokenType::RParen => "RParen",
        TokenType::LBrace => "LBrace",
        TokenType::RBrace => "RBrace",
        TokenType::LSquare => "LSquare",
        TokenType::RSquare => "RSquare",
        TokenType::Function => "Function",
        TokenType::Let => "Let",
        TokenType::Rec => "Rec",
        TokenType::Bang => "Bang",
        TokenType::Minus => "Minus",
        TokenType::Slash => "Slash",
        TokenType::Star => "Star",
        TokenType::LArrow => "LArrow",
        TokenType::RArrow => "RArrow",
        TokenType::True => "True",
        TokenType::False => "False",
        TokenType::If => "If",
        TokenType::Else => "Else",
        TokenType::Return => "Return",
        TokenType::Eq => "Eq",
        TokenType::NotEq => "NotEq",
        TokenType::GreaterEq => "GreaterEq",
        TokenType::LessEq => "LessEq",
        TokenType::Null => "Null",
        TokenType::Def => "Def",
    }
}

} // verus!
