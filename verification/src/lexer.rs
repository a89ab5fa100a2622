//! The lexer: turns source text into a stream of tokens, one at a time.
//!
//! The spec-level functions in this module describe exactly which token the
//! lexer emits at any position of the input; `next_token` is proved to follow
//! them, and `tokenize` is proved to terminate with an `Eof` token, whatever
//! the input.

use vstd::prelude::*;

use crate::strutil::{chars_of_str, str_eq, string_from_chars};
use crate::token::{Token, TokenType, TokenV};

verus! {

/// Whitespace as the lexer skips it: space, tab, carriage return, line feed.
pub open spec fn is_ws(c: char) -> bool {
    c == ' ' || c == '\t' || c == '\r' || c == '\n'
}

/// Characters that may start an identifier or keyword.
pub open spec fn is_letter(c: char) -> bool {
    (97 <= c as u32 && c as u32 <= 122) || (65 <= c as u32 && c as u32 <= 90) || c == '_'
}

/// Decimal digits.
pub open spec fn is_digit(c: char) -> bool {
    48 <= c as u32 && c as u32 <= 57
}

/// Characters that may continue an identifier or keyword.
pub open spec fn is_word_char(c: char) -> bool {
    is_letter(c) || is_digit(c)
}

/// How many leading whitespace characters `s` has.
pub open spec fn skip_ws_count(s: Seq<char>) -> nat
    decreases s.len(),
{
    if s.len() == 0 || !is_ws(s[0]) {
        0
    } else {
        1 + skip_ws_count(s.drop_first())
    }
}

/// The length of the identifier or keyword starting at the head of `s`.
pub open spec fn word_len(s: Seq<char>) -> nat
    decreases s.len(),
{
    if s.len() == 0 || !is_word_char(s[0]) {
        0
    } else {
        1 + word_len(s.drop_first())
    }
}

/// The length of the run of digits starting at the head of `s`.
pub open spec fn digits_len(s: Seq<char>) -> nat
    decreases s.len(),
{
    if s.len() == 0 || !is_digit(s[0]) {
        0
    } else {
        1 + digits_len(s.drop_first())
    }
}

/// The length of a string literal's interior: everything up to the closing
/// quote, or to the end of the input when no quote closes it.
pub open spec fn str_body_len(s: Seq<char>) -> nat
    decreases s.len(),
{
    if s.len() == 0 || s[0] == '"' {
        0
    } else {
        1 + str_body_len(s.drop_first())
    }
}

pub proof fn lemma_skip_ws_count_le(s: Seq<char>)
    ensures
        skip_ws_count(s) <= s.len(),
    decreases s.len(),
{
    if s.len() > 0 && is_ws(s[0]) {
        lemma_skip_ws_count_le(s.drop_first());
    }
}

pub proof fn lemma_word_len_le(s: Seq<char>)
    ensures
        word_len(s) <= s.len(),
    decreases s.len(),
{
    if s.len() > 0 && is_word_char(s[0]) {
        lemma_word_len_le(s.drop_first());
    }
}

pub proof fn lemma_digits_len_le(s: Seq<char>)
    ensures
        digits_len(s) <= s.len(),
    decreases s.len(),
{
    if s.len() > 0 && is_digit(s[0]) {
        lemma_digits_len_le(s.drop_first());
    }
}

pub proof fn lemma_str_body_len_le(s: Seq<char>)
    ensures
        str_body_len(s) <= s.len(),
    decreases s.len(),
{
    if s.len() > 0 && s[0] != '"' {
        lemma_str_body_len_le(s.drop_first());
    }
}

/// The keyword table: `let fun def if else return true false null rec`;
/// every other word is an identifier.
pub open spec fn lookup_keyword(w: Seq<char>) -> TokenType {
    if w == "let"@ {
        TokenType::Let
    } else if w == "fun"@ {
        TokenType::Function
    } else if w == "def"@ {
        TokenType::Def
    } else if w == "if"@ {
        TokenType::If
    } else if w == "else"@ {
        TokenType::Else
    } else if w == "return"@ {
        TokenType::Return
    } else if w == "true"@ {
        TokenType::True
    } else if w == "false"@ {
        TokenType::False
    } else if w == "null"@ {
        TokenType::Null
    } else if w == "rec"@ {
        TokenType::Rec
    } else {
        TokenType::Ident
    }
}

/// The outcome of scanning one token: the token and how many characters of
/// the input it used.
pub ghost struct ScanR {
    pub token: TokenV,
    pub used: nat,
}

/// The token found at the head of `s`, with no leading whitespace assumed to
/// have been skipped.  Never fails: unknown characters become `Illegal`
/// tokens and the end of the input becomes `Eof`.
pub open spec fn scan_token(s: Seq<char>) -> ScanR {
    if s.len() == 0 {
        ScanR { token: TokenV { token_type: TokenType::Eof, literal: Seq::empty() }, used: 0 }
    } else {
        let c = s[0];
        if c == '=' {
            if s.len() >= 2 && s[1] == '=' {
                ScanR {
                    token: TokenV { token_type: TokenType::Eq, literal: seq!['=', '='] },
                    used: 2,
                }
            } else {
                ScanR { token: TokenV { token_type: TokenType::Assign, literal: seq!['='] }, used: 1 }
            }
        } else if c == '!' {
            if s.len() >= 2 && s[1] == '=' {
                ScanR {
                    token: TokenV { token_type: TokenType::NotEq, literal: seq!['!', '='] },
                    used: 2,
                }
            } else {
                ScanR { token: TokenV { token_type: TokenType::Bang, literal: seq!['!'] }, used: 1 }
            }
        } else if c == '<' {
            if s.len() >= 2 && s[1] == '=' {
                ScanR {
                    token: TokenV { token_type: TokenType::LessEq, literal: seq!['<', '='] },
                    used: 2,
                }
            } else {
                ScanR { token: TokenV { token_type: TokenType::LArrow, literal: seq!['<'] }, used: 1 }
            }
        } else if c == '>' {
            if s.len() >= 2 && s[1] == '=' {
                ScanR {
                    token: TokenV { token_type: TokenType::GreaterEq, literal: seq!['>', '='] },
                    used: 2,
                }
            } else {
                ScanR { token: TokenV { token_type: TokenType::RArrow, literal: seq!['>'] }, used: 1 }
            }
        } else if c == '+' {
            ScanR { token: TokenV { token_type: TokenType::Plus, literal: seq!['+'] }, used: 1 }
        } else if c == '-' {
            ScanR { token: TokenV { token_type: TokenType::Minus, literal: seq!['-'] }, used: 1 }
        } else if c == '*' {
            ScanR { token: TokenV { token_type: TokenType::Star, literal: seq!['*'] }, used: 1 }
        } else if c == '/' {
            ScanR { token: TokenV { token_type: TokenType::Slash, literal: seq!['/'] }, used: 1 }
        } else if c == '(' {
            ScanR { token: TokenV { token_type: TokenType::LParen, literal: seq!['('] }, used: 1 }
        } else if c == ')' {
            ScanR { token: TokenV { token_type: TokenType::RParen, literal: seq![')'] }, used: 1 }
        } else if c == '{' {
            ScanR { token: TokenV { token_type: TokenType::LBrace, literal: seq!['{'] }, used: 1 }
        } else if c == '}' {
            ScanR { token: TokenV { token_type: TokenType::RBrace, literal: seq!['}'] }, used: 1 }
        } else if c == '[' {
            ScanR { token: TokenV { token_type: TokenType::LSquare, literal: seq!['['] }, used: 1 }
        } else if c == ']' {
            ScanR { token: TokenV { token_type: TokenType::RSquare, literal: seq![']'] }, used: 1 }
        } else if c == ',' {
            ScanR { token: TokenV { token_type: TokenType::Comma, literal: seq![','] }, used: 1 }
        } else if c == ';' {
            ScanR { token: TokenV { token_type: TokenType::Semicolon, literal: seq![';'] }, used: 1 }
        } else if c == '"' {
            let n = str_body_len(s.drop_first());
            let used = if 1 + n < s.len() {
                (n + 2) as nat
            } else {
                (n + 1) as nat
            };
            ScanR {
                token: TokenV { token_type: TokenType::Str, literal: s.subrange(1, 1 + n as int) },
                used,
            }
        } else if is_letter(c) {
            let n = word_len(s);
            ScanR {
                token: TokenV {
                    token_type: lookup_keyword(s.take(n as int)),
                    literal: s.take(n as int),
                },
                used: n,
            }
        } else if is_digit(c) {
            let n = digits_len(s);
            ScanR {
                token: TokenV { token_type: TokenType::Int, literal: s.take(n as int) },
                used: n,
            }
        } else {
            ScanR { token: TokenV { token_type: TokenType::Illegal, literal: seq![c] }, used: 1 }
        }
    }
}

/// The token the lexer emits at the head of `s`: leading whitespace is
/// skipped, then one token is scanned.  `used` counts the skipped whitespace
/// too.
pub open spec fn next_token_spec(s: Seq<char>) -> ScanR {
    let w = skip_ws_count(s);
    let r = scan_token(s.skip(w as int));
    ScanR { token: r.token, used: w + r.used }
}

/// Every scan makes progress: it never reads past the end of the input, the
/// `Eof` token appears exactly when only whitespace is left, and any other
/// token uses at least one character.
pub proof fn lemma_next_token_progress(s: Seq<char>)
    ensures
        next_token_spec(s).used <= s.len(),
        (next_token_spec(s).token.token_type is Eof) <==> skip_ws_count(s) == s.len(),
        !(next_token_spec(s).token.token_type is Eof) ==> next_token_spec(s).used >= 1,
{
    lemma_skip_ws_count_le(s);
    let w = skip_ws_count(s);
    let t = s.skip(w as int);
    assert(t.len() == s.len() - w);
    if t.len() == 0 {
        assert(scan_token(t).used == 0);
    } else {
        let c = t[0];
        lemma_word_len_le(t);
        lemma_digits_len_le(t);
        lemma_str_body_len_le(t.drop_first());
        if is_letter(c) {
            assert(word_len(t) >= 1);
        }
        if is_digit(c) && !is_letter(c) {
            assert(digits_len(t) >= 1);
        }
        assert(1 <= scan_token(t).used <= t.len());
    }
}

/// The sequence of tokens the lexer produces for `s`, ending with `Eof`.
pub open spec fn spec_tokens(s: Seq<char>) -> Seq<TokenV>
    decreases s.len(),
    via spec_tokens_dec
{
    let r = next_token_spec(s);
    if r.token.token_type is Eof {
        seq![r.token]
    } else {
        seq![r.token].add(spec_tokens(s.skip(r.used as int)))
    }
}

#[via_fn]
proof fn spec_tokens_dec(s: Seq<char>) {
    lemma_next_token_progress(s);
}

/// Whitespace between tokens does not affect the token sequence: putting a
/// whitespace character in front of any input leaves its tokens unchanged.
/// Since the token sequence is defined suffix by suffix, the same holds for
/// whitespace inserted at any token boundary.
pub proof fn lemma_whitespace_prepended(c: char, s: Seq<char>)
    requires
        is_ws(c),
    ensures
        spec_tokens(seq![c].add(s)) == spec_tokens(s),
{
    let p = seq![c].add(s);
    assert(p.len() == 1 + s.len());
    assert(p[0] == c);
    assert(p.drop_first() =~= s);
    assert(skip_ws_count(p) == 1 + skip_ws_count(s));
    lemma_skip_ws_count_le(s);
    let w = skip_ws_count(s);
    assert(p.skip(1 + w as int) =~= s.skip(w as int));
    let r = next_token_spec(s);
    assert(next_token_spec(p).token == r.token);
    assert(next_token_spec(p).used == 1 + r.used);
    if r.token.token_type is Eof {
        assert(spec_tokens(p) =~= spec_tokens(s));
    } else {
        lemma_next_token_progress(s);
        assert(p.skip(1 + r.used as int) =~= s.skip(r.used as int));
        assert(spec_tokens(p) =~= spec_tokens(s));
    }
}

/// A run of whitespace in front of any input leaves its tokens unchanged.
pub proof fn lemma_whitespace_prefix(ws: Seq<char>, s: Seq<char>)
    requires
        forall|i: int| 0 <= i < ws.len() ==> is_ws(ws[i]),
    ensures
        spec_tokens(ws.add(s)) == spec_tokens(s),
    decreases ws.len(),
{
    if ws.len() == 0 {
        assert(ws.add(s) =~= s);
    } else {
        lemma_whitespace_prefix(ws.drop_first(), s);
        lemma_whitespace_prepended(ws[0], ws.drop_first().add(s));
        assert(seq![ws[0]].add(ws.drop_first().add(s)) =~= ws.add(s));
    }
}

/// The token sequence of any input is nonempty, ends with `Eof`, and holds
/// `Eof` nowhere else.
pub proof fn lemma_spec_tokens_shape(s: Seq<char>)
    ensures
        spec_tokens(s).len() >= 1,
        spec_tokens(s)[spec_tokens(s).len() - 1].token_type is Eof,
        forall|i: int|
            0 <= i < spec_tokens(s).len() - 1 ==> !(spec_tokens(s)[i].token_type is Eof),
    decreases s.len(),
{
    lemma_next_token_progress(s);
    let r = next_token_spec(s);
    if r.token.token_type is Eof {
    } else {
        lemma_spec_tokens_shape(s.skip(r.used as int));
        let rest = spec_tokens(s.skip(r.used as int));
        let whole = spec_tokens(s);
        assert(whole == seq![r.token].add(rest));
        assert(whole.len() == 1 + rest.len());
        assert(whole[whole.len() - 1] == rest[rest.len() - 1]);
        assert forall|i: int| 0 <= i < whole.len() - 1 implies !(whole[i].token_type is Eof) by {
            if i > 0 {
                assert(whole[i] == rest[i - 1]);
            }
        }
    }
}

/// The views of a sequence of tokens.
pub open spec fn token_views(ts: Seq<Token>) -> Seq<TokenV> {
    ts.map_values(|t: Token| t@)
}

/// The lexer: the source text as characters and a cursor into it.
pub struct Lexer {
    pub input: Vec<char>,
    pub pos: usize,
}

impl Lexer {
    /// The cursor never runs past the end of the input.
    pub open spec fn wf(&self) -> bool {
        self.pos <= self.input.len()
    }

    /// The whole source text.
    pub open spec fn source(&self) -> Seq<char> {
        self.input@
    }

    /// The characters not yet consumed.
    pub open spec fn remaining(&self) -> Seq<char> {
        self.input@.skip(self.pos as int)
    }

    /// Builds a lexer over `input`, with the cursor at the start.
    pub fn new(input: &str) -> (l: Lexer)
        ensures
            l.wf(),
            l.source() == input@,
            l.remaining() == input@,
    {
        let v = chars_of_str(input);
        let l = Lexer { input: v, pos: 0 };
        proof {
            assert(l.remaining() =~= input@);
        }
        l
    }

    /// Advances the cursor by one character, unless the input is exhausted.
    pub fn read_char(&mut self)
        requires
            old(self).wf(),
        ensures
            final(self).wf(),
            final(self).source() == old(self).source(),
            old(self).pos < old(self).source().len() ==> final(self).pos == old(self).pos + 1,
            old(self).pos >= old(self).source().len() ==> final(self).pos == old(self).pos,
    {
        if self.pos < self.input.len() {
            self.pos = self.pos + 1;
        }
    }

    /// The character one past the cursor, or NUL when none is there.
    fn peek_char(&self) -> (c: char)
        requires
            self.wf(),
        ensures
            self.pos + 1 < self.source().len() ==> c == self.source()[self.pos + 1],
            self.pos + 1 >= self.source().len() ==> c == '\0',
    {
        if self.pos < self.input.len() && self.pos + 1 < self.input.len() {
            self.input[self.pos + 1]
        } else {
            '\0'
        }
    }

    /// True exactly for the underscore character.
    fn is_underscore(c: char) -> (r: bool)
        ensures
            r == (c == '_'),
    {
        c == '_'
    }

    fn exec_is_ws(c: char) -> (r: bool)
        ensures
            r == is_ws(c),
    {
        c == ' ' || c == '\t' || c == '\r' || c == '\n'
    }

    fn exec_is_letter(c: char) -> (r: bool)
        ensures
            r == is_letter(c),
    {
        let u = c as u32;
        (97 <= u && u <= 122) || (65 <= u && u <= 90) || Self::is_underscore(c)
    }

    fn exec_is_digit(c: char) -> (r: bool)
        ensures
            r == is_digit(c),
    {
        let u = c as u32;
        48 <= u && u <= 57
    }

    /// Whether the cursor stands on a whitespace character.
    fn at_ws(&self) -> (r: bool)
        requires
            self.wf(),
        ensures
            r == (self.remaining().len() > 0 && is_ws(self.remaining()[0])),
    {
        if self.pos < self.input.len() {
            let c = self.input[self.pos];
            c == ' ' || c == '\t' || c == '\r' || c == '\n'
        } else {
            false
        }
    }

    /// Whether the cursor stands on a letter, digit or underscore.
    fn at_word_char(&self) -> (r: bool)
        requires
            self.wf(),
        ensures
            r == (self.remaining().len() > 0 && is_word_char(self.remaining()[0])),
    {
        if self.pos < self.input.len() {
            let c = self.input[self.pos];
            let u = c as u32;
            (97 <= u && u <= 122) || (65 <= u && u <= 90) || c == '_' || (48 <= u && u <= 57)
        } else {
            false
        }
    }

    /// Whether the cursor stands on a digit.
    fn at_digit(&self) -> (r: bool)
        requires
            self.wf(),
        ensures
            r == (self.remaining().len() > 0 && is_digit(self.remaining()[0])),
    {
        if self.pos < self.input.len() {
            let c = self.input[self.pos];
            let u = c as u32;
            48 <= u && u <= 57
        } else {
            false
        }
    }

    /// Whether the cursor stands on a character other than a closing quote.
    fn at_str_body_char(&self) -> (r: bool)
        requires
            self.wf(),
        ensures
            r == (self.remaining().len() > 0 && self.remaining()[0] != '"'),
    {
        self.pos < self.input.len() && self.input[self.pos] != '"'
    }

    /// Moves the cursor past any leading whitespace.
    fn skip_whitespace(&mut self)
        requires
            old(self).wf(),
        ensures
            final(self).wf(),
            final(self).source() == old(self).source(),
            final(self).pos == old(self).pos + skip_ws_count(old(self).remaining()),
            skip_ws_count(final(self).remaining()) == 0,
    {
        let ghost orig = self.remaining();
        let ghost start = self.pos;
        while self.at_ws()
            invariant
                self.wf(),
                self.input@ == old(self).input@,
                start <= self.pos,
                orig == self.input@.skip(start as int),
                skip_ws_count(orig) == (self.pos - start) + skip_ws_count(self.remaining()),
            decreases self.input@.len() - self.pos,
        {
            proof {
                assert(self.remaining()[0] == self.input@[self.pos as int]);
                assert(self.remaining().drop_first() =~= self.input@.skip(self.pos + 1));
            }
            self.pos = self.pos + 1;
        }
        proof {
            if self.pos < self.input@.len() {
                assert(self.remaining()[0] == self.input@[self.pos as int]);
                assert(!is_ws(self.remaining()[0]));
            } else {
                assert(self.remaining().len() == 0);
            }
        }
    }

    /// Reads an identifier or keyword: the maximal run of letters, digits and
    /// underscores at the cursor.
    fn read_word(&mut self) -> (w: String)
        requires
            old(self).wf(),
        ensures
            final(self).wf(),
            final(self).source() == old(self).source(),
            final(self).pos == old(self).pos + word_len(old(self).remaining()),
            w@ == old(self).remaining().take(word_len(old(self).remaining()) as int),
    {
        let ghost orig = self.remaining();
        let ghost start = self.pos;
        let mut chars: Vec<char> = Vec::new();
        while self.at_word_char()
            invariant
                self.wf(),
                self.input@ == old(self).input@,
                start <= self.pos,
                orig == self.input@.skip(start as int),
                word_len(orig) == (self.pos - start) + word_len(self.remaining()),
                chars@ =~= orig.take(self.pos - start),
            decreases self.input@.len() - self.pos,
        {
            proof {
                assert(self.remaining()[0] == self.input@[self.pos as int]);
                assert(self.remaining().drop_first() =~= self.input@.skip(self.pos + 1));
                assert(orig[self.pos - start] == self.input@[self.pos as int]);
            }
            chars.push(self.input[self.pos]);
            self.pos = self.pos + 1;
            proof {
                assert(chars@ =~= orig.take(self.pos - start));
            }
        }
        proof {
            if self.pos < self.input@.len() {
                assert(self.remaining()[0] == self.input@[self.pos as int]);
                assert(!is_word_char(self.remaining()[0]));
            } else {
                assert(self.remaining().len() == 0);
            }
            assert(word_len(self.remaining()) == 0);
        }
        string_from_chars(&chars)
    }

    /// Reads the maximal run of digits at the cursor.  The literal of an
    /// integer token is kept as text; the parser turns it into a number.
    fn read_number(&mut self) -> (w: String)
        requires
            old(self).wf(),
        ensures
            final(self).wf(),
            final(self).source() == old(self).source(),
            final(self).pos == old(self).pos + digits_len(old(self).remaining()),
            w@ == old(self).remaining().take(digits_len(old(self).remaining()) as int),
    {
        let ghost orig = self.remaining();
        let ghost start = self.pos;
        let mut chars: Vec<char> = Vec::new();
        while self.at_digit()
            invariant
                self.wf(),
                self.input@ == old(self).input@,
                start <= self.pos,
                orig == self.input@.skip(start as int),
                digits_len(orig) == (self.pos - start) + digits_len(self.remaining()),
                chars@ =~= orig.take(self.pos - start),
            decreases self.input@.len() - self.pos,
        {
            proof {
                assert(self.remaining()[0] == self.input@[self.pos as int]);
                assert(self.remaining().drop_first() =~= self.input@.skip(self.pos + 1));
                assert(orig[self.pos - start] == self.input@[self.pos as int]);
            }
            chars.push(self.input[self.pos]);
            self.pos = self.pos + 1;
            proof {
                assert(chars@ =~= orig.take(self.pos - start));
            }
        }
        proof {
            if self.pos < self.input@.len() {
                assert(self.remaining()[0] == self.input@[self.pos as int]);
                assert(!is_digit(self.remaining()[0]));
            } else {
                assert(self.remaining().len() == 0);
            }
            assert(digits_len(self.remaining()) == 0);
        }
        string_from_chars(&chars)
    }

    /// Reads the interior of a string literal, the cursor standing just past
    /// the opening quote; consumes the closing quote when there is one.
    fn read_string_body(&mut self) -> (w: String)
        requires
            old(self).wf(),
        ensures
            final(self).wf(),
            final(self).source() == old(self).source(),
            w@ == old(self).remaining().take(str_body_len(old(self).remaining()) as int),
            ({
                let n = str_body_len(old(self).remaining());
                if n < old(self).remaining().len() {
                    final(self).pos == old(self).pos + n + 1
                } else {
                    final(self).pos == old(self).pos + n
                }
            }),
    {
        let ghost orig = self.remaining();
        let ghost start = self.pos;
        let mut chars: Vec<char> = Vec::new();
        while self.at_str_body_char()
            invariant
                self.wf(),
                self.input@ == old(self).input@,
                start <= self.pos,
                orig == self.input@.skip(start as int),
                str_body_len(orig) == (self.pos - start) + str_body_len(self.remaining()),
                chars@ =~= orig.take(self.pos - start),
            decreases self.input@.len() - self.pos,
        {
            proof {
                assert(self.remaining()[0] == self.input@[self.pos as int]);
                assert(self.remaining().drop_first() =~= self.input@.skip(self.pos + 1));
                assert(orig[self.pos - start] == self.input@[self.pos as int]);
            }
            chars.push(self.input[self.pos]);
            self.pos = self.pos + 1;
            proof {
                assert(chars@ =~= orig.take(self.pos - start));
            }
        }
        proof {
            if self.pos < self.input@.len() {
                assert(self.remaining()[0] == self.input@[self.pos as int]);
            } else {
                assert(self.remaining().len() == 0);
            }
            assert(str_body_len(self.remaining()) == 0);
            assert(str_body_len(orig) == self.pos - start);
        }
        if self.pos < self.input.len() {
            // Consume the closing quote.
            self.pos = self.pos + 1;
        }
        string_from_chars(&chars)
    }

    /// Classifies a word against the keyword table; anything that is not a
    /// keyword is an identifier.
    fn lookup_ident(word: &String) -> (t: TokenType)
        ensures
            t == lookup_keyword(word@),
    {
        if str_eq(word, "let") {
            TokenType::Let
        } else if str_eq(word, "fun") {
            TokenType::Function
        } else if str_eq(word, "def") {
            TokenType::Def
        } else if str_eq(word, "if") {
            TokenType::If
        } else if str_eq(word, "else") {
            TokenType::Else
        } else if str_eq(word, "return") {
            TokenType::Return
        } else if str_eq(word, "true") {
            TokenType::True
        } else if str_eq(word, "false") {
            TokenType::False
        } else if str_eq(word, "null") {
            TokenType::Null
        } else if str_eq(word, "rec") {
            TokenType::Rec
        } else {
            TokenType::Ident
        }
    }

    /// Skips leading whitespace and emits exactly one token, leaving the
    /// cursor just past it.  Never fails: unknown characters surface as
    /// `Illegal` tokens and the end of the input as `Eof`.
    pub fn next_token(&mut self) -> (t: Token)
        requires
            old(self).wf(),
        ensures
            final(self).wf(),
            final(self).source() == old(self).source(),
            ({
                let r = next_token_spec(old(self).remaining());
                t@ == r.token && final(self).pos == old(self).pos + r.used
            }),
    {
        self.skip_whitespace();
        let ghost rem = self.remaining();
        proof {
            lemma_skip_ws_count_le(old(self).remaining());
            assert(rem =~= old(self).remaining().skip(
                skip_ws_count(old(self).remaining()) as int,
            ));
        }
        if self.pos == self.input.len() {
            proof {
                reveal_strlit("");
                assert(""@ =~= Seq::<char>::empty());
            }
            return Token::new(TokenType::Eof, "");
        }
        let c = self.input[self.pos];
        proof {
            assert(rem[0] == c);
        }
        if c == '=' {
            if self.peek_char() == '=' {
                self.pos = self.pos + 2;
                proof {
                    reveal_strlit("==");
                    assert("=="@ =~= seq!['=', '=']);
                }
                Token::new(TokenType::Eq, "==")
            } else {
                self.pos = self.pos + 1;
                proof {
                    reveal_strlit("=");
                    assert("="@ =~= seq!['=']);
                }
                Token::new(TokenType::Assign, "=")
            }
        } else if c == '!' {
            if self.peek_char() == '=' {
                self.pos = self.pos + 2;
                proof {
                    reveal_strlit("!=");
                    assert("!="@ =~= seq!['!', '=']);
                }
                Token::new(TokenType::NotEq, "!=")
            } else {
                self.pos = self.pos + 1;
                proof {
                    reveal_strlit("!");
                    assert("!"@ =~= seq!['!']);
                }
                Token::new(TokenType::Bang, "!")
            }
        } else if c == '<' {
            if self.peek_char() == '=' {
                self.pos = self.pos + 2;
                proof {
                    reveal_strlit("<=");
                    assert("<="@ =~= seq!['<', '=']);
                }
                Token::new(TokenType::LessEq, "<=")
            } else {
                self.pos = self.pos + 1;
                proof {
                    reveal_strlit("<");
                    assert("<"@ =~= seq!['<']);
                }
                Token::new(TokenType::LArrow, "<")
            }
        } else if c == '>' {
            if self.peek_char() == '=' {
                self.pos = self.pos + 2;
                proof {
                    reveal_strlit(">=");
                    assert(">="@ =~= seq!['>', '=']);
                }
                Token::new(TokenType::GreaterEq, ">=")
            } else {
                self.pos = self.pos + 1;
                proof {
                    reveal_strlit(">");
                    assert(">"@ =~= seq!['>']);
                }
                Token::new(TokenType::RArrow, ">")
            }
        } else if c == '+' {
            self.pos = self.pos + 1;
            proof {
                reveal_strlit("+");
                assert("+"@ =~= seq!['+']);
            }
            Token::new(TokenType::Plus, "+")
        } else if c == '-' {
            self.pos = self.pos + 1;
            proof {
                reveal_strlit("-");
                assert("-"@ =~= seq!['-']);
            }
            Token::new(TokenType::Minus, "-")
        } else if c == '*' {
            self.pos = self.pos + 1;
            proof {
                reveal_strlit("*");
                assert("*"@ =~= seq!['*']);
            }
            Token::new(TokenType::Star, "*")
        } else if c == '/' {
            self.pos = self.pos + 1;
            proof {
                reveal_strlit("/");
                assert("/"@ =~= seq!['/']);
            }
            Token::new(TokenType::Slash, "/")
        } else if c == '(' {
            self.pos = self.pos + 1;
            proof {
                reveal_strlit("(");
                assert("("@ =~= seq!['(']);
            }
            Token::new(TokenType::LParen, "(")
        } else if c == ')' {
            self.pos = self.pos + 1;
            proof {
                reveal_strlit(")");
                assert(")"@ =~= seq![')']);
            }
            Token::new(TokenType::RParen, ")")
        } else if c == '{' {
            self.pos = self.pos + 1;
            proof {
                reveal_strlit("{");
                assert("{"@ =~= seq!['{']);
            }
            Token::new(TokenType::LBrace, "{")
        } else if c == '}' {
            self.pos = self.pos + 1;
            proof {
                reveal_strlit("}");
                assert("}"@ =~= seq!['}']);
            }
            Token::new(TokenType::RBrace, "}")
        } else if c == '[' {
            self.pos = self.pos + 1;
            proof {
                reveal_strlit("[");
                assert("["@ =~= seq!['[']);
            }
            Token::new(TokenType::LSquare, "[")
        } else if c == ']' {
            self.pos = self.pos + 1;
            proof {
                reveal_strlit("]");
                assert("]"@ =~= seq![']']);
            }
            Token::new(TokenType::RSquare, "]")
        } else if c == ',' {
            self.pos = self.pos + 1;
            proof {
                reveal_strlit(",");
                assert(","@ =~= seq![',']);
            }
            Token::new(TokenType::Comma, ",")
        } else if c == ';' {
            self.pos = self.pos + 1;
            proof {
                reveal_strlit(";");
                assert(";"@ =~= seq![';']);
            }
            Token::new(TokenType::Semicolon, ";")
        } else if c == '"' {
            self.pos = self.pos + 1;
            proof {
                assert(self.remaining() =~= rem.drop_first());
            }
            let body = self.read_string_body();
            proof {
                assert(rem.drop_first().take(str_body_len(rem.drop_first()) as int) =~= rem.subrange(
                    1,
                    1 + str_body_len(rem.drop_first()) as int,
                ));
            }
            Token { token_type: TokenType::Str, literal: body }
        } else {
            let u = c as u32;
            let letter: bool = (97 <= u && u <= 122) || (65 <= u && u <= 90) || c == '_';
            let digit: bool = 48 <= u && u <= 57;
            if letter {
                let word = self.read_word();
                let token_type = Self::lookup_ident(&word);
                Token { token_type, literal: word }
            } else if digit {
                let number = self.read_number();
                Token { token_type: TokenType::Int, literal: number }
            } else {
                self.pos = self.pos + 1;
                let mut one: Vec<char> = Vec::new();
                one.push(c);
                let lit = string_from_chars(&one);
                proof {
                    assert(one@ =~= seq![c]);
                }
                Token { token_type: TokenType::Illegal, literal: lit }
            }
        }
    }

    /// Runs the lexer to the end of the input and returns every token, the
    /// final `Eof` included.  The loop provably terminates for every input:
    /// each token before `Eof` consumes at least one character.
    pub fn tokenize(&mut self) -> (out: Vec<Token>)
        requires
            old(self).wf(),
        ensures
            final(self).wf(),
            token_views(out@) == spec_tokens(old(self).remaining()),
            out@.len() >= 1,
            out@[out@.len() - 1]@.token_type is Eof,
    {
        let ghost orig = self.remaining();
        let mut out: Vec<Token> = Vec::new();
        loop
            invariant_except_break
                self.wf(),
                spec_tokens(orig) == token_views(out@).add(spec_tokens(self.remaining())),
            invariant
                self.wf(),
            ensures
                token_views(out@) == spec_tokens(orig),
                out@.len() >= 1,
                out@[out@.len() - 1]@.token_type is Eof,
            decreases self.remaining().len(),
        {
            let ghost rem = self.remaining();
            proof {
                lemma_next_token_progress(rem);
            }
            let t = self.next_token();
            let is_eof = match t.token_type {
                TokenType::Eof => true,
                _ => false,
            };
            let ghost prev = out@;
            out.push(t);
            proof {
                assert(token_views(out@) =~= token_views(prev).push(t@));
                let r = next_token_spec(rem);
                if r.token.token_type is Eof {
                    assert(spec_tokens(rem) =~= seq![r.token]);
                    assert(token_views(out@) =~= token_views(prev).add(spec_tokens(rem)));
                    assert(token_views(out@) =~= spec_tokens(orig));
                } else {
                    assert(self.remaining() =~= rem.skip(r.used as int));
                    assert(spec_tokens(rem) =~= seq![r.token].add(spec_tokens(self.remaining())));
                    assert(token_views(prev).push(t@).add(spec_tokens(self.remaining()))
                        =~= token_views(prev).add(spec_tokens(rem)));
                }
            }
            if is_eof {
                break;
            }
        }
        out
    }
}

} // verus!
