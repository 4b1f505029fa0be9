//! Recursive-descent parser from stylesheet text to a [`StyleSheet`].
//!
//! Comments are replaced by one space first. Whether two tokens touch
//! (no whitespace between them) decides between a compound selector and a
//! descendant combinator.
use vstd::prelude::*;
use crate::model::{
    Combinator, CompoundSelector, Declaration, DeclarationValue, RuleSet, Selector,
    SelectorComponent, SelectorPart, StyleSheet,
};
use crate::text::{chars_of, digit, is_ascii_digit, string_from_chars, substring};
use crate::tokenizer::{char_at, lex, lex_chars, number_len, run_len, CharClass, Lexeme, Token};

verus! {

/// Why a stylesheet failed to parse.
#[derive(Clone, Debug, PartialEq)]
pub enum ParseError {
    /// A token that the grammar does not allow here, with its index in the
    /// token stream.
    UnexpectedToken { position: usize, message: String },
    /// The input ended where a token was required.
    UnexpectedEof(String),
}

/// A token with its text, its index in the stream, and the span of
/// character positions it covers in the comment-free text.
#[derive(Clone, Debug)]
pub struct PToken {
    pub token: Token,
    pub text: String,
    pub pos: usize,
    pub byte_start: usize,
    pub byte_end: usize,
}

impl PToken {
    /// A field-by-field copy.
    pub fn dup(&self) -> (r: PToken)
        ensures
            r == *self,
    {
        PToken {
            token: self.token,
            text: self.text.clone(),
            pos: self.pos,
            byte_start: self.byte_start,
            byte_end: self.byte_end,
        }
    }
}

/// The text with each comment replaced by one space; `in_comment` says
/// whether position `i` lies inside a comment. An unterminated comment runs
/// to the end.
pub open spec fn strip_from(s: Seq<char>, i: int, in_comment: bool) -> Seq<char>
    decreases s.len() - i,
{
    if i < 0 || i >= s.len() {
        Seq::empty()
    } else if in_comment {
        if i + 1 >= s.len() {
            Seq::empty()
        } else if s[i] == '*' && s[i + 1] == '/' {
            strip_from(s, i + 2, false)
        } else {
            strip_from(s, i + 1, true)
        }
    } else if i + 1 < s.len() && s[i] == '/' && s[i + 1] == '*' {
        seq![' '] + strip_from(s, i + 2, true)
    } else {
        seq![s[i]] + strip_from(s, i + 1, false)
    }
}

pub open spec fn stripped(s: Seq<char>) -> Seq<char> {
    strip_from(s, 0, false)
}

/// The characters of `input` with every `/* ... */` comment replaced by a
/// single space.
pub fn strip_comments(input: &str) -> (r: Vec<char>)
    ensures
        r@ == stripped(input@),
{
    let s = chars_of(input);
    let len = s.len();
    let mut out: Vec<char> = Vec::new();
    let mut i: usize = 0;
    let mut in_comment = false;
    while i < len
        invariant
            len == s@.len(),
            s@ == input@,
            i <= len + 1,
            out@ + strip_from(s@, i as int, in_comment) == stripped(s@),
        decreases len + 1 - i,
    {
        let ghost before = strip_from(s@, i as int, in_comment);
        if in_comment {
            if i + 1 >= len {
                i = len;
            } else if s[i] == '*' && s[i + 1] == '/' {
                i = i + 2;
                in_comment = false;
            } else {
                i = i + 1;
            }
        } else if i + 1 < len && s[i] == '/' && s[i + 1] == '*' {
            proof {
                assert(out@.push(' ') + strip_from(s@, i + 2, true) =~= out@ + before);
            }
            out.push(' ');
            i = i + 2;
            in_comment = true;
        } else {
            proof {
                assert(out@.push(s@[i as int]) + strip_from(s@, i + 1, false) =~= out@ + before);
            }
            out.push(s[i]);
            i = i + 1;
        }
    }
    proof {
        assert(out@ + strip_from(s@, i as int, in_comment) =~= out@);
    }
    out
}

/// Spans of the tokens of `s`, with the text and the stream index of each.
pub open spec fn ptoken_matches(t: PToken, s: Seq<char>, x: Lexeme, j: int) -> bool {
    &&& t.token == x.token
    &&& t.pos == j
    &&& t.byte_start == x.start
    &&& t.byte_end == x.end
    &&& x.start <= x.end <= s.len()
    &&& t.text@ == s.subrange(x.start as int, x.end as int)
}

/// Tokenize `s`, keeping for each token its span for adjacency checks.
pub fn tokenize_with_spans(s: &Vec<char>) -> (r: Vec<PToken>)
    ensures
        r@.len() == lex(s@).len(),
        forall|j: int| 0 <= j < r@.len() ==> ptoken_matches(#[trigger] r@[j], s@, lex(s@)[j], j),
{
    let lexemes = lex_chars(s);
    let _len = s.len();
    proof {
        crate::tokenizer::lemma_lex_bounds(s@, 0);
    }
    let mut out: Vec<PToken> = Vec::new();
    let mut j: usize = 0;
    while j < lexemes.len()
        invariant
            lexemes@ == lex(s@),
            j <= lexemes@.len(),
            out@.len() == j,
            forall|t: int|
                0 <= t < lexemes@.len() ==> crate::tokenizer::lexeme_in_bounds(
                    #[trigger] lexemes@[t],
                    s@.len(),
                ),
            forall|t: int| 0 <= t < j ==> ptoken_matches(#[trigger] out@[t], s@, lexemes@[t], t),
        decreases lexemes@.len() - j,
    {
        let x = lexemes[j];
        let text = substring(s, x.start, x.end);
        out.push(PToken { token: x.token, text, pos: j, byte_start: x.start, byte_end: x.end });
        j = j + 1;
    }
    out
}

/// Parse stylesheet text. Any grammar violation fails the whole sheet.
pub fn parse_css(input: &str) -> (r: Result<StyleSheet, ParseError>)
    ensures
        r is Ok ==> forall|i: int|
            0 <= i < r->Ok_0.rules@.len() ==> rule_well_formed(#[trigger] r->Ok_0.rules@[i]),
        lex(stripped(input@)).len() == 0 ==> r is Ok && r->Ok_0.rules@.len() == 0,
        exists|t: Seq<PToken>|
            tokens_of(t, stripped(input@)) && (r is Ok <==> rules_from(t, 0)) && (r is Ok
                ==> rules_view(r->Ok_0.rules@) == rule_list(t, 0)) && (r is Err ==> error_at(
                r->Err_0,
                rules_fail(t, 0),
                t.len() as int,
            )),
{
    let cleaned = strip_comments(input);
    let tokens = tokenize_with_spans(&cleaned);
    let mut parser = Parser { tokens, cursor: 0 };
    let mut rules: Vec<RuleSet> = Vec::new();
    proof {
        assert(rules_view(rules@) =~= Seq::<RuleView>::empty());
    }
    while !parser.is_eof()
        invariant
            parser.cursor <= parser.tokens@.len(),
            parser.tokens@.len() == lex(stripped(input@)).len(),
            tokens_of(parser.tokens@, stripped(input@)),
            rules_from(parser.tokens@, 0) == rules_from(parser.tokens@, parser.cursor as int),
            rules_fail(parser.tokens@, 0) == rules_fail(parser.tokens@, parser.cursor as int),
            lex(stripped(input@)).len() == 0 ==> rules@.len() == 0,
            forall|i: int| 0 <= i < rules@.len() ==> rule_well_formed(#[trigger] rules@[i]),
            rules_view(rules@) + rule_list(parser.tokens@, parser.cursor as int) == rule_list(
                parser.tokens@,
                0,
            ),
        decreases parser.tokens@.len() - parser.cursor,
    {
        let ghost c = parser.cursor as int;
        let ghost before = rules_view(rules@);
        let rule = match parser.parse_rule() {
            Ok(r) => r,
            Err(e) => {
                proof {
                    assert(!rules_from(parser.tokens@, c));
                }
                return Err(e);
            },
        };
        let ghost rv = ruleset_view(rule);
        rules.push(rule);
        proof {
            let t = parser.tokens@;
            assert(rules_view(rules@) =~= before.push(rv));
            assert(rule_list(t, c) == seq![rv] + rule_list(t, parser.cursor as int));
            assert(before + rule_list(t, c) =~= rules_view(rules@) + rule_list(t, parser.cursor as int));
        }
    }
    proof {
        assert(rules_view(rules@) + rule_list(parser.tokens@, parser.cursor as int) =~= rules_view(rules@));
    }
    Ok(StyleSheet { rules })
}

/// A rule has at least one selector, and each is well formed.
pub open spec fn rule_well_formed(r: RuleSet) -> bool {
    &&& r.selectors@.len() > 0
    &&& forall|i: int| 0 <= i < r.selectors@.len() ==> (#[trigger] r.selectors@[i]).well_formed()
}

/// The name of a token kind, for error messages.
pub(crate) fn token_name(t: Token) -> (r: &'static str) {
    match t {
        Token::Important => "Important",
        Token::HexColor => "HexColor",
        Token::Dimension => "Dimension",
        Token::PseudoClass => "PseudoClass",
        Token::StringLiteral => "StringLiteral",
        Token::StringLiteralSingle => "StringLiteralSingle",
        Token::Variable => "Variable",
        Token::Number => "Number",
        Token::Ident => "Ident",
        Token::BraceOpen => "BraceOpen",
        Token::BraceClose => "BraceClose",
        Token::Colon => "Colon",
        Token::Semicolon => "Semicolon",
        Token::Comma => "Comma",
        Token::Dot => "Dot",
        Token::Hash => "Hash",
        Token::Star => "Star",
        Token::GreaterThan => "GreaterThan",
    }
}

/// The concatenation of two texts.
pub fn join(a: &str, b: &str) -> (r: String)
    ensures
        r@ == a@ + b@,
{
    let mut x = chars_of(a);
    let mut y = chars_of(b);
    x.append(&mut y);
    string_from_chars(x)
}

/// `s` without its first `front` and last `back` characters, or the empty
/// string when it is shorter than that.
pub fn trim_ends(s: &String, front: usize, back: usize) -> (r: String)
    ensures
        r@ == trimmed(s@, front as int, back as int),
{
    let c = chars_of(s.as_str());
    let n = c.len();
    if n < front || n - front < back {
        let e = string_from_chars(Vec::new());
        assert(e@ =~= trimmed(s@, front as int, back as int));
        return e;
    }
    substring(&c, front, n - back)
}

/// The numeric value of a digit character.
pub open spec fn digit_value(c: char) -> int {
    (c as int) - ('0' as int)
}

/// The value of a string of decimal digits.
pub open spec fn digits_value(s: Seq<char>) -> int
    decreases s.len(),
{
    if s.len() == 0 {
        0
    } else {
        digits_value(s.drop_last()) * 10 + digit_value(s.last())
    }
}

/// Whether `t` is exactly `-?[0-9]+(\.[0-9]+)?`.
pub open spec fn number_shape(t: Seq<char>) -> bool {
    t.len() > 0 && number_len(t, 0) == t.len()
}

pub open spec fn int_start(t: Seq<char>) -> int {
    if char_at(t, 0, '-') { 1 } else { 0 }
}

pub open spec fn int_digits(t: Seq<char>) -> nat {
    run_len(t, int_start(t), CharClass::Digit)
}

/// The `p`-th fraction digit (0 past the digits).
pub open spec fn frac_digit(t: Seq<char>, k: int, p: int) -> int {
    if 0 <= p < run_len(t, k, CharClass::Digit) {
        digit_value(t[k + p])
    } else {
        0
    }
}

/// The value of number text in thousandths, fraction digits past the third
/// dropped.
pub open spec fn milli_value(t: Seq<char>) -> int {
    let j = int_start(t);
    let d = int_digits(t);
    let ip = digits_value(t.subrange(j, j + d));
    let k = j + d + 1;
    let mag = ip * 1000 + 100 * frac_digit(t, k, 0) + 10 * frac_digit(t, k, 1) + frac_digit(
        t,
        k,
        2,
    );
    if char_at(t, 0, '-') {
        -mag
    } else {
        mag
    }
}

/// The most integer digits a number may have.
pub const MAX_INT_DIGITS: usize = 15;

proof fn lemma_digits_value_bound(s: Seq<char>)
    requires
        forall|i: int| 0 <= i < s.len() ==> is_ascii_digit(#[trigger] s[i]),
    ensures
        0 <= digits_value(s) < pow10(s.len()),
    decreases s.len(),
{
    if s.len() > 0 {
        lemma_digits_value_bound(s.drop_last());
    }
}

pub open spec fn pow10(n: nat) -> int
    decreases n,
{
    if n == 0 {
        1
    } else {
        10 * pow10((n - 1) as nat)
    }
}

proof fn lemma_pow10_pos(n: nat)
    ensures
        pow10(n) >= 1,
    decreases n,
{
    if n > 0 {
        lemma_pow10_pos((n - 1) as nat);
    }
}

proof fn lemma_pow10_15()
    ensures
        pow10(15) == 1_000_000_000_000_000,
{
    reveal_with_fuel(pow10, 16);
}

proof fn lemma_pow10_mono(a: nat, b: nat)
    requires
        a <= b,
    ensures
        pow10(a) <= pow10(b),
    decreases b,
{
    if a < b {
        lemma_pow10_mono(a, (b - 1) as nat);
        lemma_pow10_pos((b - 1) as nat);
    }
}

proof fn lemma_run_digits(t: Seq<char>, j: int)
    requires
        0 <= j,
    ensures
        forall|p: int| j <= p < j + run_len(t, j, CharClass::Digit) ==> is_ascii_digit(#[trigger] t[p]),
        j + run_len(t, j, CharClass::Digit) <= if j <= t.len() { t.len() as int } else { j },
    decreases t.len() - j,
{
    if 0 <= j < t.len() && is_ascii_digit(t[j]) {
        lemma_run_digits(t, j + 1);
    }
}

/// The run of digits of `t` from `j`, with its value; `None` when it is
/// longer than `limit` digits.
fn digit_run(t: &Vec<char>, j: usize, limit: usize) -> (r: (usize, Option<u64>))
    requires
        j <= t@.len(),
        limit <= MAX_INT_DIGITS,
    ensures
        r.0 == j + run_len(t@, j as int, CharClass::Digit),
        r.0 - j <= limit ==> r.1 == Some(digits_value(t@.subrange(j as int, r.0 as int)) as u64),
        r.0 - j > limit ==> r.1 is None,
{
    let e = run_end_digits(t, j);
    if e - j > limit {
        return (e, None);
    }
    let mut acc: u64 = 0;
    let mut p = j;
    proof {
        lemma_run_digits(t@, j as int);
        lemma_pow10_mono((e - j) as nat, 15);
    }
    while p < e
        invariant
            j <= p <= e <= t@.len(),
            e - j <= 15,
            forall|q: int| j <= q < e ==> is_ascii_digit(#[trigger] t@[q]),
            acc == digits_value(t@.subrange(j as int, p as int)),
            pow10((e - j) as nat) <= pow10(15),
        decreases e - p,
    {
        proof {
            let sub = t@.subrange(j as int, p + 1);
            assert(sub.drop_last() =~= t@.subrange(j as int, p as int));
            lemma_digits_value_bound(sub);
            lemma_pow10_mono(sub.len(), 15);
            lemma_pow10_15();
        }
        let dv = (t[p] as u32) - ('0' as u32);
        acc = acc * 10 + dv as u64;
        p = p + 1;
    }
    (e, Some(acc))
}

fn run_end_digits(t: &Vec<char>, j: usize) -> (r: usize)
    requires
        j <= t@.len(),
    ensures
        r == j + run_len(t@, j as int, CharClass::Digit),
        r <= t@.len(),
{
    let mut p = j;
    while p < t.len() && digit(t[p])
        invariant
            j <= p <= t@.len(),
            run_len(t@, j as int, CharClass::Digit) == (p - j) + run_len(
                t@,
                p as int,
                CharClass::Digit,
            ),
        decreases t@.len() - p,
    {
        p = p + 1;
    }
    p
}

/// The value of number text in thousandths.
///
/// `Some` exactly when the text is `-?[0-9]+(\.[0-9]+)?` with at most
/// fifteen integer digits.
pub fn parse_milli(t: &Vec<char>) -> (r: Option<i64>)
    ensures
        r is Some <==> number_shape(t@) && int_digits(t@) <= MAX_INT_DIGITS,
        r is Some ==> r->Some_0 == milli_value(t@),
{
    let n = t.len();
    if n == 0 {
        return None;
    }
    let neg = t[0] == '-';
    let j: usize = if neg { 1 } else { 0 };
    let (e, ip) = digit_run(t, j, MAX_INT_DIGITS);
    if e == j {
        return None;
    }
    let ipv = match ip {
        Some(v) => v,
        None => {
            proof {
                assert(int_digits(t@) > MAX_INT_DIGITS);
            }
            return None;
        },
    };
    proof {
        lemma_run_digits(t@, j as int);
        lemma_digits_value_bound(t@.subrange(j as int, e as int));
        lemma_pow10_mono((e - j) as nat, 15);
        lemma_pow10_15();
    }
    let mut frac: u64 = 0;
    if e < n {
        if t[e] != '.' || e + 1 >= n {
            return None;
        }
        let f = run_end_digits(t, e + 1);
        if f == e + 1 || f != n {
            return None;
        }
        proof {
            lemma_run_digits(t@, e + 1);
        }
        let d0 = (t[e + 1] as u32 - '0' as u32) as u64;
        let d1 = if e + 2 < f { (t[e + 2] as u32 - '0' as u32) as u64 } else { 0 };
        let d2 = if e + 3 < f { (t[e + 3] as u32 - '0' as u32) as u64 } else { 0 };
        frac = 100 * d0 + 10 * d1 + d2;
    }
    let mag: u64 = ipv * 1000 + frac;
    let v: i64 = if neg { -(mag as i64) } else { mag as i64 };
    Some(v)
}

/// Where a dimension's unit starts: the first character that is not a digit,
/// not `.`, and not a leading `-`.
pub open spec fn unit_start(t: Seq<char>, i: int) -> int
    decreases t.len() - i,
{
    if i < 0 || i >= t.len() {
        t.len() as int
    } else if is_ascii_digit(t[i]) || t[i] == '.' || (t[i] == '-' && i == 0) {
        unit_start(t, i + 1)
    } else {
        i
    }
}

/// Split dimension text into its number and its unit; `None` when either
/// part would be empty.
pub fn split_dimension(t: &Vec<char>) -> (r: Option<(Vec<char>, String)>)
    ensures
        ({
            let u = unit_start(t@, 0);
            &&& r is Some <==> (0 < u < t@.len())
            &&& r is Some ==> r->Some_0.0@ == t@.subrange(0, u) && r->Some_0.1@ == t@.subrange(
                u,
                t@.len() as int,
            )
        }),
{
    let n = t.len();
    let mut i: usize = 0;
    while i < n && (digit(t[i]) || t[i] == '.' || (t[i] == '-' && i == 0))
        invariant
            n == t@.len(),
            i <= n,
            unit_start(t@, 0) == unit_start(t@, i as int),
        decreases n - i,
    {
        i = i + 1;
    }
    if i == 0 || i >= n {
        return None;
    }
    let mut num: Vec<char> = Vec::new();
    let mut p: usize = 0;
    while p < i
        invariant
            i < n == t@.len(),
            p <= i,
            num@ == t@.subrange(0, p as int),
        decreases i - p,
    {
        num.push(t[p]);
        p = p + 1;
    }
    Some((num, substring(t, i, n)))
}

/// Parser state: the token stream and the index of the next token.
pub struct Parser {
    pub tokens: Vec<PToken>,
    pub cursor: usize,
}

impl Parser {
    pub fn is_eof(&self) -> (r: bool)
        ensures
            r == (self.cursor >= self.tokens@.len()),
    {
        self.cursor >= self.tokens.len()
    }

    /// The next token, if any.
    pub fn peek(&self) -> (r: Option<&PToken>)
        ensures
            self.cursor < self.tokens@.len() ==> r == Some(&self.tokens@[self.cursor as int]),
            self.cursor >= self.tokens@.len() ==> r is None,
    {
        if self.cursor < self.tokens.len() {
            Some(&self.tokens[self.cursor])
        } else {
            None
        }
    }

    /// Consume the next token, if any, and return it.
    pub fn advance(&mut self) -> (r: Option<PToken>)
        ensures
            final(self).tokens == old(self).tokens,
            old(self).cursor < old(self).tokens@.len() ==> r == Some(
                old(self).tokens@[old(self).cursor as int],
            ) && final(self).cursor == old(self).cursor + 1,
            old(self).cursor >= old(self).tokens@.len() ==> r is None && final(self).cursor == old(
                self,
            ).cursor,
    {
        if self.cursor < self.tokens.len() {
            let tok = self.tokens[self.cursor].dup();
            self.cursor = self.cursor + 1;
            Some(tok)
        } else {
            None
        }
    }

    pub open spec fn inv(&self) -> bool {
        &&& self.cursor <= self.tokens@.len()
        &&& forall|j: int| 0 <= j < self.tokens@.len() ==> (#[trigger] self.tokens@[j]).pos == j
    }

    pub open spec fn next_is(&self, k: Token) -> bool {
        self.cursor < self.tokens@.len() && self.tokens@[self.cursor as int].token == k
    }

    /// Consume the next token when it has kind `expected`; otherwise fail.
    pub fn expect(&mut self, expected: Token) -> (r: Result<PToken, ParseError>)
        requires
            old(self).inv(),
        ensures
            final(self).inv(),
            final(self).tokens == old(self).tokens,
            final(self).cursor >= old(self).cursor,
            old(self).cursor < old(self).tokens@.len() ==> final(self).cursor == old(self).cursor
                + 1,
            r is Ok <==> old(self).next_is(expected),
            r is Ok ==> r->Ok_0 == old(self).tokens@[old(self).cursor as int],
            old(self).cursor >= old(self).tokens@.len() ==> r matches Err(
                ParseError::UnexpectedEof(_),
            ),
            old(self).cursor < old(self).tokens@.len() && !old(self).next_is(expected) ==> (r
                matches Err(ParseError::UnexpectedToken { position, .. }) && position == old(
                self,
            ).tokens@[old(self).cursor as int].pos),
            r is Err ==> error_at(r->Err_0, old(self).cursor as int, old(self).tokens@.len() as int),
    {
        match self.advance() {
            Some(tok) => {
                if tok.token == expected {
                    Ok(tok)
                } else {
                    Err(
                        ParseError::UnexpectedToken {
                            position: tok.pos,
                            message: join("expected ", token_name(expected)),
                        },
                    )
                }
            },
            None => Err(ParseError::UnexpectedEof(join("expected ", token_name(expected)))),
        }
    }

    /// The stream index of the next token, or the stream length at the end.
    pub fn current_pos(&self) -> (r: usize)
        ensures
            self.cursor < self.tokens@.len() ==> r == self.tokens@[self.cursor as int].pos,
            self.cursor >= self.tokens@.len() ==> r == self.tokens@.len(),
    {
        match self.peek() {
            Some(t) => t.pos,
            None => self.tokens.len(),
        }
    }

    pub open spec fn spec_is_adjacent(&self) -> bool {
        0 < self.cursor < self.tokens@.len() && self.tokens@[self.cursor as int].byte_start
            == self.tokens@[self.cursor - 1].byte_end
    }

    /// Whether the next token starts exactly where the previous one ended.
    pub fn is_adjacent(&self) -> (r: bool)
        ensures
            r == self.spec_is_adjacent(),
    {
        if self.cursor == 0 || self.cursor >= self.tokens.len() {
            return false;
        }
        self.tokens[self.cursor].byte_start == self.tokens[self.cursor - 1].byte_end
    }

    /// Parse one rule: selectors, `{`, declarations, `}`.
    pub fn parse_rule(&mut self) -> (r: Result<RuleSet, ParseError>)
        requires
            old(self).inv(),
        ensures
            final(self).inv(),
            final(self).tokens == old(self).tokens,
            r is Ok ==> rule_well_formed(r->Ok_0) && final(self).cursor > old(self).cursor,
            r is Ok <==> rule_end(old(self).tokens@, old(self).cursor as int) is Some,
            r is Ok ==> final(self).cursor == rule_end(old(self).tokens@, old(self).cursor as int)->Some_0,
            r is Ok ==> ruleset_view(r->Ok_0) == rule_at(old(self).tokens@, old(self).cursor as int),
            r is Err ==> error_at(r->Err_0, rule_fail(old(self).tokens@, old(self).cursor as int), old(self).tokens@.len() as int),
    {
        let selectors = self.parse_selector_list()?;
        self.expect(Token::BraceOpen)?;
        let declarations = self.parse_declarations()?;
        self.expect(Token::BraceClose)?;
        Ok(RuleSet { selectors, declarations })
    }

    /// Parse comma-separated selectors.
    pub fn parse_selector_list(&mut self) -> (r: Result<Vec<Selector>, ParseError>)
        requires
            old(self).inv(),
        ensures
            final(self).inv(),
            final(self).tokens == old(self).tokens,
            r is Ok ==> r->Ok_0@.len() > 0 && final(self).cursor > old(self).cursor && forall|i: int|
                0 <= i < r->Ok_0@.len() ==> (#[trigger] r->Ok_0@[i]).well_formed(),
            r is Ok <==> selector_list_end(old(self).tokens@, old(self).cursor as int) is Some,
            r is Ok ==> final(self).cursor == selector_list_end(
                old(self).tokens@,
                old(self).cursor as int,
            )->Some_0,
            r is Ok ==> selectors_view(r->Ok_0@) == selector_list(
                old(self).tokens@,
                old(self).cursor as int,
            ),
            r is Err ==> error_at(r->Err_0, list_fail(old(self).tokens@, old(self).cursor as int), old(self).tokens@.len() as int),
    {
        let ghost t = old(self).tokens@;
        let mut selectors: Vec<Selector> = Vec::new();
        let first = self.parse_selector()?;
        let ghost fv = parts_view(first.parts@);
        selectors.push(first);
        proof {
            assert(selectors_view(selectors@) =~= seq![fv]);
        }
        while self.cursor < self.tokens.len() && self.tokens[self.cursor].token == Token::Comma
            invariant
                self.inv(),
                self.tokens == old(self).tokens,
                t == self.tokens@,
                self.cursor > old(self).cursor,
                selectors_view(selectors@) + rest_selectors(t, self.cursor as int) == selector_list(
                    t,
                    old(self).cursor as int,
                ),
                list_fail(t, old(self).cursor as int) == list_rest_fail(t, self.cursor as int),
                selector_list_end(old(self).tokens@, old(self).cursor as int) == selector_list_rest(
                    self.tokens@,
                    self.cursor as int,
                ),
                selectors@.len() > 0,
                forall|i: int| 0 <= i < selectors@.len() ==> (#[trigger] selectors@[i]).well_formed(),
            decreases self.tokens@.len() - self.cursor,
        {
            let ghost at = self.cursor as int;
            let ghost before = selectors_view(selectors@);
            self.advance();
            let sel = self.parse_selector()?;
            let ghost sv = parts_view(sel.parts@);
            selectors.push(sel);
            proof {
                assert(selectors_view(selectors@) =~= before.push(sv));
                assert(rest_selectors(t, at) == seq![sv] + rest_selectors(t, self.cursor as int));
                assert(before + rest_selectors(t, at) =~= selectors_view(selectors@)
                    + rest_selectors(t, self.cursor as int));
            }
        }
        proof {
            assert(selectors_view(selectors@) + rest_selectors(t, self.cursor as int)
                =~= selectors_view(selectors@));
        }
        Ok(selectors)
    }

    /// Parse compounds joined by `>` or by whitespace.
    pub fn parse_selector(&mut self) -> (r: Result<Selector, ParseError>)
        requires
            old(self).inv(),
        ensures
            final(self).inv(),
            final(self).tokens == old(self).tokens,
            r is Ok ==> r->Ok_0.well_formed() && final(self).cursor > old(self).cursor,
            r is Ok <==> selector_end(old(self).tokens@, old(self).cursor as int) is Some,
            r is Ok ==> final(self).cursor == selector_end(
                old(self).tokens@,
                old(self).cursor as int,
            )->Some_0,
            r is Ok ==> parts_view(r->Ok_0.parts@) == selector_parts(
                old(self).tokens@,
                old(self).cursor as int,
            ),
            r is Err ==> error_at(r->Err_0, selector_fail(old(self).tokens@, old(self).cursor as int), old(self).tokens@.len() as int),
    {
        let mut parts: Vec<SelectorPart> = Vec::new();
        let first = self.parse_compound_selector()?;
        let ghost fv = components_view(first.components@);
        parts.push(SelectorPart::Compound(first));
        let ghost start = old(self).cursor;
        proof {
            assert(parts_view(parts@) =~= seq![PartView::Compound(fv)]);
        }
        loop
            invariant_except_break
                selector_end(self.tokens@, start as int) == selector_rest(self.tokens@, self.cursor as int),
                parts_view(parts@) + rest_parts(self.tokens@, self.cursor as int) == selector_parts(
                    self.tokens@,
                    start as int,
                ),
                selector_fail(self.tokens@, start as int) == rest_fail(self.tokens@, self.cursor as int),
            invariant
                self.inv(),
                self.tokens == old(self).tokens,
                start == old(self).cursor,
                self.cursor > start,
                (Selector { parts }).well_formed(),
            ensures
                selector_end(self.tokens@, start as int) == Some(self.cursor as int),
                parts_view(parts@) == selector_parts(self.tokens@, start as int),
            decreases self.tokens@.len() - self.cursor,
        {
            let ghost t = self.tokens@;
            let ghost at = self.cursor as int;
            let ghost before = parts_view(parts@);
            if self.cursor >= self.tokens.len() {
                proof {
                    assert(before + rest_parts(t, at) =~= before);
                }
                break;
            }
            let k = self.tokens[self.cursor].token;
            if k == Token::GreaterThan {
                self.advance();
                let c = self.parse_compound_selector()?;
                let ghost cv = components_view(c.components@);
                proof {
                    lemma_extend_selector(parts@, Combinator::Child, c);
                }
                parts.push(SelectorPart::Combinator(Combinator::Child));
                parts.push(SelectorPart::Compound(c));
                proof {
                    let added = seq![PartView::Combinator(Combinator::Child), PartView::Compound(cv)];
                    assert(parts_view(parts@) =~= before + added);
                    assert(rest_parts(t, at) == added + rest_parts(t, self.cursor as int));
                    assert(before + rest_parts(t, at) =~= parts_view(parts@) + rest_parts(
                        t,
                        self.cursor as int,
                    ));
                }
            } else if (k == Token::Ident || k == Token::Hash || k == Token::Dot || k == Token::Star
                || k == Token::PseudoClass) && !self.is_adjacent() {
                let c = self.parse_compound_selector()?;
                let ghost cv = components_view(c.components@);
                proof {
                    lemma_extend_selector(parts@, Combinator::Descendant, c);
                }
                parts.push(SelectorPart::Combinator(Combinator::Descendant));
                parts.push(SelectorPart::Compound(c));
                proof {
                    let added = seq![
                        PartView::Combinator(Combinator::Descendant),
                        PartView::Compound(cv),
                    ];
                    assert(parts_view(parts@) =~= before + added);
                    assert(rest_parts(t, at) == added + rest_parts(t, self.cursor as int));
                    assert(before + rest_parts(t, at) =~= parts_view(parts@) + rest_parts(
                        t,
                        self.cursor as int,
                    ));
                }
            } else {
                proof {
                    assert(before + rest_parts(t, at) =~= before);
                }
                break;
            }
        }
        Ok(Selector { parts })
    }

    /// After `.` or `#`: the name token, which must be an identifier.
    fn expect_name(&mut self, what: &str) -> (r: Result<String, ParseError>)
        requires
            old(self).inv(),
        ensures
            final(self).inv(),
            final(self).tokens == old(self).tokens,
            final(self).cursor >= old(self).cursor,
            r is Ok <==> old(self).next_is(Token::Ident),
            r is Ok ==> final(self).cursor == old(self).cursor + 1,
            r is Ok ==> r->Ok_0 == old(self).tokens@[old(self).cursor as int].text,
            r is Err ==> error_at(r->Err_0, old(self).cursor as int, old(self).tokens@.len() as int),
    {
        match self.advance() {
            None => Err(ParseError::UnexpectedEof(join("expected name after ", what))),
            Some(tok) => {
                if tok.token != Token::Ident {
                    Err(
                        ParseError::UnexpectedToken {
                            position: tok.pos,
                            message: join("expected name after ", what),
                        },
                    )
                } else {
                    Ok(tok.text)
                }
            },
        }
    }

    /// One simple selector; `first` allows a type or `*`, which may only open
    /// a compound. `None` when the next token starts no allowed component.
    fn parse_component(&mut self, first: bool) -> (r: Result<Option<SelectorComponent>, ParseError>)
        requires
            old(self).inv(),
        ensures
            final(self).inv(),
            final(self).tokens == old(self).tokens,
            (r matches Ok(Some(_))) ==> final(self).cursor > old(self).cursor,
            (r matches Ok(None)) ==> final(self).cursor == old(self).cursor,
            !first && (r matches Ok(Some(_))) ==> (r->Ok_0->Some_0 is Class || r->Ok_0->Some_0 is Id
                || r->Ok_0->Some_0 is PseudoClass),
            match component_step(old(self).tokens@, old(self).cursor as int, first) {
                Step::Fail => r is Err,
                Step::NoMatch => (r matches Ok(None)),
                Step::Next(j) => (r matches Ok(Some(_))) && final(self).cursor == j,
            },
            (r matches Ok(Some(_))) ==> component_view(r->Ok_0->Some_0) == component_at(
                old(self).tokens@,
                old(self).cursor as int,
            ),
            r is Err ==> error_at(r->Err_0, old(self).cursor as int + 1, old(self).tokens@.len() as int),
    {
        if self.cursor >= self.tokens.len() {
            return Ok(None);
        }
        let k = self.tokens[self.cursor].token;
        if first && k == Token::Ident {
            let name = self.tokens[self.cursor].text.clone();
            self.advance();
            Ok(Some(SelectorComponent::Type(name)))
        } else if first && k == Token::Star {
            self.advance();
            Ok(Some(SelectorComponent::Universal))
        } else if k == Token::Dot {
            self.advance();
            let name = self.expect_name("'.'")?;
            Ok(Some(SelectorComponent::Class(name)))
        } else if k == Token::Hash {
            self.advance();
            let name = self.expect_name("'#'")?;
            Ok(Some(SelectorComponent::Id(name)))
        } else if k == Token::PseudoClass {
            let name = trim_ends(&self.tokens[self.cursor].text, 1, 0);
            self.advance();
            Ok(Some(SelectorComponent::PseudoClass(name)))
        } else {
            Ok(None)
        }
    }

    /// A compound: a first component, then classes, ids and pseudo-classes
    /// for as long as each touches the token before it.
    pub fn parse_compound_selector(&mut self) -> (r: Result<CompoundSelector, ParseError>)
        requires
            old(self).inv(),
        ensures
            final(self).inv(),
            final(self).tokens == old(self).tokens,
            r is Ok ==> r->Ok_0.components@.len() > 0 && final(self).cursor > old(self).cursor,
            r is Ok ==> forall|i: int|
                1 <= i < r->Ok_0.components@.len() ==> (#[trigger] r->Ok_0.components@[i] is Class
                    || r->Ok_0.components@[i] is Id || r->Ok_0.components@[i] is PseudoClass),
            r is Ok <==> compound_end(old(self).tokens@, old(self).cursor as int) is Some,
            r is Ok ==> final(self).cursor == compound_end(
                old(self).tokens@,
                old(self).cursor as int,
            )->Some_0,
            r is Ok ==> components_view(r->Ok_0.components@) == compound_components(
                old(self).tokens@,
                old(self).cursor as int,
            ),
            r is Err ==> error_at(r->Err_0, compound_fail(old(self).tokens@, old(self).cursor as int), old(self).tokens@.len() as int),
    {
        let mut components: Vec<SelectorComponent> = Vec::new();
        match self.parse_component(true)? {
            Some(c) => {
                components.push(c);
                proof {
                    assert(components_view(components@) =~= seq![component_view(c)]);
                }
            },
            None => {
                if self.cursor >= self.tokens.len() {
                    return Err(ParseError::UnexpectedEof(join("expected selector part", "")));
                }
                return Err(
                    ParseError::UnexpectedToken {
                        position: self.current_pos(),
                        message: join("expected selector part", ""),
                    },
                );
            },
        }
        let ghost start = old(self).cursor;
        loop
            invariant_except_break
                compound_end(self.tokens@, start as int) == compound_tail(self.tokens@, self.cursor as int),
                components_view(components@) + tail_components(self.tokens@, self.cursor as int)
                    == compound_components(self.tokens@, start as int),
                compound_fail(self.tokens@, start as int) == tail_fail(self.tokens@, self.cursor as int),
            invariant
                self.inv(),
                self.tokens == old(self).tokens,
                start == old(self).cursor,
                self.cursor > start,
                components@.len() > 0,
                forall|i: int|
                    1 <= i < components@.len() ==> (#[trigger] components@[i] is Class
                        || components@[i] is Id || components@[i] is PseudoClass),
            ensures
                compound_end(self.tokens@, start as int) == Some(self.cursor as int),
                components_view(components@) == compound_components(self.tokens@, start as int),
            decreases self.tokens@.len() - self.cursor,
        {
            if !self.is_adjacent() {
                proof {
                    assert(components_view(components@) + tail_components(
                        self.tokens@,
                        self.cursor as int,
                    ) =~= components_view(components@));
                }
                break;
            }
            let ghost at = self.cursor as int;
            let ghost before = components_view(components@);
            match self.parse_component(false)? {
                Some(c) => {
                    components.push(c);
                    proof {
                        let t = self.tokens@;
                        assert(components_view(components@) =~= before.push(component_view(c)));
                        assert(tail_components(t, at) == seq![component_at(t, at)]
                            + tail_components(t, self.cursor as int));
                        assert(before + tail_components(t, at) =~= components_view(components@)
                            + tail_components(t, self.cursor as int));
                    }
                },
                None => {
                    proof {
                        assert(before + tail_components(self.tokens@, at) =~= before);
                    }
                    break;
                },
            }
        }
        Ok(CompoundSelector { components })
    }

    /// Declarations up to (not including) `}` or the end.
    pub fn parse_declarations(&mut self) -> (r: Result<Vec<Declaration>, ParseError>)
        requires
            old(self).inv(),
        ensures
            final(self).inv(),
            final(self).tokens == old(self).tokens,
            final(self).cursor >= old(self).cursor,
            r is Ok ==> final(self).cursor >= final(self).tokens@.len() || final(self).next_is(
                Token::BraceClose,
            ),
            r is Ok <==> declarations_end(old(self).tokens@, old(self).cursor as int) is Some,
            r is Ok ==> final(self).cursor == declarations_end(
                old(self).tokens@,
                old(self).cursor as int,
            )->Some_0,
            r is Ok ==> declarations_view(r->Ok_0@) == declaration_list(
                old(self).tokens@,
                old(self).cursor as int,
            ),
            r is Err ==> error_at(r->Err_0, declarations_fail(old(self).tokens@, old(self).cursor as int), old(self).tokens@.len() as int),
    {
        let ghost t = old(self).tokens@;
        let mut declarations: Vec<Declaration> = Vec::new();
        proof {
            assert(declarations_view(declarations@) =~= Seq::<DeclarationView>::empty());
        }
        while self.cursor < self.tokens.len() && self.tokens[self.cursor].token != Token::BraceClose
            invariant
                self.inv(),
                self.tokens == old(self).tokens,
                t == self.tokens@,
                declarations_view(declarations@) + declaration_list(t, self.cursor as int)
                    == declaration_list(t, old(self).cursor as int),
                declarations_fail(t, old(self).cursor as int) == declarations_fail(t, self.cursor as int),
                self.cursor >= old(self).cursor,
                declarations_end(old(self).tokens@, old(self).cursor as int) == declarations_end(
                    self.tokens@,
                    self.cursor as int,
                ),
            decreases self.tokens@.len() - self.cursor,
        {
            let ghost at = self.cursor as int;
            let ghost before = declarations_view(declarations@);
            let d = self.parse_declaration()?;
            let ghost dv = declaration_view(d);
            declarations.push(d);
            proof {
                assert(declarations_view(declarations@) =~= before.push(dv));
                assert(declaration_list(t, at) == seq![dv] + declaration_list(t, self.cursor as int));
                assert(before + declaration_list(t, at) =~= declarations_view(declarations@)
                    + declaration_list(t, self.cursor as int));
            }
        }
        proof {
            assert(declarations_view(declarations@) + declaration_list(t, self.cursor as int)
                =~= declarations_view(declarations@));
        }
        Ok(declarations)
    }

    /// `name: value* [!important] [;]`
    pub fn parse_declaration(&mut self) -> (r: Result<Declaration, ParseError>)
        requires
            old(self).inv(),
        ensures
            final(self).inv(),
            final(self).tokens == old(self).tokens,
            final(self).cursor >= old(self).cursor,
            r is Ok ==> final(self).cursor > old(self).cursor,
            r is Ok ==> old(self).next_is(Token::Ident) && r->Ok_0.property == old(
                self,
            ).tokens@[old(self).cursor as int].text,
            old(self).cursor >= old(self).tokens@.len() ==> r matches Err(
                ParseError::UnexpectedEof(_),
            ),
            r is Ok <==> declaration_end(old(self).tokens@, old(self).cursor as int) is Some,
            r is Ok ==> final(self).cursor == declaration_end(
                old(self).tokens@,
                old(self).cursor as int,
            )->Some_0,
            r is Ok ==> declaration_view(r->Ok_0) == declaration_at(
                old(self).tokens@,
                old(self).cursor as int,
            ),
            r is Err ==> error_at(r->Err_0, declaration_fail(old(self).tokens@, old(self).cursor as int), old(self).tokens@.len() as int),
    {
        let ghost t = old(self).tokens@;
        let ghost start = old(self).cursor + 2;
        let prop_tok = match self.advance() {
            Some(t) => t,
            None => {
                return Err(ParseError::UnexpectedEof(join("expected property name", "")));
            },
        };
        if prop_tok.token != Token::Ident {
            return Err(
                ParseError::UnexpectedToken {
                    position: prop_tok.pos,
                    message: join("expected property name, got ", token_name(prop_tok.token)),
                },
            );
        }
        let property = prop_tok.text;
        self.expect(Token::Colon)?;
        let mut values: Vec<DeclarationValue> = Vec::new();
        let mut important = false;
        loop
            invariant_except_break
                values_end(t, start) == values_end(t, self.cursor as int),
                values_view(values@) + value_list(t, self.cursor as int) == value_list(t, start),
                ends_important(t, start) == ends_important(t, self.cursor as int),
                values_fail(t, start) == values_fail(t, self.cursor as int),
                !important,
            invariant
                self.inv(),
                self.tokens == old(self).tokens,
                self.cursor > old(self).cursor,
                t == self.tokens@,
                start == old(self).cursor + 2,
                kind_is(t, start - 2, Token::Ident) && kind_is(t, start - 1, Token::Colon),
                property == t[start - 2].text,
            ensures
                values_end(t, start) == Some(self.cursor as int),
                values_view(values@) == value_list(t, start),
                important == ends_important(t, start),
            decreases self.tokens@.len() - self.cursor,
        {
            let ghost at = self.cursor as int;
            let ghost before = values_view(values@);
            if self.cursor >= self.tokens.len() {
                proof {
                    assert(before + value_list(t, at) =~= before);
                }
                break;
            }
            let k = self.tokens[self.cursor].token;
            if k == Token::Semicolon || k == Token::BraceClose {
                proof {
                    assert(before + value_list(t, at) =~= before);
                }
                break;
            }
            if k == Token::Important {
                self.advance();
                important = true;
                proof {
                    assert(before + value_list(t, at) =~= before);
                }
                break;
            }
            let ghost c = self.cursor as int;
            let v = match self.parse_declaration_value() {
                Ok(v) => v,
                Err(e) => {
                    proof {
                        assert(values_end(t, c) is None);
                        assert(values_end(t, start) is None);
                        assert(declaration_end(t, start - 2) is None);
                    }
                    return Err(e);
                },
            };
            values.push(v);
            proof {
                assert(values_view(values@) =~= before.push(value_view(v)));
                assert(value_list(t, at) == seq![token_value(t[at])] + value_list(t, at + 1));
                assert(before + value_list(t, at) =~= values_view(values@) + value_list(t, at + 1));
            }
        }
        if self.cursor < self.tokens.len() && self.tokens[self.cursor].token == Token::Semicolon {
            self.advance();
        }
        Ok(Declaration { property, values, important })
    }

    /// One value token.
    pub fn parse_declaration_value(&mut self) -> (r: Result<DeclarationValue, ParseError>)
        requires
            old(self).inv(),
        ensures
            final(self).inv(),
            final(self).tokens == old(self).tokens,
            final(self).cursor >= old(self).cursor,
            old(self).cursor < old(self).tokens@.len() ==> final(self).cursor == old(self).cursor
                + 1,
            old(self).cursor >= old(self).tokens@.len() ==> r matches Err(
                ParseError::UnexpectedEof(_),
            ),
            r is Ok ==> old(self).cursor < old(self).tokens@.len() && value_of_token(
                old(self).tokens@[old(self).cursor as int],
                r->Ok_0,
            ),
            old(self).cursor < old(self).tokens@.len() ==> (r is Ok <==> value_ok(
                old(self).tokens@[old(self).cursor as int],
            )),
            r is Ok ==> value_view(r->Ok_0) == token_value(old(self).tokens@[old(self).cursor as int]),
            old(self).cursor < old(self).tokens@.len() && r is Err ==> (r matches Err(
                ParseError::UnexpectedToken { position, .. },
            ) && position == old(self).tokens@[old(self).cursor as int].pos),
            r is Err ==> error_at(r->Err_0, old(self).cursor as int, old(self).tokens@.len() as int),
    {
        let tok = match self.advance() {
            Some(t) => t,
            None => {
                return Err(ParseError::UnexpectedEof(join("expected declaration value", "")));
            },
        };
        match tok.token {
            Token::Number => {
                let chars = chars_of(tok.text.as_str());
                match parse_milli(&chars) {
                    Some(n) => Ok(DeclarationValue::Number(n)),
                    None => Err(
                        ParseError::UnexpectedToken {
                            position: tok.pos,
                            message: join("invalid number: ", tok.text.as_str()),
                        },
                    ),
                }
            },
            Token::Dimension => {
                let chars = chars_of(tok.text.as_str());
                match split_dimension(&chars) {
                    Some((num, unit)) => match parse_milli(&num) {
                        Some(n) => Ok(DeclarationValue::Dimension(n, unit)),
                        None => Err(
                            ParseError::UnexpectedToken {
                                position: tok.pos,
                                message: join("invalid number in dimension: ", tok.text.as_str()),
                            },
                        ),
                    },
                    None => Err(
                        ParseError::UnexpectedToken {
                            position: tok.pos,
                            message: join("invalid dimension: ", tok.text.as_str()),
                        },
                    ),
                }
            },
            Token::Ident => Ok(DeclarationValue::Ident(tok.text)),
            Token::HexColor => Ok(DeclarationValue::Color(trim_ends(&tok.text, 1, 0))),
            Token::StringLiteral | Token::StringLiteralSingle => Ok(
                DeclarationValue::String(trim_ends(&tok.text, 1, 1)),
            ),
            Token::Variable => Ok(DeclarationValue::Variable(trim_ends(&tok.text, 1, 0))),
            _ => Err(
                ParseError::UnexpectedToken {
                    position: tok.pos,
                    message: join("unexpected token in declaration value: ", token_name(tok.token)),
                },
            ),
        }
    }
}

/// `t` without its first `front` and last `back` characters (empty when too short).
pub open spec fn trimmed(t: Seq<char>, front: int, back: int) -> Seq<char> {
    if t.len() >= front + back {
        t.subrange(front, t.len() - back)
    } else {
        Seq::empty()
    }
}

/// What a value token turns into.
pub open spec fn value_of_token(t: PToken, v: DeclarationValue) -> bool {
    match t.token {
        Token::Number => v is Number && number_shape(t.text@) && v->Number_0 == milli_value(t.text@),
        Token::Dimension => {
            let u = unit_start(t.text@, 0);
            v is Dimension && v->Dimension_1@ == t.text@.subrange(u, t.text@.len() as int)
                && v->Dimension_0 == milli_value(t.text@.subrange(0, u))
        },
        Token::Ident => v == DeclarationValue::Ident(t.text),
        Token::HexColor => v is Color && v->Color_0@ == trimmed(t.text@, 1, 0),
        Token::StringLiteral | Token::StringLiteralSingle => v is String && v->String_0@
            == trimmed(t.text@, 1, 1),
        Token::Variable => v is Variable && v->Variable_0@ == trimmed(t.text@, 1, 0),
        _ => false,
    }
}

proof fn lemma_extend_selector(parts: Seq<SelectorPart>, c: Combinator, comp: CompoundSelector)
    requires
        parts.len() % 2 == 1,
        forall|i: int|
            0 <= i < parts.len() ==> if i % 2 == 0 {
                (#[trigger] parts[i]) is Compound && parts[i]->Compound_0.well_formed()
            } else {
                parts[i] is Combinator
            },
        comp.well_formed(),
    ensures
        ({
            let q = parts.push(SelectorPart::Combinator(c)).push(SelectorPart::Compound(comp));
            &&& q.len() % 2 == 1
            &&& forall|i: int|
                0 <= i < q.len() ==> if i % 2 == 0 {
                    (#[trigger] q[i]) is Compound && q[i]->Compound_0.well_formed()
                } else {
                    q[i] is Combinator
                }
        }),
{
    let q = parts.push(SelectorPart::Combinator(c)).push(SelectorPart::Compound(comp));
    assert forall|i: int| 0 <= i < q.len() implies if i % 2 == 0 {
        (#[trigger] q[i]) is Compound && q[i]->Compound_0.well_formed()
    } else {
        q[i] is Combinator
    } by {
        if i < parts.len() {
            assert(q[i] == parts[i]);
        }
    }
}

/// How one simple selector reads at position `i`.
pub enum Step {
    /// The tokens there start a component but break the grammar.
    Fail,
    /// No component starts there.
    NoMatch,
    /// A component ends just before this position.
    Next(int),
}

pub open spec fn kind_is(t: Seq<PToken>, i: int, k: Token) -> bool {
    0 <= i < t.len() && t[i].token == k
}

/// Whether token `i` starts exactly where token `i - 1` ends.
pub open spec fn touches(t: Seq<PToken>, i: int) -> bool {
    0 < i < t.len() && t[i].byte_start == t[i - 1].byte_end
}

/// One simple selector at `i`; only a first one may be a type or `*`.
pub open spec fn component_step(t: Seq<PToken>, i: int, first: bool) -> Step {
    if i < 0 || i >= t.len() {
        Step::NoMatch
    } else if first && (t[i].token == Token::Ident || t[i].token == Token::Star) {
        Step::Next(i + 1)
    } else if t[i].token == Token::Dot || t[i].token == Token::Hash {
        if kind_is(t, i + 1, Token::Ident) {
            Step::Next(i + 2)
        } else {
            Step::Fail
        }
    } else if t[i].token == Token::PseudoClass {
        Step::Next(i + 1)
    } else {
        Step::NoMatch
    }
}

/// The end of a compound's tail from `i`: components that each touch the
/// token before them.
pub open spec fn compound_tail(t: Seq<PToken>, i: int) -> Option<int>
    decreases t.len() - i,
{
    if !touches(t, i) {
        Some(i)
    } else {
        match component_step(t, i, false) {
            Step::Fail => None,
            Step::NoMatch => Some(i),
            Step::Next(j) => if i < j && j <= t.len() {
                compound_tail(t, j)
            } else {
                None
            },
        }
    }
}

/// The end of the compound selector at `i`, if one parses there.
pub open spec fn compound_end(t: Seq<PToken>, i: int) -> Option<int> {
    match component_step(t, i, true) {
        Step::Next(j) => compound_tail(t, j),
        _ => None,
    }
}

pub open spec fn starts_compound(k: Token) -> bool {
    k == Token::Ident || k == Token::Hash || k == Token::Dot || k == Token::Star || k
        == Token::PseudoClass
}

/// The end of the combinator-and-compound pairs from `i`.
pub open spec fn selector_rest(t: Seq<PToken>, i: int) -> Option<int>
    decreases t.len() - i,
{
    if i < 0 || i >= t.len() {
        Some(i)
    } else if t[i].token == Token::GreaterThan {
        match compound_end(t, i + 1) {
            Some(j) => if i < j && j <= t.len() {
                selector_rest(t, j)
            } else {
                None
            },
            None => None,
        }
    } else if starts_compound(t[i].token) && !touches(t, i) {
        match compound_end(t, i) {
            Some(j) => if i < j && j <= t.len() {
                selector_rest(t, j)
            } else {
                None
            },
            None => None,
        }
    } else {
        Some(i)
    }
}

pub open spec fn selector_end(t: Seq<PToken>, i: int) -> Option<int> {
    match compound_end(t, i) {
        Some(j) => selector_rest(t, j),
        None => None,
    }
}

/// The end of further `, selector` items from `i`.
pub open spec fn selector_list_rest(t: Seq<PToken>, i: int) -> Option<int>
    decreases t.len() - i,
{
    if kind_is(t, i, Token::Comma) {
        match selector_end(t, i + 1) {
            Some(j) => if i < j && j <= t.len() {
                selector_list_rest(t, j)
            } else {
                None
            },
            None => None,
        }
    } else {
        Some(i)
    }
}

pub open spec fn selector_list_end(t: Seq<PToken>, i: int) -> Option<int> {
    match selector_end(t, i) {
        Some(j) => selector_list_rest(t, j),
        None => None,
    }
}

/// Whether a value token converts: numbers must be well formed with at most
/// fifteen integer digits, and punctuation is no value.
pub open spec fn value_ok(tok: PToken) -> bool {
    match tok.token {
        Token::Number => number_shape(tok.text@) && int_digits(tok.text@) <= MAX_INT_DIGITS,
        Token::Dimension => {
            let u = unit_start(tok.text@, 0);
            let num = tok.text@.subrange(0, u);
            0 < u < tok.text@.len() && number_shape(num) && int_digits(num) <= MAX_INT_DIGITS
        },
        Token::Ident | Token::HexColor | Token::StringLiteral | Token::StringLiteralSingle
        | Token::Variable => true,
        _ => false,
    }
}

/// The end of a declaration's values from `i`: up to `;` or `}` (not
/// consumed) or past `!important`.
pub open spec fn values_end(t: Seq<PToken>, i: int) -> Option<int>
    decreases t.len() - i,
{
    if i < 0 || i >= t.len() || t[i].token == Token::Semicolon || t[i].token == Token::BraceClose {
        Some(i)
    } else if t[i].token == Token::Important {
        Some(i + 1)
    } else if value_ok(t[i]) {
        values_end(t, i + 1)
    } else {
        None
    }
}

/// The end of the declaration at `i`, its optional `;` included.
pub open spec fn declaration_end(t: Seq<PToken>, i: int) -> Option<int> {
    if kind_is(t, i, Token::Ident) && kind_is(t, i + 1, Token::Colon) {
        match values_end(t, i + 2) {
            Some(j) => if kind_is(t, j, Token::Semicolon) {
                Some(j + 1)
            } else {
                Some(j)
            },
            None => None,
        }
    } else {
        None
    }
}

/// The end of the declarations from `i` (before `}` or the end).
pub open spec fn declarations_end(t: Seq<PToken>, i: int) -> Option<int>
    decreases t.len() - i,
{
    if i < 0 || i >= t.len() || t[i].token == Token::BraceClose {
        Some(i)
    } else {
        match declaration_end(t, i) {
            Some(j) => if i < j && j <= t.len() {
                declarations_end(t, j)
            } else {
                None
            },
            None => None,
        }
    }
}

/// The end of the rule at `i`: selectors, `{`, declarations, `}`.
pub open spec fn rule_end(t: Seq<PToken>, i: int) -> Option<int> {
    match selector_list_end(t, i) {
        Some(j) => if kind_is(t, j, Token::BraceOpen) {
            match declarations_end(t, j + 1) {
                Some(m) => if kind_is(t, m, Token::BraceClose) {
                    Some(m + 1)
                } else {
                    None
                },
                None => None,
            }
        } else {
            None
        },
        None => None,
    }
}

/// Whether the tokens from `i` to the end are a sequence of rules.
pub open spec fn rules_from(t: Seq<PToken>, i: int) -> bool
    decreases t.len() - i,
{
    if i < 0 || i >= t.len() {
        true
    } else {
        match rule_end(t, i) {
            Some(j) => i < j && rules_from(t, j),
            None => false,
        }
    }
}

/// `t` are the tokens of `s`, each with its text, index and span.
pub open spec fn tokens_of(t: Seq<PToken>, s: Seq<char>) -> bool {
    &&& t.len() == lex(s).len()
    &&& forall|j: int| 0 <= j < t.len() ==> ptoken_matches(#[trigger] t[j], s, lex(s)[j], j)
}

/// A selector component with its name as characters.
pub enum ComponentView {
    Type(Seq<char>),
    Universal,
    Class(Seq<char>),
    Id(Seq<char>),
    PseudoClass(Seq<char>),
}

pub open spec fn component_view(c: SelectorComponent) -> ComponentView {
    match c {
        SelectorComponent::Type(n) => ComponentView::Type(n@),
        SelectorComponent::Universal => ComponentView::Universal,
        SelectorComponent::Class(n) => ComponentView::Class(n@),
        SelectorComponent::Id(n) => ComponentView::Id(n@),
        SelectorComponent::PseudoClass(n) => ComponentView::PseudoClass(n@),
    }
}

pub open spec fn components_view(cs: Seq<SelectorComponent>) -> Seq<ComponentView> {
    cs.map_values(|c: SelectorComponent| component_view(c))
}

/// A selector part with its compound as component views.
pub enum PartView {
    Compound(Seq<ComponentView>),
    Combinator(Combinator),
}

pub open spec fn part_view(p: SelectorPart) -> PartView {
    match p {
        SelectorPart::Compound(c) => PartView::Compound(components_view(c.components@)),
        SelectorPart::Combinator(k) => PartView::Combinator(k),
    }
}

pub open spec fn parts_view(ps: Seq<SelectorPart>) -> Seq<PartView> {
    ps.map_values(|p: SelectorPart| part_view(p))
}

pub open spec fn selectors_view(ss: Seq<Selector>) -> Seq<Seq<PartView>> {
    ss.map_values(|s: Selector| parts_view(s.parts@))
}

/// A declaration value with its texts as characters.
pub enum ValueView {
    Ident(Seq<char>),
    Number(int),
    Dimension(int, Seq<char>),
    Color(Seq<char>),
    String(Seq<char>),
    Variable(Seq<char>),
}

pub open spec fn value_view(v: DeclarationValue) -> ValueView {
    match v {
        DeclarationValue::Ident(s) => ValueView::Ident(s@),
        DeclarationValue::Number(n) => ValueView::Number(n as int),
        DeclarationValue::Dimension(n, u) => ValueView::Dimension(n as int, u@),
        DeclarationValue::Color(s) => ValueView::Color(s@),
        DeclarationValue::String(s) => ValueView::String(s@),
        DeclarationValue::Variable(s) => ValueView::Variable(s@),
    }
}

pub open spec fn values_view(vs: Seq<DeclarationValue>) -> Seq<ValueView> {
    vs.map_values(|v: DeclarationValue| value_view(v))
}

/// A declaration with its texts as characters.
pub struct DeclarationView {
    pub property: Seq<char>,
    pub values: Seq<ValueView>,
    pub important: bool,
}

pub open spec fn declaration_view(d: Declaration) -> DeclarationView {
    DeclarationView { property: d.property@, values: values_view(d.values@), important: d.important }
}

pub open spec fn declarations_view(ds: Seq<Declaration>) -> Seq<DeclarationView> {
    ds.map_values(|d: Declaration| declaration_view(d))
}

/// A rule as selector and declaration views.
pub struct RuleView {
    pub selectors: Seq<Seq<PartView>>,
    pub declarations: Seq<DeclarationView>,
}

pub open spec fn ruleset_view(r: RuleSet) -> RuleView {
    RuleView { selectors: selectors_view(r.selectors@), declarations: declarations_view(r.declarations@) }
}

pub open spec fn rules_view(rs: Seq<RuleSet>) -> Seq<RuleView> {
    rs.map_values(|r: RuleSet| ruleset_view(r))
}

/// The component that the tokens at `i` spell (when one starts there).
pub open spec fn component_at(t: Seq<PToken>, i: int) -> ComponentView {
    if t[i].token == Token::Ident {
        ComponentView::Type(t[i].text@)
    } else if t[i].token == Token::Star {
        ComponentView::Universal
    } else if t[i].token == Token::Dot {
        ComponentView::Class(t[i + 1].text@)
    } else if t[i].token == Token::Hash {
        ComponentView::Id(t[i + 1].text@)
    } else {
        ComponentView::PseudoClass(trimmed(t[i].text@, 1, 0))
    }
}

/// The components of a compound's tail from `i` (see [`compound_tail`]).
pub open spec fn tail_components(t: Seq<PToken>, i: int) -> Seq<ComponentView>
    decreases t.len() - i,
{
    if !touches(t, i) {
        Seq::empty()
    } else {
        match component_step(t, i, false) {
            Step::Next(j) => if i < j && j <= t.len() {
                seq![component_at(t, i)] + tail_components(t, j)
            } else {
                Seq::empty()
            },
            _ => Seq::empty(),
        }
    }
}

/// The components of the compound at `i` (see [`compound_end`]).
pub open spec fn compound_components(t: Seq<PToken>, i: int) -> Seq<ComponentView> {
    match component_step(t, i, true) {
        Step::Next(j) => seq![component_at(t, i)] + tail_components(t, j),
        _ => Seq::empty(),
    }
}

/// The combinator-and-compound parts from `i` (see [`selector_rest`]): a
/// child combinator for `>`, a descendant one for whitespace.
pub open spec fn rest_parts(t: Seq<PToken>, i: int) -> Seq<PartView>
    decreases t.len() - i,
{
    if i < 0 || i >= t.len() {
        Seq::empty()
    } else if t[i].token == Token::GreaterThan {
        match compound_end(t, i + 1) {
            Some(j) => if i < j && j <= t.len() {
                seq![
                    PartView::Combinator(Combinator::Child),
                    PartView::Compound(compound_components(t, i + 1)),
                ] + rest_parts(t, j)
            } else {
                Seq::empty()
            },
            None => Seq::empty(),
        }
    } else if starts_compound(t[i].token) && !touches(t, i) {
        match compound_end(t, i) {
            Some(j) => if i < j && j <= t.len() {
                seq![
                    PartView::Combinator(Combinator::Descendant),
                    PartView::Compound(compound_components(t, i)),
                ] + rest_parts(t, j)
            } else {
                Seq::empty()
            },
            None => Seq::empty(),
        }
    } else {
        Seq::empty()
    }
}

/// The parts of the selector at `i`.
pub open spec fn selector_parts(t: Seq<PToken>, i: int) -> Seq<PartView> {
    match compound_end(t, i) {
        Some(j) => seq![PartView::Compound(compound_components(t, i))] + rest_parts(t, j),
        None => Seq::empty(),
    }
}

/// The selectors after the first of a list, from `i`.
pub open spec fn rest_selectors(t: Seq<PToken>, i: int) -> Seq<Seq<PartView>>
    decreases t.len() - i,
{
    if kind_is(t, i, Token::Comma) {
        match selector_end(t, i + 1) {
            Some(j) => if i < j && j <= t.len() {
                seq![selector_parts(t, i + 1)] + rest_selectors(t, j)
            } else {
                Seq::empty()
            },
            None => Seq::empty(),
        }
    } else {
        Seq::empty()
    }
}

/// The selectors of the list at `i`.
pub open spec fn selector_list(t: Seq<PToken>, i: int) -> Seq<Seq<PartView>> {
    match selector_end(t, i) {
        Some(j) => seq![selector_parts(t, i)] + rest_selectors(t, j),
        None => Seq::empty(),
    }
}

/// The value a value token stands for.
pub open spec fn token_value(tok: PToken) -> ValueView {
    let u = unit_start(tok.text@, 0);
    match tok.token {
        Token::Number => ValueView::Number(milli_value(tok.text@)),
        Token::Dimension => ValueView::Dimension(
            milli_value(tok.text@.subrange(0, u)),
            tok.text@.subrange(u, tok.text@.len() as int),
        ),
        Token::Ident => ValueView::Ident(tok.text@),
        Token::HexColor => ValueView::Color(trimmed(tok.text@, 1, 0)),
        Token::Variable => ValueView::Variable(trimmed(tok.text@, 1, 0)),
        _ => ValueView::String(trimmed(tok.text@, 1, 1)),
    }
}

/// The values of a declaration from `i` (see [`values_end`]).
pub open spec fn value_list(t: Seq<PToken>, i: int) -> Seq<ValueView>
    decreases t.len() - i,
{
    if i < 0 || i >= t.len() || t[i].token == Token::Semicolon || t[i].token == Token::BraceClose
        || t[i].token == Token::Important {
        Seq::empty()
    } else if value_ok(t[i]) {
        seq![token_value(t[i])] + value_list(t, i + 1)
    } else {
        Seq::empty()
    }
}

/// Whether the values from `i` end with `!important`.
pub open spec fn ends_important(t: Seq<PToken>, i: int) -> bool
    decreases t.len() - i,
{
    if i < 0 || i >= t.len() || t[i].token == Token::Semicolon || t[i].token == Token::BraceClose {
        false
    } else if t[i].token == Token::Important {
        true
    } else if value_ok(t[i]) {
        ends_important(t, i + 1)
    } else {
        false
    }
}

/// The declaration at `i`.
pub open spec fn declaration_at(t: Seq<PToken>, i: int) -> DeclarationView {
    DeclarationView {
        property: t[i].text@,
        values: value_list(t, i + 2),
        important: ends_important(t, i + 2),
    }
}

/// The declarations from `i` (see [`declarations_end`]).
pub open spec fn declaration_list(t: Seq<PToken>, i: int) -> Seq<DeclarationView>
    decreases t.len() - i,
{
    if i < 0 || i >= t.len() || t[i].token == Token::BraceClose {
        Seq::empty()
    } else {
        match declaration_end(t, i) {
            Some(j) => if i < j && j <= t.len() {
                seq![declaration_at(t, i)] + declaration_list(t, j)
            } else {
                Seq::empty()
            },
            None => Seq::empty(),
        }
    }
}

/// The rule at `i`.
pub open spec fn rule_at(t: Seq<PToken>, i: int) -> RuleView {
    let j = selector_list_end(t, i)->Some_0;
    RuleView { selectors: selector_list(t, i), declarations: declaration_list(t, j + 1) }
}

/// The rules from `i` to the end (see [`rules_from`]).
pub open spec fn rule_list(t: Seq<PToken>, i: int) -> Seq<RuleView>
    decreases t.len() - i,
{
    if i < 0 || i >= t.len() {
        Seq::empty()
    } else {
        match rule_end(t, i) {
            Some(j) => if i < j && j <= t.len() {
                seq![rule_at(t, i)] + rule_list(t, j)
            } else {
                Seq::empty()
            },
            None => Seq::empty(),
        }
    }
}

/// `e` is the error for a failure at token `k` of `n`: end of input when
/// `k` is past the last token, else an unexpected token at `k`.
pub open spec fn error_at(e: ParseError, k: int, n: int) -> bool {
    if k >= n {
        e is UnexpectedEof
    } else {
        e matches ParseError::UnexpectedToken { position, .. } && position == k
    }
}

/// Where the compound tail from `i` breaks the grammar.
pub open spec fn tail_fail(t: Seq<PToken>, i: int) -> int
    decreases t.len() - i,
{
    match component_step(t, i, false) {
        Step::Next(j) => if touches(t, i) && i < j && j <= t.len() {
            tail_fail(t, j)
        } else {
            i + 1
        },
        _ => i + 1,
    }
}

/// Where the compound at `i` breaks the grammar.
pub open spec fn compound_fail(t: Seq<PToken>, i: int) -> int {
    match component_step(t, i, true) {
        Step::Next(j) => tail_fail(t, j),
        Step::Fail => i + 1,
        Step::NoMatch => i,
    }
}

/// Where the parts from `i` break the grammar.
pub open spec fn rest_fail(t: Seq<PToken>, i: int) -> int
    decreases t.len() - i,
{
    if 0 <= i < t.len() && t[i].token == Token::GreaterThan {
        match compound_end(t, i + 1) {
            Some(j) => if i < j && j <= t.len() {
                rest_fail(t, j)
            } else {
                i
            },
            None => compound_fail(t, i + 1),
        }
    } else if 0 <= i < t.len() && starts_compound(t[i].token) && !touches(t, i) {
        match compound_end(t, i) {
            Some(j) => if i < j && j <= t.len() {
                rest_fail(t, j)
            } else {
                i
            },
            None => compound_fail(t, i),
        }
    } else {
        i
    }
}

/// Where the selector at `i` breaks the grammar.
pub open spec fn selector_fail(t: Seq<PToken>, i: int) -> int {
    match compound_end(t, i) {
        Some(j) => rest_fail(t, j),
        None => compound_fail(t, i),
    }
}

/// Where the further selectors from `i` break the grammar.
pub open spec fn list_rest_fail(t: Seq<PToken>, i: int) -> int
    decreases t.len() - i,
{
    if kind_is(t, i, Token::Comma) {
        match selector_end(t, i + 1) {
            Some(j) => if i < j && j <= t.len() {
                list_rest_fail(t, j)
            } else {
                i
            },
            None => selector_fail(t, i + 1),
        }
    } else {
        i
    }
}

/// Where the selector list at `i` breaks the grammar.
pub open spec fn list_fail(t: Seq<PToken>, i: int) -> int {
    match selector_end(t, i) {
        Some(j) => list_rest_fail(t, j),
        None => selector_fail(t, i),
    }
}

/// Where the values from `i` break the grammar.
pub open spec fn values_fail(t: Seq<PToken>, i: int) -> int
    decreases t.len() - i,
{
    if 0 <= i < t.len() && t[i].token != Token::Semicolon && t[i].token != Token::BraceClose
        && t[i].token != Token::Important && value_ok(t[i]) {
        values_fail(t, i + 1)
    } else {
        i
    }
}

/// Where the declaration at `i` breaks the grammar.
pub open spec fn declaration_fail(t: Seq<PToken>, i: int) -> int {
    if !kind_is(t, i, Token::Ident) {
        i
    } else if !kind_is(t, i + 1, Token::Colon) {
        i + 1
    } else {
        values_fail(t, i + 2)
    }
}

/// Where the declarations from `i` break the grammar.
pub open spec fn declarations_fail(t: Seq<PToken>, i: int) -> int
    decreases t.len() - i,
{
    match declaration_end(t, i) {
        Some(j) => if i < j && j <= t.len() {
            declarations_fail(t, j)
        } else {
            i
        },
        None => declaration_fail(t, i),
    }
}

/// Where the rule at `i` breaks the grammar.
pub open spec fn rule_fail(t: Seq<PToken>, i: int) -> int {
    match selector_list_end(t, i) {
        Some(j) => if !kind_is(t, j, Token::BraceOpen) {
            j
        } else {
            match declarations_end(t, j + 1) {
                Some(m) => m,
                None => declarations_fail(t, j + 1),
            }
        },
        None => list_fail(t, i),
    }
}

/// Where the rules from `i` break the grammar.
pub open spec fn rules_fail(t: Seq<PToken>, i: int) -> int
    decreases t.len() - i,
{
    match rule_end(t, i) {
        Some(j) => if i < j && j <= t.len() {
            rules_fail(t, j)
        } else {
            i
        },
        None => rule_fail(t, i),
    }
}

} // verus!
