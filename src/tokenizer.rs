//! The lexer: stylesheet text to a sequence of classified tokens with spans.
//!
//! At each position the longest match among all token kinds wins; among
//! equal lengths the kind declared first wins. Whitespace is skipped, and a
//! character that starts no token is dropped.
use vstd::prelude::*;
use crate::text::{
    alpha, chars_of, digit, hex_digit, is_ascii_alpha, is_ascii_digit, is_hex_digit, is_name_char,
    is_name_start, name_char, name_start, substring,
};

verus! {

/// The kind of a token.
#[derive(Clone, Copy, Debug, PartialEq, Eq, Hash, Structural)]
pub enum Token {
    /// `!important`
    Important,
    /// `#` followed by 3 to 8 hex digits.
    HexColor,
    /// A number with a unit suffix: `1fr`, `50%`, `10vw`, `80vh`.
    Dimension,
    /// `:` followed by a name, as in `:hover`.
    PseudoClass,
    /// A double-quoted string.
    StringLiteral,
    /// A single-quoted string.
    StringLiteralSingle,
    /// `$` followed by a name.
    Variable,
    /// An optionally negative integer or decimal.
    Number,
    /// A name: a letter or `_`, then letters, digits, `_` or `-`.
    Ident,
    BraceOpen,
    BraceClose,
    Colon,
    Semicolon,
    Comma,
    Dot,
    Hash,
    Star,
    GreaterThan,
}

/// A token kind with the span `[start, end)` of character positions it covers.
#[derive(Clone, Copy, Debug, PartialEq, Eq, Structural)]
pub struct Lexeme {
    pub token: Token,
    pub start: usize,
    pub end: usize,
}

/// Character classes whose runs the lexer measures.
#[derive(Clone, Copy, Debug, PartialEq, Eq, Structural)]
pub enum CharClass {
    Digit,
    Hex,
    NameChar,
    NotDoubleQuote,
    NotSingleQuote,
}

pub open spec fn in_class(cls: CharClass, c: char) -> bool {
    match cls {
        CharClass::Digit => is_ascii_digit(c),
        CharClass::Hex => is_hex_digit(c),
        CharClass::NameChar => is_name_char(c),
        CharClass::NotDoubleQuote => c != '"',
        CharClass::NotSingleQuote => c != '\'',
    }
}

/// Length of the longest run of `cls` characters starting at `i`.
pub open spec fn run_len(s: Seq<char>, i: int, cls: CharClass) -> nat
    decreases s.len() - i,
{
    if 0 <= i < s.len() && in_class(cls, s[i]) {
        1 + run_len(s, i + 1, cls)
    } else {
        0
    }
}

pub open spec fn is_space(c: char) -> bool {
    c == ' ' || c == '\t' || c == '\n' || c == '\r' || c == '\x0C'
}

pub open spec fn char_at(s: Seq<char>, i: int, c: char) -> bool {
    0 <= i < s.len() && s[i] == c
}

/// Length of `-?[0-9]+(\.[0-9]+)?` at `i`, or 0.
pub open spec fn number_len(s: Seq<char>, i: int) -> nat {
    let j = if char_at(s, i, '-') { i + 1 } else { i };
    let d = run_len(s, j, CharClass::Digit);
    if d == 0 {
        0
    } else {
        let k = j + d;
        let f = run_len(s, k + 1, CharClass::Digit);
        if char_at(s, k, '.') && f > 0 {
            (k + 1 + f - i) as nat
        } else {
            (k - i) as nat
        }
    }
}

/// Length of a unit suffix (`fr`, `%`, `vw`, `vh`) at `k`, or 0.
pub open spec fn unit_len(s: Seq<char>, k: int) -> nat {
    if char_at(s, k, 'f') && char_at(s, k + 1, 'r') {
        2
    } else if char_at(s, k, '%') {
        1
    } else if char_at(s, k, 'v') && (char_at(s, k + 1, 'w') || char_at(s, k + 1, 'h')) {
        2
    } else {
        0
    }
}

pub open spec fn important_text() -> Seq<char> {
    seq!['!', 'i', 'm', 'p', 'o', 'r', 't', 'a', 'n', 't']
}

/// Length of the longest match of token kind `k` at position `i`, or 0.
pub open spec fn match_len(s: Seq<char>, i: int, k: Token) -> nat {
    match k {
        Token::Important => if 0 <= i && i + 10 <= s.len() && s.subrange(i, i + 10)
            == important_text() {
            10
        } else {
            0
        },
        Token::HexColor => {
            let h = run_len(s, i + 1, CharClass::Hex);
            if char_at(s, i, '#') && h >= 3 {
                if h > 8 {
                    9
                } else {
                    1 + h
                }
            } else {
                0
            }
        },
        Token::Dimension => {
            let n = number_len(s, i);
            if n > 0 && unit_len(s, i + n) > 0 {
                n + unit_len(s, i + n)
            } else {
                0
            }
        },
        Token::PseudoClass => if char_at(s, i, ':') && 0 <= i + 1 < s.len() && is_ascii_alpha(
            s[i + 1],
        ) {
            2 + run_len(s, i + 2, CharClass::NameChar)
        } else {
            0
        },
        Token::StringLiteral => {
            let r = run_len(s, i + 1, CharClass::NotDoubleQuote);
            if char_at(s, i, '"') && i + 1 + r < s.len() {
                r + 2
            } else {
                0
            }
        },
        Token::StringLiteralSingle => {
            let r = run_len(s, i + 1, CharClass::NotSingleQuote);
            if char_at(s, i, '\'') && i + 1 + r < s.len() {
                r + 2
            } else {
                0
            }
        },
        Token::Variable => if char_at(s, i, '$') && 0 <= i + 1 < s.len() && is_name_start(
            s[i + 1],
        ) {
            2 + run_len(s, i + 2, CharClass::NameChar)
        } else {
            0
        },
        Token::Number => number_len(s, i),
        Token::Ident => if 0 <= i < s.len() && is_name_start(s[i]) {
            1 + run_len(s, i + 1, CharClass::NameChar)
        } else {
            0
        },
        Token::BraceOpen => if char_at(s, i, '{') { 1 } else { 0 },
        Token::BraceClose => if char_at(s, i, '}') { 1 } else { 0 },
        Token::Colon => if char_at(s, i, ':') { 1 } else { 0 },
        Token::Semicolon => if char_at(s, i, ';') { 1 } else { 0 },
        Token::Comma => if char_at(s, i, ',') { 1 } else { 0 },
        Token::Dot => if char_at(s, i, '.') { 1 } else { 0 },
        Token::Hash => if char_at(s, i, '#') { 1 } else { 0 },
        Token::Star => if char_at(s, i, '*') { 1 } else { 0 },
        Token::GreaterThan => if char_at(s, i, '>') { 1 } else { 0 },
    }
}

pub const TOKEN_KINDS: usize = 18;

/// The token kinds in priority order.
pub open spec fn kind_seq() -> Seq<Token> {
    seq![
        Token::Important,
        Token::HexColor,
        Token::Dimension,
        Token::PseudoClass,
        Token::StringLiteral,
        Token::StringLiteralSingle,
        Token::Variable,
        Token::Number,
        Token::Ident,
        Token::BraceOpen,
        Token::BraceClose,
        Token::Colon,
        Token::Semicolon,
        Token::Comma,
        Token::Dot,
        Token::Hash,
        Token::Star,
        Token::GreaterThan,
    ]
}

/// The best match among the first `n` kinds: the longest, and among equal
/// lengths the earliest. A length of 0 means that none matched.
pub open spec fn best_among(s: Seq<char>, i: int, n: nat) -> (Token, nat)
    decreases n,
{
    if n == 0 {
        (Token::Important, 0)
    } else {
        let prev = best_among(s, i, (n - 1) as nat);
        let k = kind_seq()[n - 1];
        let l = match_len(s, i, k);
        if l > prev.1 {
            (k, l)
        } else {
            prev
        }
    }
}

pub open spec fn best_match(s: Seq<char>, i: int) -> (Token, nat) {
    best_among(s, i, 18)
}

/// The lexemes of `s` from position `i` on.
pub open spec fn lex_from(s: Seq<char>, i: int) -> Seq<Lexeme>
    decreases s.len() - i,
{
    if i < 0 || i >= s.len() {
        Seq::empty()
    } else if is_space(s[i]) {
        lex_from(s, i + 1)
    } else {
        let b = best_match(s, i);
        if b.1 == 0 || i + b.1 > s.len() {
            lex_from(s, i + 1)
        } else {
            seq![Lexeme { token: b.0, start: i as usize, end: (i + b.1) as usize }] + lex_from(
                s,
                i + b.1,
            )
        }
    }
}

pub open spec fn lex(s: Seq<char>) -> Seq<Lexeme> {
    lex_from(s, 0)
}

proof fn lemma_run_len_bound(s: Seq<char>, i: int, cls: CharClass)
    requires
        0 <= i,
    ensures
        i + run_len(s, i, cls) <= if i <= s.len() { s.len() as int } else { i },
    decreases s.len() - i,
{
    if 0 <= i < s.len() && in_class(cls, s[i]) {
        lemma_run_len_bound(s, i + 1, cls);
    }
}

proof fn lemma_match_len_bound(s: Seq<char>, i: int, k: Token)
    requires
        0 <= i < s.len(),
    ensures
        i + match_len(s, i, k) <= s.len(),
{
    lemma_run_len_bound(s, i + 1, CharClass::Hex);
    lemma_run_len_bound(s, i + 2, CharClass::NameChar);
    lemma_run_len_bound(s, i + 1, CharClass::NameChar);
    lemma_run_len_bound(s, i + 1, CharClass::NotDoubleQuote);
    lemma_run_len_bound(s, i + 1, CharClass::NotSingleQuote);
    lemma_number_len_bound(s, i);
    let n = number_len(s, i);
    if n > 0 {
        lemma_run_len_bound(s, i + n, CharClass::Digit);
    }
}

proof fn lemma_number_len_bound(s: Seq<char>, i: int)
    requires
        0 <= i < s.len(),
    ensures
        i + number_len(s, i) <= s.len(),
{
    let j = if char_at(s, i, '-') { i + 1 } else { i };
    lemma_run_len_bound(s, j, CharClass::Digit);
    let d = run_len(s, j, CharClass::Digit);
    let k = j + d;
    lemma_run_len_bound(s, k + 1, CharClass::Digit);
}

proof fn lemma_best_among_bound(s: Seq<char>, i: int, n: nat)
    requires
        0 <= i < s.len(),
        n <= 18,
    ensures
        i + best_among(s, i, n).1 <= s.len(),
    decreases n,
{
    if n > 0 {
        lemma_best_among_bound(s, i, (n - 1) as nat);
        lemma_match_len_bound(s, i, kind_seq()[n - 1]);
    }
}

fn in_class_exec(cls: CharClass, c: char) -> (r: bool)
    ensures
        r == in_class(cls, c),
{
    match cls {
        CharClass::Digit => digit(c),
        CharClass::Hex => hex_digit(c),
        CharClass::NameChar => name_char(c),
        CharClass::NotDoubleQuote => c != '"',
        CharClass::NotSingleQuote => c != '\'',
    }
}

/// The end of the run of `cls` characters that starts at `i`.
fn run_end(s: &Vec<char>, i: usize, cls: CharClass) -> (r: usize)
    ensures
        r == i + run_len(s@, i as int, cls),
        i <= s@.len() ==> r <= s@.len(),
        i > s@.len() ==> r == i,
{
    let mut j = i;
    while j < s.len() && in_class_exec(cls, s[j])
        invariant
            i <= j,
            i <= s@.len() ==> j <= s@.len(),
            i > s@.len() ==> j == i,
            run_len(s@, i as int, cls) == (j - i) + run_len(s@, j as int, cls),
        decreases s@.len() - j,
    {
        j = j + 1;
    }
    j
}

fn char_is(s: &Vec<char>, i: usize, c: char) -> (r: bool)
    ensures
        r == char_at(s@, i as int, c),
{
    i < s.len() && s[i] == c
}

fn number_end(s: &Vec<char>, i: usize) -> (r: usize)
    requires
        i < s@.len(),
    ensures
        r == i + number_len(s@, i as int),
{
    let _len = s.len();
    proof {
        lemma_number_len_bound(s@, i as int);
    }
    let j = if char_is(s, i, '-') { i + 1 } else { i };
    let k = run_end(s, j, CharClass::Digit);
    if k == j {
        return i;
    }
    if char_is(s, k, '.') {
        let f = run_end(s, k + 1, CharClass::Digit);
        if f > k + 1 {
            return f;
        }
    }
    k
}

fn unit_size(s: &Vec<char>, k: usize) -> (r: usize)
    ensures
        r == unit_len(s@, k as int),
{
    let _len = s.len();
    if char_is(s, k, 'f') && k < usize::MAX && char_is(s, k + 1, 'r') {
        2
    } else if char_is(s, k, '%') {
        1
    } else if char_is(s, k, 'v') && k < usize::MAX && (char_is(s, k + 1, 'w') || char_is(
        s,
        k + 1,
        'h',
    )) {
        2
    } else {
        0
    }
}

fn important_at(s: &Vec<char>, i: usize) -> (r: bool)
    requires
        i < s@.len(),
    ensures
        r == (i + 10 <= s@.len() && s@.subrange(i as int, i + 10) == important_text()),
{
    if s.len() - i < 10 {
        return false;
    }
    let hit = s[i] == '!' && s[i + 1] == 'i' && s[i + 2] == 'm' && s[i + 3] == 'p' && s[i + 4]
        == 'o' && s[i + 5] == 'r' && s[i + 6] == 't' && s[i + 7] == 'a' && s[i + 8] == 'n'
        && s[i + 9] == 't';
    if hit {
        assert(s@.subrange(i as int, i + 10) =~= important_text());
    } else {
        assert(s@.subrange(i as int, i + 10)[0] == s@[i as int]);
        assert(s@.subrange(i as int, i + 10)[1] == s@[i + 1]);
        assert(s@.subrange(i as int, i + 10)[2] == s@[i + 2]);
        assert(s@.subrange(i as int, i + 10)[3] == s@[i + 3]);
        assert(s@.subrange(i as int, i + 10)[4] == s@[i + 4]);
        assert(s@.subrange(i as int, i + 10)[5] == s@[i + 5]);
        assert(s@.subrange(i as int, i + 10)[6] == s@[i + 6]);
        assert(s@.subrange(i as int, i + 10)[7] == s@[i + 7]);
        assert(s@.subrange(i as int, i + 10)[8] == s@[i + 8]);
        assert(s@.subrange(i as int, i + 10)[9] == s@[i + 9]);
    }
    hit
}

fn single(s: &Vec<char>, i: usize, c: char) -> (r: usize)
    ensures
        r == (if char_at(s@, i as int, c) { 1nat } else { 0nat }),
{
    if char_is(s, i, c) { 1 } else { 0 }
}

/// Length of the longest match of kind `k` at `i`.
fn match_size(s: &Vec<char>, i: usize, k: Token) -> (r: usize)
    requires
        i < s@.len(),
    ensures
        r == match_len(s@, i as int, k),
{
    let _len = s.len();
    proof {
        lemma_match_len_bound(s@, i as int, k);
        lemma_run_len_bound(s@, i + 1, CharClass::Hex);
        lemma_run_len_bound(s@, i + 1, CharClass::NotDoubleQuote);
        lemma_run_len_bound(s@, i + 1, CharClass::NotSingleQuote);
        lemma_run_len_bound(s@, i + 1, CharClass::NameChar);
        lemma_run_len_bound(s@, i + 2, CharClass::NameChar);
        lemma_number_len_bound(s@, i as int);
    }
    match k {
        Token::Important => if important_at(s, i) { 10 } else { 0 },
        Token::HexColor => {
            if !char_is(s, i, '#') {
                return 0;
            }
            let h = run_end(s, i + 1, CharClass::Hex) - (i + 1);
            if h >= 3 {
                if h > 8 { 9 } else { 1 + h }
            } else {
                0
            }
        },
        Token::Dimension => {
            let n = number_end(s, i) - i;
            if n == 0 {
                return 0;
            }
            let u = unit_size(s, i + n);
            if u > 0 {
                n + u
            } else {
                0
            }
        },
        Token::PseudoClass => {
            if char_is(s, i, ':') && i + 1 < s.len() && alpha(s[i + 1]) {
                run_end(s, i + 2, CharClass::NameChar) - i
            } else {
                0
            }
        },
        Token::StringLiteral => {
            if !char_is(s, i, '"') {
                return 0;
            }
            let e = run_end(s, i + 1, CharClass::NotDoubleQuote);
            if e < s.len() {
                e + 1 - i
            } else {
                0
            }
        },
        Token::StringLiteralSingle => {
            if !char_is(s, i, '\'') {
                return 0;
            }
            let e = run_end(s, i + 1, CharClass::NotSingleQuote);
            if e < s.len() {
                e + 1 - i
            } else {
                0
            }
        },
        Token::Variable => {
            if char_is(s, i, '$') && i + 1 < s.len() && name_start(s[i + 1]) {
                run_end(s, i + 2, CharClass::NameChar) - i
            } else {
                0
            }
        },
        Token::Number => number_end(s, i) - i,
        Token::Ident => {
            if name_start(s[i]) {
                run_end(s, i + 1, CharClass::NameChar) - i
            } else {
                0
            }
        },
        Token::BraceOpen => single(s, i, '{'),
        Token::BraceClose => single(s, i, '}'),
        Token::Colon => single(s, i, ':'),
        Token::Semicolon => single(s, i, ';'),
        Token::Comma => single(s, i, ','),
        Token::Dot => single(s, i, '.'),
        Token::Hash => single(s, i, '#'),
        Token::Star => single(s, i, '*'),
        Token::GreaterThan => single(s, i, '>'),
    }
}

fn kind_at(n: usize) -> (r: Token)
    requires
        n < 18,
    ensures
        r == kind_seq()[n as int],
{
    match n {
        0 => Token::Important,
        1 => Token::HexColor,
        2 => Token::Dimension,
        3 => Token::PseudoClass,
        4 => Token::StringLiteral,
        5 => Token::StringLiteralSingle,
        6 => Token::Variable,
        7 => Token::Number,
        8 => Token::Ident,
        9 => Token::BraceOpen,
        10 => Token::BraceClose,
        11 => Token::Colon,
        12 => Token::Semicolon,
        13 => Token::Comma,
        14 => Token::Dot,
        15 => Token::Hash,
        16 => Token::Star,
        _ => Token::GreaterThan,
    }
}

/// The winning token kind at `i` and its length (0 when nothing matches).
pub fn best_token(s: &Vec<char>, i: usize) -> (r: (Token, usize))
    requires
        i < s@.len(),
    ensures
        r.0 == best_match(s@, i as int).0,
        r.1 == best_match(s@, i as int).1,
        i + r.1 <= s@.len(),
{
    let mut best: (Token, usize) = (Token::Important, 0);
    let mut n: usize = 0;
    while n < TOKEN_KINDS
        invariant
            n <= 18,
            i < s@.len(),
            best.0 == best_among(s@, i as int, n as nat).0,
            best.1 == best_among(s@, i as int, n as nat).1,
        decreases 18 - n,
    {
        let k = kind_at(n);
        let l = match_size(s, i, k);
        if l > best.1 {
            best = (k, l);
        }
        n = n + 1;
    }
    proof {
        lemma_best_among_bound(s@, i as int, 18);
    }
    best
}

fn space(c: char) -> (r: bool)
    ensures
        r == is_space(c),
{
    c == ' ' || c == '\t' || c == '\n' || c == '\r' || c == '\x0C'
}

/// Split `s` into lexemes with their spans.
pub fn lex_chars(s: &Vec<char>) -> (r: Vec<Lexeme>)
    ensures
        r@ == lex(s@),
{
    let mut out: Vec<Lexeme> = Vec::new();
    let mut i: usize = 0;
    while i < s.len()
        invariant
            i <= s@.len(),
            out@ + lex_from(s@, i as int) == lex(s@),
        decreases s@.len() - i,
    {
        if space(s[i]) {
            i = i + 1;
        } else {
            let (k, l) = best_token(s, i);
            if l == 0 {
                i = i + 1;
            } else {
                let x = Lexeme { token: k, start: i, end: i + l };
                proof {
                    assert(lex_from(s@, i as int) == seq![x] + lex_from(s@, i + l));
                    assert(out@.push(x) + lex_from(s@, i + l) =~= out@ + (seq![x] + lex_from(
                        s@,
                        i + l,
                    )));
                }
                out.push(x);
                i = i + l;
            }
        }
    }
    proof {
        assert(out@ + lex_from(s@, i as int) =~= out@);
    }
    out
}

/// Tokenize `input`, pairing each token kind with the text it covers.
pub fn tokenize(input: &str) -> (r: Vec<(Token, String)>)
    ensures
        r@.len() == lex(input@).len(),
        forall|j: int|
            0 <= j < r@.len() ==> (#[trigger] r@[j]).0 == lex(input@)[j].token && r@[j].1@
                == input@.subrange(lex(input@)[j].start as int, lex(input@)[j].end as int),
{
    let s = chars_of(input);
    let lexemes = lex_chars(&s);
    let _len = s.len();
    proof {
        lemma_lex_bounds(s@, 0);
    }
    let mut out: Vec<(Token, String)> = Vec::new();
    let mut j: usize = 0;
    while j < lexemes.len()
        invariant
            s@ == input@,
            lexemes@ == lex(s@),
            j <= lexemes@.len(),
            out@.len() == j,
            forall|t: int| 0 <= t < lexemes@.len() ==> lexeme_in_bounds(#[trigger] lexemes@[t], s@.len()),
            forall|t: int|
                0 <= t < j ==> (#[trigger] out@[t]).0 == lexemes@[t].token && out@[t].1@
                    == s@.subrange(lexemes@[t].start as int, lexemes@[t].end as int),
        decreases lexemes@.len() - j,
    {
        let x = lexemes[j];
        let text = substring(&s, x.start, x.end);
        out.push((x.token, text));
        j = j + 1;
    }
    out
}

pub open spec fn lexeme_in_bounds(x: Lexeme, n: nat) -> bool {
    x.start < x.end <= n
}

pub(crate) proof fn lemma_lex_bounds(s: Seq<char>, i: int)
    requires
        0 <= i,
        s.len() <= usize::MAX,
    ensures
        forall|t: int|
            0 <= t < lex_from(s, i).len() ==> lexeme_in_bounds(#[trigger] lex_from(s, i)[t], s.len()),
    decreases s.len() - i,
{
    if 0 <= i < s.len() {
        if is_space(s[i]) {
            lemma_lex_bounds(s, i + 1);
            assert(lex_from(s, i) == lex_from(s, i + 1));
        } else {
            let b = best_match(s, i);
            lemma_best_among_bound(s, i, 18);
            if b.1 == 0 || i + b.1 > s.len() {
                lemma_lex_bounds(s, i + 1);
                assert(lex_from(s, i) == lex_from(s, i + 1));
            } else {
                lemma_lex_bounds(s, i + b.1);
                let x = Lexeme { token: b.0, start: i as usize, end: (i + b.1) as usize };
                let rest = lex_from(s, i + b.1);
                assert forall|t: int| 0 <= t < lex_from(s, i).len() implies lexeme_in_bounds(
                    #[trigger] lex_from(s, i)[t],
                    s.len(),
                ) by {
                    assert(lex_from(s, i) == seq![x] + rest);
                    if t > 0 {
                        assert(lex_from(s, i)[t] == rest[t - 1]);
                    } else {
                        assert(lex_from(s, i)[t] == x);
                    }
                }
            }
        }
    }
}

} // verus!
