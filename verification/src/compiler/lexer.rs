//! The lexer: turns source text into a sequence of tokens, each carrying
//! the character offset at which it starts.
//!
//! Tokens: identifiers, decimal / hexadecimal / binary integer literals,
//! float and scientific-notation literals, double-quoted string literals
//! with backslash escapes, keywords, and punctuation. Comments run from
//! `//` to the end of the line.
//!
//! The lexical grammar is defined by the spec function [`lex_spec`]:
//! [`tokenize`] succeeds exactly when `lex_spec` accepts the text, and then
//! returns exactly the token sequence `lex_spec` gives.

use vstd::prelude::*;

use crate::numbers::{all_digits, num_val, parse_digits};
use crate::runtime::error::ParseError;
use crate::runtime::types::floats::float_of_text;
use crate::runtime::types::utilities::chars_to_string;

verus! {

/// One lexical token.
pub enum Token {
    Identifier(String),
    Integer(i64),
    Float(u64),
    Str(String),
    True,
    False,
    Nil,
    If,
    Elseif,
    Else,
    For,
    While,
    Loop,
    Return,
    Break,
    Continue,
    Fn,
    And,
    Or,
    LParen,
    RParen,
    LBrace,
    RBrace,
    Comma,
    Semicolon,
    Assign,
    Eq,
    Ne,
    Lt,
    Le,
    Gt,
    Ge,
    Plus,
    Minus,
    Star,
    Slash,
    Percent,
    Bang,
}

/// The mathematical model of one token: text becomes a character sequence.
pub ghost enum TokenV {
    Identifier(Seq<char>),
    Integer(i64),
    Float(u64),
    Str(Seq<char>),
    True,
    False,
    Nil,
    If,
    Elseif,
    Else,
    For,
    While,
    Loop,
    Return,
    Break,
    Continue,
    Fn,
    And,
    Or,
    LParen,
    RParen,
    LBrace,
    RBrace,
    Comma,
    Semicolon,
    Assign,
    Eq,
    Ne,
    Lt,
    Le,
    Gt,
    Ge,
    Plus,
    Minus,
    Star,
    Slash,
    Percent,
    Bang,
}

/// The model of one token.
pub open spec fn token_view(t: Token) -> TokenV {
    match t {
        Token::Identifier(s) => TokenV::Identifier(s@),
        Token::Integer(x) => TokenV::Integer(x),
        Token::Float(x) => TokenV::Float(x),
        Token::Str(s) => TokenV::Str(s@),
        Token::True => TokenV::True,
        Token::False => TokenV::False,
        Token::Nil => TokenV::Nil,
        Token::If => TokenV::If,
        Token::Elseif => TokenV::Elseif,
        Token::Else => TokenV::Else,
        Token::For => TokenV::For,
        Token::While => TokenV::While,
        Token::Loop => TokenV::Loop,
        Token::Return => TokenV::Return,
        Token::Break => TokenV::Break,
        Token::Continue => TokenV::Continue,
        Token::Fn => TokenV::Fn,
        Token::And => TokenV::And,
        Token::Or => TokenV::Or,
        Token::LParen => TokenV::LParen,
        Token::RParen => TokenV::RParen,
        Token::LBrace => TokenV::LBrace,
        Token::RBrace => TokenV::RBrace,
        Token::Comma => TokenV::Comma,
        Token::Semicolon => TokenV::Semicolon,
        Token::Assign => TokenV::Assign,
        Token::Eq => TokenV::Eq,
        Token::Ne => TokenV::Ne,
        Token::Lt => TokenV::Lt,
        Token::Le => TokenV::Le,
        Token::Gt => TokenV::Gt,
        Token::Ge => TokenV::Ge,
        Token::Plus => TokenV::Plus,
        Token::Minus => TokenV::Minus,
        Token::Star => TokenV::Star,
        Token::Slash => TokenV::Slash,
        Token::Percent => TokenV::Percent,
        Token::Bang => TokenV::Bang,
    }
}

/// The model of a token sequence, without the offsets.
pub open spec fn tokens_view(s: Seq<(Token, usize)>) -> Seq<TokenV>
    decreases s,
{
    if s.len() == 0 {
        Seq::empty()
    } else {
        seq![token_view(s[0].0)] + tokens_view(s.drop_first())
    }
}

/// The model of a token sequence has the same length, and each of its
/// elements is the model of the corresponding token.
pub proof fn lemma_tokens_view(s: Seq<(Token, usize)>)
    ensures
        tokens_view(s).len() == s.len(),
        forall|i: int| 0 <= i < s.len() ==> tokens_view(s)[i] == token_view(s[i].0),
    decreases s,
{
    if s.len() > 0 {
        lemma_tokens_view(s.drop_first());
    }
}

/// Names what the unescape crate computes for a piece of text: the text
/// with its backslash escape sequences rewritten to the characters they
/// denote, or nothing if an escape sequence is malformed.
pub uninterp spec fn unescaped_of(s: Seq<char>) -> Option<Seq<char>>;

/// Relies on `unescape::unescape`: rewrites backslash escape sequences to
/// the characters they denote and rejects malformed ones; the result
/// depends on the text alone.
#[verifier::external_body]
fn unescape_text(s: &str) -> (r: Option<String>)
    ensures
        match r {
            Some(t) => unescaped_of(s@) == Some(t@),
            None => unescaped_of(s@) is None,
        },
{
    unescape::unescape(s)
}

/// Whether the character can start an identifier.
pub open spec fn sp_is_ident_start(c: char) -> bool {
    (97 <= c as u32 && c as u32 <= 122) || (65 <= c as u32 && c as u32 <= 90) || c as u32 == 95
}

/// Whether the character can continue an identifier.
pub open spec fn sp_is_ident_char(c: char) -> bool {
    sp_is_ident_start(c) || sp_is_digit(c)
}

/// Whether the character is a decimal digit.
pub open spec fn sp_is_digit(c: char) -> bool {
    48 <= c as u32 && c as u32 <= 57
}

/// Whether the character is a hexadecimal digit.
pub open spec fn sp_is_hex_digit(c: char) -> bool {
    sp_is_digit(c) || (97 <= c as u32 && c as u32 <= 102) || (65 <= c as u32 && c as u32 <= 70)
}

/// Whether the character is whitespace.
pub open spec fn sp_is_space(c: char) -> bool {
    c == ' ' || c == '\t' || c == '\r' || c == '\n'
}

fn is_ident_start(c: char) -> (r: bool)
    ensures
        r == sp_is_ident_start(c),
{
    let x = c as u32;
    (97 <= x && x <= 122) || (65 <= x && x <= 90) || x == 95
}

fn is_ident_char(c: char) -> (r: bool)
    ensures
        r == sp_is_ident_char(c),
{
    let x = c as u32;
    (97 <= x && x <= 122) || (65 <= x && x <= 90) || x == 95 || (48 <= x && x <= 57)
}

fn is_digit(c: char) -> (r: bool)
    ensures
        r == sp_is_digit(c),
{
    let x = c as u32;
    48 <= x && x <= 57
}

fn is_space(c: char) -> (r: bool)
    ensures
        r == sp_is_space(c),
{
    c == ' ' || c == '\t' || c == '\r' || c == '\n'
}

/// The end of the run of digits (in the class the radix chooses) that
/// begins at `i`.
pub open spec fn sp_scan_digits(chars: Seq<char>, i: nat, radix: u64) -> nat
    decreases chars.len() - i,
{
    if i >= chars.len() {
        i
    } else {
        let ok = if radix == 16 {
            sp_is_hex_digit(chars[i as int])
        } else if radix == 2 {
            chars[i as int] == '0' || chars[i as int] == '1'
        } else {
            sp_is_digit(chars[i as int])
        };
        if ok {
            sp_scan_digits(chars, i + 1, radix)
        } else {
            i
        }
    }
}

/// Scan forward from `i` while the characters satisfy the digit class
/// chosen by `radix`.
fn scan_digits(chars: &Vec<char>, i: usize, radix: u64) -> (r: usize)
    requires
        i <= chars@.len(),
    ensures
        i <= r <= chars@.len(),
        r == sp_scan_digits(chars@, i as nat, radix),
    decreases chars@.len() - i,
{
    if i < chars.len() {
        let c = chars[i];
        let ok = if radix == 16 {
            let x = c as u32;
            (48 <= x && x <= 57) || (97 <= x && x <= 102) || (65 <= x && x <= 70)
        } else if radix == 2 {
            c == '0' || c == '1'
        } else {
            is_digit(c)
        };
        if ok {
            scan_digits(chars, i + 1, radix)
        } else {
            i
        }
    } else {
        i
    }
}

/// The end of the identifier run that begins at `i`.
pub open spec fn sp_scan_ident(chars: Seq<char>, i: nat) -> nat
    decreases chars.len() - i,
{
    if i >= chars.len() {
        i
    } else if sp_is_ident_char(chars[i as int]) {
        sp_scan_ident(chars, i + 1)
    } else {
        i
    }
}

/// Scan forward from `i` while the characters can continue an identifier.
fn scan_ident(chars: &Vec<char>, i: usize) -> (r: usize)
    requires
        i <= chars@.len(),
    ensures
        i <= r <= chars@.len(),
        r == sp_scan_ident(chars@, i as nat),
    decreases chars@.len() - i,
{
    if i < chars.len() && is_ident_char(chars[i]) {
        scan_ident(chars, i + 1)
    } else {
        i
    }
}

/// The first position at or after `i` that holds a line break, or the end
/// of the text.
pub open spec fn sp_skip_comment(chars: Seq<char>, i: nat) -> nat
    decreases chars.len() - i,
{
    if i >= chars.len() {
        i
    } else if chars[i as int] == '\n' {
        i
    } else {
        sp_skip_comment(chars, i + 1)
    }
}

/// Scan forward from `i` to the next line break or the end of the text.
fn skip_comment(chars: &Vec<char>, i: usize) -> (r: usize)
    requires
        i <= chars@.len(),
    ensures
        i <= r <= chars@.len(),
        r == sp_skip_comment(chars@, i as nat),
    decreases chars@.len() - i,
{
    if i < chars.len() && chars[i] != '\n' {
        skip_comment(chars, i + 1)
    } else {
        i
    }
}

/// The position of the closing quote of a string literal whose content
/// begins at `i`; a backslash makes the following character literal.
/// Nothing if the literal never closes.
pub open spec fn sp_scan_string(chars: Seq<char>, i: nat) -> Option<nat>
    decreases chars.len() - i,
{
    if i >= chars.len() {
        None
    } else if chars[i as int] == '"' {
        Some(i)
    } else if chars[i as int] == '\\' {
        if i + 1 >= chars.len() {
            None
        } else {
            sp_scan_string(chars, i + 2)
        }
    } else {
        sp_scan_string(chars, i + 1)
    }
}

/// Find the closing quote of a string literal whose content begins at `i`.
fn scan_string(chars: &Vec<char>, i: usize) -> (r: Result<usize, ParseError>)
    requires
        i <= chars@.len(),
    ensures
        match r {
            Ok(p) => i <= p < chars@.len() && sp_scan_string(chars@, i as nat) == Some(p as nat),
            Err(_) => sp_scan_string(chars@, i as nat) is None,
        },
    decreases chars@.len() - i,
{
    if i >= chars.len() {
        Err(lex_error(i, "a closing quote"))
    } else if chars[i] == '"' {
        Ok(i)
    } else if chars[i] == '\\' {
        if i + 1 >= chars.len() {
            Err(lex_error(i, "an escape sequence"))
        } else {
            scan_string(chars, i + 2)
        }
    } else {
        scan_string(chars, i + 1)
    }
}

/// The keyword token of a word, or the word as an identifier.
pub open spec fn sp_word_token(s: Seq<char>) -> TokenV {
    if s == "true"@ {
        TokenV::True
    } else if s == "false"@ {
        TokenV::False
    } else if s == "nil"@ {
        TokenV::Nil
    } else if s == "if"@ {
        TokenV::If
    } else if s == "elseif"@ {
        TokenV::Elseif
    } else if s == "else"@ {
        TokenV::Else
    } else if s == "for"@ {
        TokenV::For
    } else if s == "while"@ {
        TokenV::While
    } else if s == "loop"@ {
        TokenV::Loop
    } else if s == "return"@ {
        TokenV::Return
    } else if s == "break"@ {
        TokenV::Break
    } else if s == "continue"@ {
        TokenV::Continue
    } else if s == "fn"@ {
        TokenV::Fn
    } else if s == "and"@ {
        TokenV::And
    } else if s == "or"@ {
        TokenV::Or
    } else {
        TokenV::Identifier(s)
    }
}

/// The keyword or identifier token for a word.
fn word_token(text: String) -> (r: Token)
    ensures
        token_view(r) == sp_word_token(text@),
{
    if is_word(&text, "true") {
        Token::True
    } else if is_word(&text, "false") {
        Token::False
    } else if is_word(&text, "nil") {
        Token::Nil
    } else if is_word(&text, "if") {
        Token::If
    } else if is_word(&text, "elseif") {
        Token::Elseif
    } else if is_word(&text, "else") {
        Token::Else
    } else if is_word(&text, "for") {
        Token::For
    } else if is_word(&text, "while") {
        Token::While
    } else if is_word(&text, "loop") {
        Token::Loop
    } else if is_word(&text, "return") {
        Token::Return
    } else if is_word(&text, "break") {
        Token::Break
    } else if is_word(&text, "continue") {
        Token::Continue
    } else if is_word(&text, "fn") {
        Token::Fn
    } else if is_word(&text, "and") {
        Token::And
    } else if is_word(&text, "or") {
        Token::Or
    } else {
        Token::Identifier(text)
    }
}

/// Whether the text is the given word.
fn is_word(text: &String, word: &str) -> (r: bool)
    ensures
        r == (text@ == word@),
{
    let owned = word.to_owned();
    *text == owned
}

/// A syntax error at the given position.
fn lex_error(position: usize, expected: &str) -> (r: ParseError) {
    ParseError { position, expected: expected.to_owned() }
}

/// The value of the digit characters `chars[from..to]` in the given radix,
/// if the range is non-empty, all digits, and within a `u64`.
pub open spec fn sp_parse_digits(chars: Seq<char>, from: nat, to: nat, radix: nat) -> Option<
    u64,
> {
    let sub = chars.subrange(from as int, to as int);
    if from < to && all_digits(sub, radix) && num_val(sub, radix) <= u64::MAX {
        Some(num_val(sub, radix) as u64)
    } else {
        None
    }
}

/// The token of the number literal that begins at `i` (a digit), and the
/// position after it: a hexadecimal or binary integer after a `0x`/`0b`
/// prefix; otherwise decimal digits with an optional fraction and an
/// optional exponent making a float. Nothing on malformed or out-of-range
/// literals.
pub open spec fn sp_lex_number(chars: Seq<char>, i: nat) -> Option<(TokenV, nat)> {
    let len = chars.len();
    if chars[i as int] == '0' && i + 1 < len && (chars[(i + 1) as int] == 'x' || chars[(i + 1) as int] == 'b') {
        let radix: u64 = if chars[(i + 1) as int] == 'x' {
            16
        } else {
            2
        };
        let end = sp_scan_digits(chars, i + 2, radix);
        if end == i + 2 {
            None
        } else {
            match sp_parse_digits(chars, i + 2, end, radix as nat) {
                None => None,
                Some(v) => if v > 0x7fff_ffff_ffff_ffffu64 {
                    None
                } else {
                    Some((TokenV::Integer(v as i64), end))
                },
            }
        }
    } else {
        let int_end = sp_scan_digits(chars, i, 10);
        let frac = int_end < len && chars[int_end as int] == '.' && int_end + 1 < len
            && sp_is_digit(chars[(int_end + 1) as int]);
        let end1: nat = if frac {
            sp_scan_digits(chars, int_end + 1, 10)
        } else {
            int_end
        };
        let has_e = end1 < len && (chars[end1 as int] == 'e' || chars[end1 as int] == 'E');
        let exp_start: nat = if has_e && end1 + 1 < len && (chars[(end1 + 1) as int] == '+'
            || chars[(end1 + 1) as int] == '-') {
            end1 + 2
        } else {
            end1 + 1
        };
        let exp_end = sp_scan_digits(chars, exp_start, 10);
        let exp = has_e && exp_end > exp_start;
        let is_float = frac || exp;
        let end2: nat = if exp {
            exp_end
        } else {
            end1
        };
        if is_float {
            if end2 - i >= 0x2000_0000 {
                None
            } else {
                match float_of_text(chars.subrange(i as int, end2 as int)) {
                    Some(bits) => Some((TokenV::Float(bits), end2)),
                    None => None,
                }
            }
        } else {
            match sp_parse_digits(chars, i, int_end, 10) {
                None => None,
                Some(v) => if v > 0x7fff_ffff_ffff_ffffu64 {
                    None
                } else {
                    Some((TokenV::Integer(v as i64), int_end))
                },
            }
        }
    }
}

/// Lex an integer or float literal starting at position `i`.
fn lex_number(chars: &Vec<char>, i: usize) -> (r: Result<(Token, usize), ParseError>)
    requires
        i < chars@.len(),
        sp_is_digit(chars@[i as int]),
    ensures
        match r {
            Ok((t, p)) => i < p <= chars@.len() && sp_lex_number(chars@, i as nat) == Some(
                (token_view(t), p as nat),
            ),
            Err(_) => sp_lex_number(chars@, i as nat) is None,
        },
{
    let len = chars.len();
    // Hexadecimal and binary literals.
    if chars[i] == '0' && i + 1 < len && (chars[i + 1] == 'x' || chars[i + 1] == 'b') {
        let radix: u64 = if chars[i + 1] == 'x' {
            16
        } else {
            2
        };
        let end = scan_digits(chars, i + 2, radix);
        if end == i + 2 {
            return Err(lex_error(i, "digits after the integer literal prefix"));
        }
        let value = match parse_digits(chars, i + 2, end, radix) {
            Some(v) => v,
            None => {
                return Err(lex_error(i, "an integer literal that fits in 64 bits"));
            },
        };
        if value > 0x7fff_ffff_ffff_ffffu64 {
            return Err(lex_error(i, "an integer literal that fits in 63 bits"));
        }
        return Ok((Token::Integer(value as i64), end));
    }
    // Decimal digits, then an optional fraction and an optional exponent.
    let int_end = scan_digits(chars, i, 10);
    let mut end = int_end;
    let mut is_float = false;
    if end < len && chars[end] == '.' && end + 1 < len && is_digit(chars[end + 1]) {
        is_float = true;
        end = scan_digits(chars, end + 1, 10);
    }
    if end < len && (chars[end] == 'e' || chars[end] == 'E') {
        let mut exp_start = end + 1;
        if exp_start < len && (chars[exp_start] == '+' || chars[exp_start] == '-') {
            exp_start = exp_start + 1;
        }
        let exp_end = scan_digits(chars, exp_start, 10);
        if exp_end > exp_start {
            is_float = true;
            end = exp_end;
        }
    }
    if is_float {
        if end - i >= 0x2000_0000 {
            return Err(lex_error(i, "a shorter float literal"));
        }
        let text = chars_substring(chars, i, end);
        match crate::runtime::types::floats::float_parse(text.as_str()) {
            Some(bits) => Ok((Token::Float(bits), end)),
            None => Err(lex_error(i, "a well-formed float literal")),
        }
    } else {
        let value = match parse_digits(chars, i, int_end, 10) {
            Some(v) => v,
            None => {
                return Err(lex_error(i, "an integer literal that fits in 64 bits"));
            },
        };
        if value > 0x7fff_ffff_ffff_ffffu64 {
            return Err(lex_error(i, "an integer literal that fits in 63 bits"));
        }
        Ok((Token::Integer(value as i64), int_end))
    }
}

/// The text of the characters `chars[from..to]`.
fn chars_substring(chars: &Vec<char>, from: usize, to: usize) -> (r: String)
    requires
        from <= to <= chars@.len(),
    ensures
        r@ == chars@.subrange(from as int, to as int),
{
    let mut v: Vec<char> = Vec::new();
    let mut k: usize = from;
    while k < to
        invariant
            from <= k <= to <= chars@.len(),
            v@ == chars@.subrange(from as int, k as int),
        decreases to - k,
    {
        v.push(chars[k]);
        proof {
            assert(v@ =~= chars@.subrange(from as int, k + 1));
        }
        k = k + 1;
    }
    chars_to_string(v)
}

/// The punctuation or operator token at `i`, with the position after it;
/// two-character operators are preferred over their one-character prefixes.
/// Nothing if the character begins no token.
pub open spec fn sp_punct(chars: Seq<char>, i: nat) -> Option<(TokenV, nat)> {
    let c = chars[i as int];
    let len = chars.len();
    if c == '(' {
        Some((TokenV::LParen, (i + 1) as nat))
    } else if c == ')' {
        Some((TokenV::RParen, (i + 1) as nat))
    } else if c == '{' {
        Some((TokenV::LBrace, (i + 1) as nat))
    } else if c == '}' {
        Some((TokenV::RBrace, (i + 1) as nat))
    } else if c == ',' {
        Some((TokenV::Comma, (i + 1) as nat))
    } else if c == ';' {
        Some((TokenV::Semicolon, (i + 1) as nat))
    } else if c == '+' {
        Some((TokenV::Plus, (i + 1) as nat))
    } else if c == '-' {
        Some((TokenV::Minus, (i + 1) as nat))
    } else if c == '*' {
        Some((TokenV::Star, (i + 1) as nat))
    } else if c == '/' {
        Some((TokenV::Slash, (i + 1) as nat))
    } else if c == '%' {
        Some((TokenV::Percent, (i + 1) as nat))
    } else if c == '=' {
        if i + 1 < len && chars[(i + 1) as int] == '=' {
            Some((TokenV::Eq, (i + 2) as nat))
        } else {
            Some((TokenV::Assign, (i + 1) as nat))
        }
    } else if c == '!' {
        if i + 1 < len && chars[(i + 1) as int] == '=' {
            Some((TokenV::Ne, (i + 2) as nat))
        } else {
            Some((TokenV::Bang, (i + 1) as nat))
        }
    } else if c == '<' {
        if i + 1 < len && chars[(i + 1) as int] == '=' {
            Some((TokenV::Le, (i + 2) as nat))
        } else {
            Some((TokenV::Lt, (i + 1) as nat))
        }
    } else if c == '>' {
        if i + 1 < len && chars[(i + 1) as int] == '=' {
            Some((TokenV::Ge, (i + 2) as nat))
        } else {
            Some((TokenV::Gt, (i + 1) as nat))
        }
    } else {
        None
    }
}

/// Lex the punctuation or operator token at `i`.
fn lex_punct(chars: &Vec<char>, i: usize) -> (r: Result<(Token, usize), ParseError>)
    requires
        i < chars@.len(),
    ensures
        match r {
            Ok((t, p)) => i < p <= chars@.len() && sp_punct(chars@, i as nat) == Some(
                (token_view(t), p as nat),
            ),
            Err(_) => sp_punct(chars@, i as nat) is None,
        },
{
    let len = chars.len();
    let c = chars[i];
    if c == '(' {
        Ok((Token::LParen, i + 1))
    } else if c == ')' {
        Ok((Token::RParen, i + 1))
    } else if c == '{' {
        Ok((Token::LBrace, i + 1))
    } else if c == '}' {
        Ok((Token::RBrace, i + 1))
    } else if c == ',' {
        Ok((Token::Comma, i + 1))
    } else if c == ';' {
        Ok((Token::Semicolon, i + 1))
    } else if c == '+' {
        Ok((Token::Plus, i + 1))
    } else if c == '-' {
        Ok((Token::Minus, i + 1))
    } else if c == '*' {
        Ok((Token::Star, i + 1))
    } else if c == '/' {
        Ok((Token::Slash, i + 1))
    } else if c == '%' {
        Ok((Token::Percent, i + 1))
    } else if c == '=' {
        if i + 1 < len && chars[i + 1] == '=' {
            Ok((Token::Eq, i + 2))
        } else {
            Ok((Token::Assign, i + 1))
        }
    } else if c == '!' {
        if i + 1 < len && chars[i + 1] == '=' {
            Ok((Token::Ne, i + 2))
        } else {
            Ok((Token::Bang, i + 1))
        }
    } else if c == '<' {
        if i + 1 < len && chars[i + 1] == '=' {
            Ok((Token::Le, i + 2))
        } else {
            Ok((Token::Lt, i + 1))
        }
    } else if c == '>' {
        if i + 1 < len && chars[i + 1] == '=' {
            Ok((Token::Ge, i + 2))
        } else {
            Ok((Token::Gt, i + 1))
        }
    } else {
        Err(lex_error(i, "a token"))
    }
}

/// The lexical grammar: the token sequence of the text from position `i`
/// on, or nothing if the text is not lexable. Whitespace separates tokens
/// and `//` comments run to the end of the line.
pub open spec fn lex_spec(chars: Seq<char>, i: nat) -> Option<Seq<TokenV>>
    decreases chars.len() - i,
{
    let len = chars.len();
    if i >= len {
        Some(Seq::empty())
    } else {
        let c = chars[i as int];
        if sp_is_space(c) {
            lex_spec(chars, i + 1)
        } else if c == '/' && i + 1 < len && chars[(i + 1) as int] == '/' {
            let j = sp_skip_comment(chars, i + 2);
            let next: nat = if i < j <= len {
                j
            } else {
                i + 1
            };
            lex_spec(chars, next)
        } else if sp_is_ident_start(c) {
            let j = sp_scan_ident(chars, i + 1);
            let next: nat = if i < j <= len {
                j
            } else {
                i + 1
            };
            match lex_spec(chars, next) {
                Some(rest) => Some(
                    seq![sp_word_token(chars.subrange(i as int, next as int))] + rest,
                ),
                None => None,
            }
        } else if sp_is_digit(c) {
            match sp_lex_number(chars, i) {
                None => None,
                Some((t, end)) => {
                    let next: nat = if i < end <= len {
                        end
                    } else {
                        i + 1
                    };
                    match lex_spec(chars, next) {
                        Some(rest) => Some(seq![t] + rest),
                        None => None,
                    }
                },
            }
        } else if c == '"' {
            match sp_scan_string(chars, i + 1) {
                None => None,
                Some(close) => match unescaped_of(
                    chars.subrange((i + 1) as int, close as int),
                ) {
                    None => None,
                    Some(text) => {
                        let next: nat = if i < close + 1 <= len {
                            close + 1
                        } else {
                            i + 1
                        };
                        match lex_spec(chars, next) {
                            Some(rest) => Some(seq![TokenV::Str(text)] + rest),
                            None => None,
                        }
                    },
                },
            }
        } else {
            match sp_punct(chars, i) {
                None => None,
                Some((t, p)) => {
                    let next: nat = if i < p <= len {
                        p
                    } else {
                        i + 1
                    };
                    match lex_spec(chars, next) {
                        Some(rest) => Some(seq![t] + rest),
                        None => None,
                    }
                },
            }
        }
    }
}

/// Turn source text into tokens, each with the character offset at which it
/// starts. Succeeds exactly when [`lex_spec`] accepts the text, with
/// exactly the tokens it gives.
pub fn tokenize(chars: &Vec<char>) -> (r: Result<Vec<(Token, usize)>, ParseError>)
    ensures
        match r {
            Ok(ts) => lex_spec(chars@, 0) == Some(tokens_view(ts@)),
            Err(_) => lex_spec(chars@, 0) is None,
        },
{
    let mut tokens: Vec<(Token, usize)> = Vec::new();
    let len = chars.len();
    let mut i: usize = 0;
    proof {
        assert(tokens_view(tokens@) =~= Seq::<TokenV>::empty());
    }
    while i < len
        invariant
            i <= len,
            len == chars@.len(),
            lex_spec(chars@, 0) == (match lex_spec(chars@, i as nat) {
                Some(rest) => Some(tokens_view(tokens@) + rest),
                None => None::<Seq<TokenV>>,
            }),
        decreases len - i,
    {
        let ghost pre_tokens = tokens@;
        let c = chars[i];
        if is_space(c) {
            i = i + 1;
        } else if c == '/' && i + 1 < len && chars[i + 1] == '/' {
            let j = skip_comment(chars, i + 2);
            proof {
                assert(lex_spec(chars@, i as nat) == lex_spec(chars@, j as nat));
            }
            i = j;
        } else if is_ident_start(c) {
            let j = scan_ident(chars, i + 1);
            let text = chars_substring(chars, i, j);
            let token = word_token(text);
            tokens.push((token, i));
            proof {
                lemma_cons_token(pre_tokens, tokens@, token_view(token));
                assert(lex_spec(chars@, i as nat) == (match lex_spec(chars@, j as nat) {
                    Some(rest) => Some(seq![token_view(token)] + rest),
                    None => None::<Seq<TokenV>>,
                }));
                lemma_regroup(pre_tokens, token_view(token), chars@, j as nat);
            }
            i = j;
        } else if is_digit(c) {
            let (token, end) = match lex_number(chars, i) {
                Ok(x) => x,
                Err(e) => {
                    return Err(e);
                },
            };
            tokens.push((token, i));
            proof {
                lemma_cons_token(pre_tokens, tokens@, token_view(token));
                assert(lex_spec(chars@, i as nat) == (match lex_spec(chars@, end as nat) {
                    Some(rest) => Some(seq![token_view(token)] + rest),
                    None => None::<Seq<TokenV>>,
                }));
                lemma_regroup(pre_tokens, token_view(token), chars@, end as nat);
            }
            i = end;
        } else if c == '"' {
            let close = match scan_string(chars, i + 1) {
                Ok(p) => p,
                Err(e) => {
                    return Err(e);
                },
            };
            let raw = chars_substring(chars, i + 1, close);
            let text = match unescape_text(raw.as_str()) {
                Some(t) => t,
                None => {
                    return Err(lex_error(i, "a well-formed escape sequence"));
                },
            };
            let token = Token::Str(text);
            tokens.push((token, i));
            proof {
                lemma_cons_token(pre_tokens, tokens@, token_view(token));
                assert(lex_spec(chars@, i as nat) == (match lex_spec(chars@, (close + 1) as nat) {
                    Some(rest) => Some(seq![token_view(token)] + rest),
                    None => None::<Seq<TokenV>>,
                }));
                lemma_regroup(pre_tokens, token_view(token), chars@, (close + 1) as nat);
            }
            i = close + 1;
        } else {
            let (token, next) = match lex_punct(chars, i) {
                Ok(x) => x,
                Err(e) => {
                    return Err(e);
                },
            };
            tokens.push((token, i));
            proof {
                lemma_cons_token(pre_tokens, tokens@, token_view(token));
                assert(lex_spec(chars@, i as nat) == (match lex_spec(chars@, next as nat) {
                    Some(rest) => Some(seq![token_view(token)] + rest),
                    None => None::<Seq<TokenV>>,
                }));
                lemma_regroup(pre_tokens, token_view(token), chars@, next as nat);
            }
            i = next;
        }
    }
    proof {
        assert(tokens_view(tokens@) + Seq::<TokenV>::empty() =~= tokens_view(tokens@));
    }
    Ok(tokens)
}

/// Pushing one token appends its model.
proof fn lemma_cons_token(pre: Seq<(Token, usize)>, post: Seq<(Token, usize)>, v: TokenV)
    requires
        post == pre.push(post.last()),
        token_view(post.last().0) == v,
    ensures
        tokens_view(post) == tokens_view(pre) + seq![v],
{
    lemma_tokens_view(pre);
    lemma_tokens_view(post);
    assert(tokens_view(post) =~= tokens_view(pre) + seq![v]);
}

/// Regrouping the accumulated tokens with one more token: the two readings
/// of "everything lexed so far, then the rest" agree.
proof fn lemma_regroup(pre: Seq<(Token, usize)>, v: TokenV, chars: Seq<char>, next: nat)
    ensures
        (match lex_spec(chars, next) {
            Some(rest) => Some(tokens_view(pre) + (seq![v] + rest)),
            None => None::<Seq<TokenV>>,
        }) == (match lex_spec(chars, next) {
            Some(rest) => Some((tokens_view(pre) + seq![v]) + rest),
            None => None::<Seq<TokenV>>,
        }),
{
    match lex_spec(chars, next) {
        Some(rest) => {
            assert(tokens_view(pre) + (seq![v] + rest) =~= (tokens_view(pre) + seq![v]) + rest);
        },
        None => {},
    }
}

} // verus!
