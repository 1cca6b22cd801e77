//! The scanner: from characters to tokens.
//!
//! Blanks and line comments are passed over; every token carries the
//! position of its first character. The scanner keeps its position
//! between calls, so a text may be handed over in pieces.

use crate::err::{Stumble, StumbleKind};
use crate::location::Location;
use crate::number::{
    digits_end, double_of_text, is_digit, lemma_digits_end_in_range, lemma_literal_is_decimal,
    parse_number, skip_digits, string_of_range,
};
use crate::text::{alphabetic, chars_of, is_alphabetic};
use crate::token::{tokens_view, Tkn, TknErr, TknK, TknKView, TknView};
use vstd::prelude::*;

verus! {

/// Whether the character only separates tokens: a character that
/// Unicode counts as white space.
pub open spec fn is_blank(c: char) -> bool {
    ||| '\t' <= c <= '\r'
    ||| c == ' '
    ||| c == '\u{85}'
    ||| c == '\u{a0}'
    ||| c == '\u{1680}'
    ||| '\u{2000}' <= c <= '\u{200a}'
    ||| c == '\u{2028}'
    ||| c == '\u{2029}'
    ||| c == '\u{202f}'
    ||| c == '\u{205f}'
    ||| c == '\u{3000}'
}

/// Whether the character can stand in a name: a letter, an underscore,
/// or a character beyond ASCII that Unicode counts as alphabetic.
pub open spec fn is_word_char(c: char) -> bool {
    ('a' <= c <= 'z') || ('A' <= c <= 'Z') || c == '_' || (c > '\u{7f}' && is_alphabetic(c))
}

/// How many blanks stand at `from` in a row.
pub open spec fn space_run(text: Seq<char>, from: nat) -> nat
    decreases text.len() - from,
{
    if from < text.len() && is_blank(text[from as int]) {
        1 + space_run(text, from + 1)
    } else {
        0
    }
}

/// Whether a line comment starts at `at`: two slashes.
pub open spec fn starts_comment(text: Seq<char>, at: nat) -> bool {
    at + 1 < text.len() && text[at as int] == '/' && text[at as int + 1] == '/'
}

/// How many characters from `from` on belong to the line that `from`
/// lies in: up to and including the end of the line, or up to the end
/// of the text.
pub open spec fn comment_rest(text: Seq<char>, from: nat) -> nat
    decreases text.len() - from,
{
    if from >= text.len() {
        0
    } else if text[from as int] == '\n' {
        1
    } else {
        1 + comment_rest(text, from + 1)
    }
}

/// Where the line comment that starts at `at` ends: behind the end of
/// its line.
pub open spec fn comment_end(text: Seq<char>, at: nat) -> nat {
    at + 2 + comment_rest(text, at + 2)
}

/// How many characters from `from` on stand in front of the next token:
/// blanks, and line comments, which start with `//` and run up to and
/// including the end of the line. `in_comment` says whether `from` lies
/// inside a comment.
pub open spec fn blank_run(text: Seq<char>, from: nat, in_comment: bool) -> nat
    decreases text.len() - from,
{
    if from >= text.len() {
        0
    } else if in_comment {
        1 + blank_run(text, from + 1, text[from as int] != '\n')
    } else if is_blank(text[from as int]) {
        1 + blank_run(text, from + 1, false)
    } else if text[from as int] == '/' && from + 1 < text.len() && text[from as int + 1] == '/' {
        2 + blank_run(text, from + 2, true)
    } else {
        0
    }
}

/// The first position at or after `from` that starts a token: behind
/// blanks and line comments.
pub open spec fn blank_end(text: Seq<char>, from: nat) -> nat {
    from + blank_run(text, from, false)
}

/// How many characters from `from` on belong to a string literal's
/// text: up to the closing quote, the end of the line or the end of the
/// text.
pub open spec fn string_rest(text: Seq<char>, from: nat) -> nat
    decreases text.len() - from,
{
    if from >= text.len() || text[from as int] == '"' || text[from as int] == '\n' {
        0
    } else {
        1 + string_rest(text, from + 1)
    }
}

/// How many characters from `from` on can stand in a name.
pub open spec fn word_rest(text: Seq<char>, from: nat) -> nat
    decreases text.len() - from,
{
    if from >= text.len() || !is_word_char(text[from as int]) {
        0
    } else {
        1 + word_rest(text, from + 1)
    }
}

/// The reserved word that the text is, if it is one.
pub open spec fn keyword(word: Seq<char>) -> Option<TknKView> {
    if word == "and"@ {
        Some(TknKView::And)
    } else if word == "break"@ {
        Some(TknKView::Break)
    } else if word == "class"@ {
        Some(TknKView::Class)
    } else if word == "else"@ {
        Some(TknKView::Else)
    } else if word == "false"@ {
        Some(TknKView::False)
    } else if word == "for"@ {
        Some(TknKView::For)
    } else if word == "fun"@ {
        Some(TknKView::Function)
    } else if word == "if"@ {
        Some(TknKView::If)
    } else if word == "loop"@ {
        Some(TknKView::Loop)
    } else if word == "nil"@ {
        Some(TknKView::Nil)
    } else if word == "or"@ {
        Some(TknKView::Or)
    } else if word == "print"@ {
        Some(TknKView::Print)
    } else if word == "return"@ {
        Some(TknKView::Return)
    } else if word == "super"@ {
        Some(TknKView::Super)
    } else if word == "this"@ {
        Some(TknKView::This)
    } else if word == "true"@ {
        Some(TknKView::True)
    } else if word == "var"@ {
        Some(TknKView::Var)
    } else if word == "while"@ {
        Some(TknKView::While)
    } else {
        None
    }
}

/// The kind of a word: a reserved word or a name.
pub open spec fn word_kind(word: Seq<char>) -> TknKView {
    match keyword(word) {
        Some(kind) => kind,
        None => TknKView::Identifier { id: word },
    }
}

/// The token made of one character, if the character is one.
pub open spec fn single(c: char) -> Option<TknKView> {
    if c == '(' {
        Some(TknKView::ParenL)
    } else if c == ')' {
        Some(TknKView::ParenR)
    } else if c == '{' {
        Some(TknKView::BraceL)
    } else if c == '}' {
        Some(TknKView::BraceR)
    } else if c == ',' {
        Some(TknKView::Comma)
    } else if c == '.' {
        Some(TknKView::Dot)
    } else if c == '-' {
        Some(TknKView::Minus)
    } else if c == '+' {
        Some(TknKView::Plus)
    } else if c == ';' {
        Some(TknKView::Semicolon)
    } else if c == '*' {
        Some(TknKView::Star)
    } else if c == '/' {
        Some(TknKView::Slash)
    } else {
        None
    }
}

/// The token of a character that forms a token of its own, or one with
/// a `=` behind it: the kind without, and the kind with.
pub open spec fn paired(c: char) -> Option<(TknKView, TknKView)> {
    if c == '!' {
        Some((TknKView::Bang, TknKView::BangEqual))
    } else if c == '=' {
        Some((TknKView::Equal, TknKView::EqualEqual))
    } else if c == '<' {
        Some((TknKView::Less, TknKView::LessEqual))
    } else if c == '>' {
        Some((TknKView::Greater, TknKView::GreaterEqual))
    } else {
        None
    }
}

/// The second kind of a pair where a `=` follows, the first where none
/// does.
pub open spec fn pick(pair: (TknKView, TknKView), with_equal: bool) -> TknKView {
    let (alone, followed) = pair;
    if with_equal {
        followed
    } else {
        alone
    }
}

/// One token read off a text: its kind, and how many characters behind
/// its first one belong to it.
pub struct Lexeme {
    pub kind: TknKView,
    pub more: nat,
}

/// The token that starts at `at`, where a token does start.
pub open spec fn lexeme(text: Seq<char>, at: nat) -> Result<Lexeme, TknErr> {
    let c = text[at as int];
    if c == '"' {
        let close = at + 1 + string_rest(text, at + 1);
        if close < text.len() && text[close as int] == '\n' {
            Err(TknErr::MultilineString)
        } else {
            Ok(
                Lexeme {
                    kind: TknKView::String { literal: text.subrange(at as int + 1, close as int) },
                    more: if close < text.len() {
                        (close - at) as nat
                    } else {
                        (close - at - 1) as nat
                    },
                },
            )
        }
    } else if single(c) is Some {
        Ok(Lexeme { kind: single(c)->0, more: 0 })
    } else if paired(c) is Some {
        if at + 1 < text.len() && text[at as int + 1] == '=' {
            Ok(Lexeme { kind: pick(paired(c)->0, true), more: 1 })
        } else {
            Ok(Lexeme { kind: pick(paired(c)->0, false), more: 0 })
        }
    } else if is_digit(c) {
        let whole = digits_end(text, at as int);
        let end = if whole < text.len() && text[whole] == '.' {
            digits_end(text, whole + 1)
        } else {
            whole
        };
        if whole < text.len() && text[whole] == '.' && end == whole + 1 {
            Err(TknErr::TrailingDot)
        } else {
            Ok(
                Lexeme {
                    kind: TknKView::Number { literal: double_of_text(text.subrange(at as int, end)) },
                    more: (end - at - 1) as nat,
                },
            )
        }
    } else if is_word_char(c) {
        let more = word_rest(text, at + 1);
        Ok(Lexeme { kind: word_kind(text.subrange(at as int, at as int + 1 + more)), more })
    } else {
        Err(TknErr::Unrecognised { character: c })
    }
}

/// What scanning a text gives: the tokens, how far the scanner came,
/// and what stopped it if it did not reach the end.
pub struct Scan {
    pub tokens: Seq<TknView>,
    pub end: nat,
    pub failure: Option<TknErr>,
}

/// Scanning `text` from `from` on, where the text starts at the
/// position `start`. A token's position is where the characters before
/// it lead from `start`. Scanning stops in front of the first token
/// that is refused.
pub open spec fn scanned(text: Seq<char>, from: nat, start: Location) -> Scan
    decreases
            (if from <= text.len() {
                text.len() - from
            } else {
                0
            }),
{
    let at = blank_end(text, from);
    if at >= text.len() {
        Scan { tokens: Seq::empty(), end: text.len(), failure: None }
    } else {
        match lexeme(text, at) {
            Err(e) => Scan { tokens: Seq::empty(), end: at, failure: Some(e) },
            Ok(found) => {
                let rest = scanned(text, at + 1 + found.more, start);
                Scan {
                    tokens: seq![
                        TknView {
                            kind: found.kind,
                            location: start.after_all(text.take(at as int)),
                        },
                    ] + rest.tokens,
                    end: rest.end,
                    failure: rest.failure,
                }
            },
        }
    }
}

/// Reading one text and then another leads where reading the two as
/// one leads.
pub proof fn lemma_after_all_joined(start: Location, a: Seq<char>, b: Seq<char>)
    ensures
        start.after_all(a).after_all(b) == start.after_all(a + b),
{
    let whole = a + b;
    lemma_after_all_split(start, whole, 0, a.len() as int, whole.len() as int);
    assert(whole.subrange(0, a.len() as int) =~= a);
    assert(whole.subrange(a.len() as int, whole.len() as int) =~= b);
    assert(whole.subrange(0, whole.len() as int) =~= whole);
}

/// A run of blanks ends within the text, in front of a character that
/// is no blank.
pub proof fn lemma_space_run(text: Seq<char>, from: nat)
    requires
        from <= text.len(),
    ensures
        from + space_run(text, from) <= text.len(),
        from + space_run(text, from) < text.len() ==> !is_blank(
            text[from as int + space_run(text, from)],
        ),
        blank_end(text, from) == blank_end(text, from + space_run(text, from)),
    decreases text.len() - from,
{
    if from < text.len() && is_blank(text[from as int]) {
        lemma_space_run(text, from + 1);
    }
}

/// Inside a comment, what stands in front of the next token is the
/// rest of the comment's line and what follows it.
pub proof fn lemma_comment_rest(text: Seq<char>, from: nat)
    requires
        from <= text.len(),
    ensures
        from + comment_rest(text, from) <= text.len(),
        from + blank_run(text, from, true) == blank_end(text, from + comment_rest(text, from)),
    decreases text.len() - from,
{
    if from < text.len() && text[from as int] != '\n' {
        lemma_comment_rest(text, from + 1);
    }
}

/// The next token behind a comment is the next token behind its end.
pub proof fn lemma_comment_end(text: Seq<char>, at: nat)
    requires
        starts_comment(text, at),
    ensures
        at < comment_end(text, at) <= text.len(),
        blank_end(text, at) == blank_end(text, comment_end(text, at)),
{
    lemma_comment_rest(text, at + 2);
}

/// What scanning gives depends only on where the next token starts.
pub proof fn lemma_scanned_from(text: Seq<char>, a: nat, b: nat, start: Location)
    requires
        blank_end(text, a) == blank_end(text, b),
    ensures
        scanned(text, a, start) == scanned(text, b, start),
{
}

/// Reading one part of a text and then the next leads where reading
/// both in one go leads.
pub proof fn lemma_after_all_split(start: Location, text: Seq<char>, a: int, b: int, c: int)
    requires
        0 <= a <= b <= c <= text.len(),
    ensures
        start.after_all(text.subrange(a, b)).after_all(text.subrange(b, c)) == start.after_all(
            text.subrange(a, c),
        ),
    decreases c - b,
{
    if b == c {
        assert(text.subrange(b, c) =~= Seq::<char>::empty());
    } else {
        lemma_after_all_split(start, text, a, b, c - 1);
        assert(text.subrange(b, c).drop_last() =~= text.subrange(b, c - 1));
        assert(text.subrange(a, c).drop_last() =~= text.subrange(a, c - 1));
    }
}

/// The scanner's state: the tokens found so far, and the position of
/// the next character.
#[derive(Debug)]
pub struct Scanner {
    pub tokens: Vec<Tkn>,
    pub location: Location,
}

impl Default for Scanner {
    fn default() -> (r: Self)
        ensures
            r.tokens@.len() == 0,
            r.location == (Location { col: 0, line: 0 }),
    {
        Scanner { tokens: Vec::new(), location: Location::default() }
    }
}

/// Moves a position over the characters from `from` up to `to`.
pub fn advance(location: &mut Location, chars: &Vec<char>, from: usize, to: usize)
    requires
        from <= to <= chars.len(),
        old(location).has_room(to - from),
    ensures
        *final(location) == old(location).after_all(chars@.subrange(from as int, to as int)),
        final(location).line <= old(location).line + (to - from),
        final(location).col <= old(location).col + (to - from),
{
    let mut i: usize = from;
    assert(chars@.subrange(from as int, from as int) =~= Seq::<char>::empty());
    while i < to
        invariant
            from <= i <= to <= chars.len(),
            old(location).has_room(to - from),
            *location == old(location).after_all(chars@.subrange(from as int, i as int)),
            location.line <= old(location).line + (i - from),
            location.col <= old(location).col + (i - from),
        decreases to - i,
    {
        if chars[i] == '\n' {
            location.newline();
        } else {
            location.advance_col(1);
        }
        assert(chars@.subrange(from as int, i + 1).drop_last() =~= chars@.subrange(
            from as int,
            i as int,
        ));
        i += 1;
    }
}

/// Whether the character only separates tokens.
fn blank(c: char) -> (r: bool)
    ensures
        r == is_blank(c),
{
    if c <= '\r' {
        '\t' <= c
    } else if c <= '\u{a0}' {
        c == ' ' || c == '\u{85}' || c == '\u{a0}'
    } else if c <= '\u{200a}' {
        c == '\u{1680}' || ('\u{2000}' <= c && c <= '\u{200a}')
    } else {
        c == '\u{2028}' || c == '\u{2029}' || c == '\u{202f}' || c == '\u{205f}' || c == '\u{3000}'
    }
}

/// Passes over blanks.
fn eat_whitespace(chars: &Vec<char>, from: usize) -> (r: usize)
    requires
        from <= chars.len(),
    ensures
        r == from + space_run(chars@, from as nat),
        from <= r <= chars.len(),
{
    let mut i: usize = from;
    while i < chars.len() && blank(chars[i])
        invariant
            from <= i <= chars.len(),
            from + space_run(chars@, from as nat) == i + space_run(chars@, i as nat),
        decreases chars.len() - i,
    {
        i += 1;
    }
    i
}

/// Finds the end of the line that `from` lies in: behind its line end,
/// or the end of the text.
fn eat_line(chars: &Vec<char>, from: usize) -> (r: usize)
    requires
        from <= chars.len(),
    ensures
        r == from + comment_rest(chars@, from as nat),
        from <= r <= chars.len(),
{
    let mut i: usize = from;
    while i < chars.len() && chars[i] != '\n'
        invariant
            from <= i <= chars.len(),
            from + comment_rest(chars@, from as nat) == i + comment_rest(chars@, i as nat),
        decreases chars.len() - i,
    {
        i += 1;
    }
    if i < chars.len() {
        i += 1;
    }
    i
}

/// Finds the end of a string literal's text.
fn get_string(chars: &Vec<char>, from: usize) -> (r: usize)
    requires
        from <= chars.len(),
    ensures
        r == from + string_rest(chars@, from as nat),
        from <= r <= chars.len(),
{
    let mut i: usize = from;
    while i < chars.len() && chars[i] != '"' && chars[i] != '\n'
        invariant
            from <= i <= chars.len(),
            from + string_rest(chars@, from as nat) == i + string_rest(chars@, i as nat),
        decreases chars.len() - i,
    {
        i += 1;
    }
    i
}

/// Whether the character can stand in a name.
fn word_char(c: char) -> (r: bool)
    ensures
        r == is_word_char(c),
{
    ('a' <= c && c <= 'z') || ('A' <= c && c <= 'Z') || c == '_' || (c > '\u{7f}' && alphabetic(c))
}

/// Finds the end of a word.
fn word_end(chars: &Vec<char>, from: usize) -> (r: usize)
    requires
        from <= chars.len(),
    ensures
        r == from + word_rest(chars@, from as nat),
        from <= r <= chars.len(),
{
    let mut i: usize = from;
    while i < chars.len() && word_char(chars[i])
        invariant
            from <= i <= chars.len(),
            from + word_rest(chars@, from as nat) == i + word_rest(chars@, i as nat),
        decreases chars.len() - i,
    {
        i += 1;
    }
    i
}

/// The kind of a word: a reserved word or a name.
pub fn get_keyword_or_identifier(word: String) -> (r: TknK)
    ensures
        r@ == word_kind(word@),
{
    if word == String::from_str("and") {
        TknK::And
    } else if word == String::from_str("break") {
        TknK::Break
    } else if word == String::from_str("class") {
        TknK::Class
    } else if word == String::from_str("else") {
        TknK::Else
    } else if word == String::from_str("false") {
        TknK::False
    } else if word == String::from_str("for") {
        TknK::For
    } else if word == String::from_str("fun") {
        TknK::Function
    } else if word == String::from_str("if") {
        TknK::If
    } else if word == String::from_str("loop") {
        TknK::Loop
    } else if word == String::from_str("nil") {
        TknK::Nil
    } else if word == String::from_str("or") {
        TknK::Or
    } else if word == String::from_str("print") {
        TknK::Print
    } else if word == String::from_str("return") {
        TknK::Return
    } else if word == String::from_str("super") {
        TknK::Super
    } else if word == String::from_str("this") {
        TknK::This
    } else if word == String::from_str("true") {
        TknK::True
    } else if word == String::from_str("var") {
        TknK::Var
    } else if word == String::from_str("while") {
        TknK::While
    } else {
        TknK::Identifier { id: word }
    }
}

/// The token made of one character, if the character is one.
fn single_kind(c: char) -> (r: Option<TknK>)
    ensures
        r is Some == single(c) is Some,
        r is Some ==> r->0@ == single(c)->0,
{
    if c == '(' {
        Some(TknK::ParenL)
    } else if c == ')' {
        Some(TknK::ParenR)
    } else if c == '{' {
        Some(TknK::BraceL)
    } else if c == '}' {
        Some(TknK::BraceR)
    } else if c == ',' {
        Some(TknK::Comma)
    } else if c == '.' {
        Some(TknK::Dot)
    } else if c == '-' {
        Some(TknK::Minus)
    } else if c == '+' {
        Some(TknK::Plus)
    } else if c == ';' {
        Some(TknK::Semicolon)
    } else if c == '*' {
        Some(TknK::Star)
    } else if c == '/' {
        Some(TknK::Slash)
    } else {
        None
    }
}

/// The token of a character that may have a `=` behind it.
fn paired_kind(c: char, with_equal: bool) -> (r: Option<TknK>)
    ensures
        r is Some == paired(c) is Some,
        r is Some ==> r->0@ == pick(paired(c)->0, with_equal),
{
    if c == '!' {
        Some(
            if with_equal {
                TknK::BangEqual
            } else {
                TknK::Bang
            },
        )
    } else if c == '=' {
        Some(
            if with_equal {
                TknK::EqualEqual
            } else {
                TknK::Equal
            },
        )
    } else if c == '<' {
        Some(
            if with_equal {
                TknK::LessEqual
            } else {
                TknK::Less
            },
        )
    } else if c == '>' {
        Some(
            if with_equal {
                TknK::GreaterEqual
            } else {
                TknK::Greater
            },
        )
    } else {
        None
    }
}

/// Reads the number literal that starts at `at`.
fn get_number(chars: &Vec<char>, at: usize) -> (r: Result<(TknK, usize), TknErr>)
    requires
        at < chars.len(),
        is_digit(chars@[at as int]),
    ensures
        match (r, lexeme(chars@, at as nat)) {
            (Ok(found), Ok(meant)) => found.0@ == meant.kind && found.1 == at + 1 + meant.more
                && found.1 <= chars.len(),
            (Err(e), Err(meant)) => e == meant,
            _ => false,
        },
{
    let whole = skip_digits(chars, at);
    let mut end = whole;
    if whole < chars.len() && chars[whole] == '.' {
        end = skip_digits(chars, whole + 1);
        if end == whole + 1 {
            return Err(TknErr::TrailingDot);
        }
    }
    proof {
        lemma_digits_end_in_range(chars@, at as int);
        if whole < end {
            lemma_digits_end_in_range(chars@, whole + 1);
        }
        lemma_literal_is_decimal(chars@, at as int, whole as int, end as int);
    }
    let text = string_of_range(chars, at, end);
    match parse_number(text.as_str()) {
        Some(n) => Ok((TknK::Number { literal: n }, end)),
        None => Err(TknErr::Unrecognised { character: chars[at] }),
    }
}

/// Reads the token that starts at `at`: its kind, and where it ends.
fn get_lexeme(chars: &Vec<char>, at: usize) -> (r: Result<(TknK, usize), TknErr>)
    requires
        at < chars.len(),
    ensures
        match (r, lexeme(chars@, at as nat)) {
            (Ok(found), Ok(meant)) => found.0@ == meant.kind && found.1 == at + 1 + meant.more
                && found.1 <= chars.len(),
            (Err(e), Err(meant)) => e == meant,
            _ => false,
        },
{
    let c = chars[at];
    if c == '"' {
        let close = get_string(chars, at + 1);
        if close < chars.len() && chars[close] == '\n' {
            return Err(TknErr::MultilineString);
        }
        let literal = string_of_range(chars, at + 1, close);
        let end = if close < chars.len() {
            close + 1
        } else {
            close
        };
        return Ok((TknK::String { literal }, end));
    }
    match single_kind(c) {
        Some(kind) => {
            return Ok((kind, at + 1));
        },
        None => {},
    }
    let with_equal = chars.len() - at > 1 && chars[at + 1] == '=';
    match paired_kind(c, with_equal) {
        Some(kind) => {
            return Ok(
                (
                    kind,
                    if with_equal {
                        at + 2
                    } else {
                        at + 1
                    },
                ),
            );
        },
        None => {},
    }
    if c >= '0' && c <= '9' {
        return get_number(chars, at);
    }
    if word_char(c) {
        let end = word_end(chars, at + 1);
        let word = string_of_range(chars, at, end);
        return Ok((get_keyword_or_identifier(word), end));
    }
    Err(TknErr::Unrecognised { character: c })
}

impl Scanner {
    /// Stores a token at the scanner's position.
    fn store_token(&mut self, kind: TknK)
        ensures
            final(self).location == old(self).location,
            tokens_view(final(self).tokens) == tokens_view(old(self).tokens).push(
                TknView { kind: kind@, location: old(self).location },
            ),
    {
        let token = Tkn::new(kind, self.location);
        self.tokens.push(token);
        assert(tokens_view(self.tokens) =~= tokens_view(old(self).tokens).push(
            TknView { kind: kind@, location: old(self).location },
        ));
    }

    /// Takes one step through `chars` from `*at` on. Blanks are passed
    /// over first. Where nothing follows them: `Ok(false)`. Where a
    /// line comment follows them, the comment is passed over through
    /// the end of its line and no token is stored: `Ok(true)`. Where a
    /// token follows them, it is stored with the position of its first
    /// character, and `*at` comes to stand behind it: `Ok(true)`. In
    /// front of a token that is refused: the diagnostic, with `*at` and
    /// the scanner's position in front of that token, and no token
    /// stored.
    pub fn take_token(&mut self, chars: &Vec<char>, at: &mut usize) -> (r: Result<bool, Stumble>)
        requires
            *old(at) <= chars.len(),
            old(self).location.has_room(chars.len() - *old(at)),
        ensures
            *old(at) <= *final(at) <= chars.len(),
            r == Ok::<bool, Stumble>(true) ==> *old(at) < *final(at),
            final(self).location == old(self).location.after_all(
                chars@.subrange(*old(at) as int, *final(at) as int),
            ),
            final(self).location.line <= old(self).location.line + (*final(at) - *old(at)),
            final(self).location.col <= old(self).location.col + (*final(at) - *old(at)),
            ({
                let start = *old(at) + space_run(chars@, *old(at) as nat);
                let here = old(self).location.after_all(
                    chars@.subrange(*old(at) as int, start as int),
                );
                if start >= chars.len() {
                    &&& r == Ok::<bool, Stumble>(false)
                    &&& *final(at) == chars.len()
                    &&& tokens_view(final(self).tokens) == tokens_view(old(self).tokens)
                } else if starts_comment(chars@, start as nat) {
                    &&& r == Ok::<bool, Stumble>(true)
                    &&& *final(at) == comment_end(chars@, start as nat)
                    &&& tokens_view(final(self).tokens) == tokens_view(old(self).tokens)
                } else {
                    match lexeme(chars@, start as nat) {
                        Ok(found) => {
                            &&& r == Ok::<bool, Stumble>(true)
                            &&& *final(at) == start + 1 + found.more
                            &&& tokens_view(final(self).tokens) == tokens_view(
                                old(self).tokens,
                            ).push(TknView { kind: found.kind, location: here })
                        },
                        Err(e) => {
                            &&& r is Err
                            &&& r->Err_0@.kind == StumbleKind::token_err(e)
                            &&& r->Err_0.location == here
                            &&& *final(at) == start
                            &&& tokens_view(final(self).tokens) == tokens_view(old(self).tokens)
                        },
                    }
                }
            }),
    {
        let from = *at;
        let start = eat_whitespace(chars, from);
        advance(&mut self.location, chars, from, start);
        *at = start;
        if start >= chars.len() {
            return Ok(false);
        }
        if chars[start] == '/' && chars.len() - start > 1 && chars[start + 1] == '/' {
            let end = eat_line(chars, start + 2);
            advance(&mut self.location, chars, start, end);
            *at = end;
            proof {
                lemma_after_all_split(
                    old(self).location,
                    chars@,
                    from as int,
                    start as int,
                    end as int,
                );
            }
            return Ok(true);
        }
        match get_lexeme(chars, start) {
            Ok((kind, end)) => {
                self.store_token(kind);
                advance(&mut self.location, chars, start, end);
                *at = end;
                proof {
                    lemma_after_all_split(
                        old(self).location,
                        chars@,
                        from as int,
                        start as int,
                        end as int,
                    );
                }
                Ok(true)
            },
            Err(e) => Err(Stumble { location: self.location, kind: StumbleKind::of_token_err(e) }),
        }
    }

    /// Scans `src` and adds its tokens to those found so far. The
    /// positions go on from where the text scanned before ended.
    /// Stops in front of the first token that is refused, with that
    /// refusal; the tokens before it are kept.
    pub fn scan(&mut self, src: &str) -> (r: Result<(), Stumble>)
        requires
            old(self).location.has_room(src@.len() as int),
        ensures
            ({
                let s = scanned(src@, 0, old(self).location);
                &&& tokens_view(final(self).tokens) == tokens_view(old(self).tokens) + s.tokens
                &&& s.end <= src@.len()
                &&& final(self).location == old(self).location.after_all(src@.take(s.end as int))
                &&& match r {
                    Ok(()) => s.failure is None,
                    Err(e) => s.failure is Some && e@.kind == StumbleKind::token_err(s.failure->0)
                        && e.location == final(self).location,
                }
            }),
    {
        let chars = chars_of(src);
        self.scan_chars(&chars)
    }

    /// Scans characters as [`Scanner::scan`] scans a text.
    pub fn scan_chars(&mut self, chars: &Vec<char>) -> (r: Result<(), Stumble>)
        requires
            old(self).location.has_room(chars@.len() as int),
        ensures
            ({
                let s = scanned(chars@, 0, old(self).location);
                &&& tokens_view(final(self).tokens) == tokens_view(old(self).tokens) + s.tokens
                &&& s.end <= chars@.len()
                &&& final(self).location == old(self).location.after_all(chars@.take(s.end as int))
                &&& match r {
                    Ok(()) => s.failure is None,
                    Err(e) => s.failure is Some && e@.kind == StumbleKind::token_err(s.failure->0)
                        && e.location == final(self).location,
                }
            }),
    {
        let (r, _) = self.scan_part(chars);
        r
    }

    /// Scans characters as [`Scanner::scan`] scans a text, and says how
    /// many of them it has passed: all of them, or those in front of
    /// the token that is refused.
    pub fn scan_part(&mut self, chars: &Vec<char>) -> (r: (Result<(), Stumble>, usize))
        requires
            old(self).location.has_room(chars@.len() as int),
        ensures
            ({
                let s = scanned(chars@, 0, old(self).location);
                &&& tokens_view(final(self).tokens) == tokens_view(old(self).tokens) + s.tokens
                &&& r.1 == s.end
                &&& s.end <= chars@.len()
                &&& final(self).location == old(self).location.after_all(chars@.take(s.end as int))
                &&& final(self).location.line <= old(self).location.line + s.end
                &&& final(self).location.col <= old(self).location.col + s.end
                &&& match r.0 {
                    Ok(()) => s.failure is None && s.end == chars@.len(),
                    Err(e) => s.failure is Some && e@.kind == StumbleKind::token_err(s.failure->0)
                        && e.location == final(self).location,
                }
            }),
    {
        let mut at: usize = 0;
        let ghost start = self.location;
        let ghost before = tokens_view(self.tokens);
        let ghost mut done: Seq<TknView> = Seq::empty();
        assert(chars@.take(0) =~= Seq::<char>::empty());
        assert(before + done =~= before);
        loop
            invariant
                at <= chars.len(),
                start == old(self).location,
                before == tokens_view(old(self).tokens),
                start.has_room(chars@.len() as int),
                self.location == start.after_all(chars@.take(at as int)),
                self.location.line <= start.line + at,
                self.location.col <= start.col + at,
                tokens_view(self.tokens) == before + done,
                scanned(chars@, 0, start).tokens == done + scanned(chars@, at as nat, start).tokens,
                scanned(chars@, 0, start).end == scanned(chars@, at as nat, start).end,
                scanned(chars@, 0, start).failure == scanned(chars@, at as nat, start).failure,
            decreases chars.len() - at,
        {
            let ghost from = at;
            let ghost first = from + space_run(chars@, from as nat);
            proof {
                lemma_space_run(chars@, from as nat);
                lemma_scanned_from(chars@, from as nat, first as nat, start);
                lemma_after_all_split(start, chars@, 0, from as int, first as int);
                assert(chars@.take(from as int) =~= chars@.subrange(0, from as int));
                assert(chars@.take(first as int) =~= chars@.subrange(0, first as int));
                if first < chars.len() {
                    if starts_comment(chars@, first as nat) {
                        lemma_comment_end(chars@, first as nat);
                        lemma_scanned_from(
                            chars@,
                            first as nat,
                            comment_end(chars@, first as nat),
                            start,
                        );
                    } else {
                        assert(blank_end(chars@, first as nat) == first);
                    }
                }
            }
            let step = self.take_token(chars, &mut at);
            proof {
                lemma_after_all_split(start, chars@, 0, from as int, at as int);
                assert(chars@.take(at as int) =~= chars@.subrange(0, at as int));
            }
            match step {
                Ok(more) => {
                    if !more {
                        assert(done + Seq::<TknView>::empty() =~= done);
                        return (Ok(()), at);
                    }
                    proof {
                        if !starts_comment(chars@, first as nat) {
                            let found = lexeme(chars@, first as nat)->Ok_0;
                            let token = TknView {
                                kind: found.kind,
                                location: start.after_all(chars@.take(first as int)),
                            };
                            let rest = scanned(chars@, at as nat, start).tokens;
                            assert(done + (seq![token] + rest) =~= done.push(token) + rest);
                            assert((before + done).push(token) =~= before + done.push(token));
                            done = done.push(token);
                        }
                    }
                },
                Err(e) => {
                    assert(done + Seq::<TknView>::empty() =~= done);
                    return (Err(e), at);
                },
            }
        }
    }
}

} // verus!
