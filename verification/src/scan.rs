//! Texts that the parser cannot be trusted with.
//!
//! The parser reads every literal that it meets. It knows strings, byte
//! strings, characters, bytes and numbers; on a literal of another kind it
//! panics. Three kinds can come out of a text: a C string, the marker that the
//! compiler leaves where an expansion went wrong, and a number with a base
//! prefix and a period, which the compiler's lexer takes for one literal.
//!
//! [`readable`] follows a text character by character, through strings,
//! character literals and comments, and refuses it where one of the three
//! stands at a place at which a token can begin. Where it cannot know whether
//! a token can begin, after a character outside ASCII and after the quote of
//! a lifetime, it takes the worse case: there it also refuses what may be the
//! prefix of a raw string, since it could not follow the string.

use vstd::prelude::*;

verus! {

/// Where in a text the reading stands.
#[derive(Clone, Copy, Debug, PartialEq, Eq)]
pub enum Lexing {
    /// Between tokens: a token can begin.
    Boundary,
    /// In code, where a token may begin or a word may go on.
    Unsure,
    /// In an identifier, a number or the suffix of a literal.
    Word,
    /// In a word that is the letter `b` so far and began a token.
    WordB,
    /// Behind the `r` and so many `#` of what may be a raw string. Where
    /// `sure`, the `r` began a token or followed the `b` that did.
    RawPrefix { sure: bool, hashes: u8 },
    /// In a number with a base prefix.
    Based,
    /// In a string with escapes.
    Text,
    /// Behind a backslash in such a string.
    TextEscape,
    /// In a raw string that so many `#` close.
    RawText { hashes: u8 },
    /// Behind a quote in such a string and so many `#` already `seen`.
    RawClose { hashes: u8, seen: u8 },
    /// Before the one character of a character literal.
    CharBody,
    /// Before the closing quote of a character literal.
    CharClose,
    /// Before the backslash of a character literal.
    CharBackslash,
    /// Before the character that the backslash escapes.
    CharEscaped,
    /// In a character literal with an escape, up to its closing quote.
    CharTail,
    /// In a comment that ends with the line.
    LineComment,
    /// Before the `*` that opens a block comment at this depth.
    CommentOpen { depth: u8 },
    /// In block comments nested so deep.
    Comment { depth: u8 },
    /// Before the `/` that closes a block comment at this depth.
    CommentClose { depth: u8 },
}

/// The character at `index` of `text`, or NUL where there is none.
pub open spec fn peek(text: Seq<char>, index: int) -> char {
    if 0 <= index < text.len() {
        text[index]
    } else {
        '\0'
    }
}

/// Whether `ch` can stand inside an identifier, a number or a suffix, as far
/// as ASCII goes.
pub open spec fn is_word(ch: char) -> bool {
    ||| 'a' <= ch <= 'z'
    ||| 'A' <= ch <= 'Z'
    ||| '0' <= ch <= '9'
    ||| ch == '_'
}

/// Whether the prefix of a C string stands at `index` of `text`: `c"`, `cr"`
/// or `cr#`.
pub open spec fn c_string_at(text: Seq<char>, index: int) -> bool {
    &&& peek(text, index) == 'c'
    &&& {
        ||| peek(text, index + 1) == '"'
        ||| peek(text, index + 1) == 'r' && (peek(text, index + 2) == '"' || peek(text, index + 2)
            == '#')
    }
}

/// Whether the marker of a failed expansion, `(/*ERROR*/)`, stands at `index`
/// of `text`.
pub open spec fn error_marker_at(text: Seq<char>, index: int) -> bool {
    &&& peek(text, index) == '('
    &&& peek(text, index + 1) == '/'
    &&& peek(text, index + 2) == '*'
    &&& peek(text, index + 3) == 'E'
    &&& peek(text, index + 4) == 'R'
    &&& peek(text, index + 5) == 'R'
    &&& peek(text, index + 6) == 'O'
    &&& peek(text, index + 7) == 'R'
    &&& peek(text, index + 8) == '*'
    &&& peek(text, index + 9) == '/'
    &&& peek(text, index + 10) == ')'
}

/// Whether a base prefix stands at `index` of `text`: `0b`, `0o` or `0x`.
pub open spec fn base_prefix_at(text: Seq<char>, index: int) -> bool {
    &&& peek(text, index) == '0'
    &&& (peek(text, index + 1) == 'b' || peek(text, index + 1) == 'o' || peek(text, index + 1)
        == 'x')
}

/// Where the reading stands behind the character at `index` of `text`, which
/// it meets in code, `within` being one of `Boundary`, `Unsure`, `Word` and
/// `WordB`; `None` where the text is refused.
pub open spec fn code_step(within: Lexing, text: Seq<char>, index: int) -> Option<Lexing> {
    let ch = peek(text, index);
    let begins = within == Lexing::Boundary || within == Lexing::Unsure;
    if begins && c_string_at(text, index) {
        None
    } else if error_marker_at(text, index) {
        None
    } else if ch == '"' {
        Some(Lexing::Text)
    } else if ch == '\'' {
        if peek(text, index + 1) == '\\' {
            Some(Lexing::CharBackslash)
        } else if peek(text, index + 2) == '\'' {
            Some(Lexing::CharBody)
        } else {
            Some(Lexing::Unsure)
        }
    } else if ch == '/' && peek(text, index + 1) == '/' {
        Some(Lexing::LineComment)
    } else if ch == '/' && peek(text, index + 1) == '*' {
        Some(Lexing::CommentOpen { depth: 1 })
    } else if ch == 'r' && within != Lexing::Word {
        Some(Lexing::RawPrefix { sure: within != Lexing::Unsure, hashes: 0 })
    } else if begins && base_prefix_at(text, index) {
        Some(Lexing::Based)
    } else if ch == 'b' && within == Lexing::Boundary {
        Some(Lexing::WordB)
    } else if is_word(ch) {
        if within == Lexing::Unsure {
            Some(Lexing::Unsure)
        } else {
            Some(Lexing::Word)
        }
    } else if ch > '\x7f' {
        Some(Lexing::Unsure)
    } else {
        Some(Lexing::Boundary)
    }
}

/// Where the reading stands behind the character at `index` of `text`, which
/// it meets at `state`; `None` where the text is refused.
pub open spec fn step(state: Lexing, text: Seq<char>, index: int) -> Option<Lexing> {
    let ch = peek(text, index);
    match state {
        Lexing::RawPrefix { sure, hashes } => if ch == '#' {
            if hashes == 255 {
                None
            } else {
                Some(Lexing::RawPrefix { sure, hashes: (hashes + 1) as u8 })
            }
        } else if ch == '"' {
            if sure {
                Some(Lexing::RawText { hashes })
            } else {
                None
            }
        } else if sure && hashes == 0 {
            code_step(Lexing::Word, text, index)
        } else {
            code_step(Lexing::Unsure, text, index)
        },
        Lexing::Based => if ch == '.' {
            None
        } else if is_word(ch) {
            Some(Lexing::Based)
        } else {
            code_step(Lexing::Word, text, index)
        },
        Lexing::Text => if ch == '\\' {
            Some(Lexing::TextEscape)
        } else if ch == '"' {
            Some(Lexing::Word)
        } else {
            Some(Lexing::Text)
        },
        Lexing::TextEscape => Some(Lexing::Text),
        Lexing::RawText { hashes } => if ch != '"' {
            Some(Lexing::RawText { hashes })
        } else if hashes == 0 {
            Some(Lexing::Word)
        } else {
            Some(Lexing::RawClose { hashes, seen: 0 })
        },
        Lexing::RawClose { hashes, seen } => if ch == '"' {
            Some(Lexing::RawClose { hashes, seen: 0 })
        } else if ch != '#' {
            Some(Lexing::RawText { hashes })
        } else if seen < hashes && hashes - seen > 1 {
            Some(Lexing::RawClose { hashes, seen: (seen + 1) as u8 })
        } else {
            Some(Lexing::Word)
        },
        Lexing::CharBody => Some(Lexing::CharClose),
        Lexing::CharClose => Some(Lexing::Word),
        Lexing::CharBackslash => Some(Lexing::CharEscaped),
        Lexing::CharEscaped => Some(Lexing::CharTail),
        Lexing::CharTail => if ch == '\'' {
            Some(Lexing::Word)
        } else {
            Some(Lexing::CharTail)
        },
        Lexing::LineComment => if ch == '\n' {
            Some(Lexing::Boundary)
        } else {
            Some(Lexing::LineComment)
        },
        Lexing::CommentOpen { depth } => Some(Lexing::Comment { depth }),
        Lexing::Comment { depth } => if ch == '/' && peek(text, index + 1) == '*' {
            if depth == 255 {
                None
            } else {
                Some(Lexing::CommentOpen { depth: (depth + 1) as u8 })
            }
        } else if ch == '*' && peek(text, index + 1) == '/' {
            Some(Lexing::CommentClose { depth })
        } else {
            Some(Lexing::Comment { depth })
        },
        Lexing::CommentClose { depth } => if depth <= 1 {
            Some(Lexing::Boundary)
        } else {
            Some(Lexing::Comment { depth: (depth - 1) as u8 })
        },
        _ => code_step(state, text, index),
    }
}

/// Whether the reading, standing at `state` before `index`, gets to the end
/// of `text` without refusing it.
pub open spec fn reads_on(text: Seq<char>, index: int, state: Lexing) -> bool
    decreases text.len() - index,
{
    if index < 0 || index >= text.len() {
        true
    } else {
        match step(state, text, index) {
            Some(next) => reads_on(text, index + 1, next),
            None => false,
        }
    }
}

/// Whether `text` holds, where a token can begin, neither the prefix of a C
/// string, nor the marker of a failed expansion, nor a number with a base
/// prefix and a period.
pub open spec fn readable(text: Seq<char>) -> bool {
    reads_on(text, 0, Lexing::Boundary)
}

/// The message with which a text that is not [`readable`] is refused.
pub open spec fn unreadable_message() -> Seq<char> {
    "unsupported literal: a C string, a number with a base and a period, or an expansion error"@
}

/// The characters of `text`, one by one.
fn characters(text: &str) -> (r: Vec<char>)
    ensures
        r@ == text@,
{
    let mut all: Vec<char> = Vec::new();
    for ch in it: text.chars()
        invariant
            it.seq() == text@,
            all@ == text@.take(it.index()),
    {
        all.push(ch);
    }
    all
}

/// The character so many places `ahead` of `index` in `text`.
fn look(text: &Vec<char>, index: usize, ahead: usize) -> (r: char)
    requires
        index < text@.len(),
    ensures
        r == peek(text@, index + ahead),
{
    if text.len() - index > ahead {
        text[index + ahead]
    } else {
        '\0'
    }
}

fn word(ch: char) -> (r: bool)
    ensures
        r == is_word(ch),
{
    ('a' <= ch && ch <= 'z') || ('A' <= ch && ch <= 'Z') || ('0' <= ch && ch <= '9') || ch == '_'
}

fn c_string(text: &Vec<char>, index: usize) -> (r: bool)
    requires
        index < text@.len(),
    ensures
        r == c_string_at(text@, index as int),
{
    look(text, index, 0) == 'c' && (look(text, index, 1) == '"' || (look(text, index, 1) == 'r' && (
    look(text, index, 2) == '"' || look(text, index, 2) == '#')))
}

fn error_marker(text: &Vec<char>, index: usize) -> (r: bool)
    requires
        index < text@.len(),
    ensures
        r == error_marker_at(text@, index as int),
{
    look(text, index, 0) == '(' && look(text, index, 1) == '/' && look(text, index, 2) == '*'
        && look(text, index, 3) == 'E' && look(text, index, 4) == 'R' && look(text, index, 5)
        == 'R' && look(text, index, 6) == 'O' && look(text, index, 7) == 'R' && look(
        text,
        index,
        8,
    ) == '*' && look(text, index, 9) == '/' && look(text, index, 10) == ')'
}

fn base_prefix(text: &Vec<char>, index: usize) -> (r: bool)
    requires
        index < text@.len(),
    ensures
        r == base_prefix_at(text@, index as int),
{
    look(text, index, 0) == '0' && (look(text, index, 1) == 'b' || look(text, index, 1) == 'o'
        || look(text, index, 1) == 'x')
}

fn advance_in_code(within: Lexing, text: &Vec<char>, index: usize) -> (r: Option<Lexing>)
    requires
        index < text@.len(),
    ensures
        r == code_step(within, text@, index as int),
{
    let ch = look(text, index, 0);
    let unsure = matches!(within, Lexing::Unsure);
    let boundary = matches!(within, Lexing::Boundary);
    let in_word = matches!(within, Lexing::Word);
    let begins = boundary || unsure;
    if begins && c_string(text, index) {
        None
    } else if error_marker(text, index) {
        None
    } else if ch == '"' {
        Some(Lexing::Text)
    } else if ch == '\'' {
        if look(text, index, 1) == '\\' {
            Some(Lexing::CharBackslash)
        } else if look(text, index, 2) == '\'' {
            Some(Lexing::CharBody)
        } else {
            Some(Lexing::Unsure)
        }
    } else if ch == '/' && look(text, index, 1) == '/' {
        Some(Lexing::LineComment)
    } else if ch == '/' && look(text, index, 1) == '*' {
        Some(Lexing::CommentOpen { depth: 1 })
    } else if ch == 'r' && !in_word {
        Some(Lexing::RawPrefix { sure: !unsure, hashes: 0 })
    } else if begins && base_prefix(text, index) {
        Some(Lexing::Based)
    } else if ch == 'b' && boundary {
        Some(Lexing::WordB)
    } else if word(ch) {
        if unsure {
            Some(Lexing::Unsure)
        } else {
            Some(Lexing::Word)
        }
    } else if ch > '\x7f' {
        Some(Lexing::Unsure)
    } else {
        Some(Lexing::Boundary)
    }
}

fn advance(state: Lexing, text: &Vec<char>, index: usize) -> (r: Option<Lexing>)
    requires
        index < text@.len(),
    ensures
        r == step(state, text@, index as int),
{
    let ch = look(text, index, 0);
    match state {
        Lexing::RawPrefix { sure, hashes } => if ch == '#' {
            if hashes == 255 {
                None
            } else {
                Some(Lexing::RawPrefix { sure, hashes: hashes + 1 })
            }
        } else if ch == '"' {
            if sure {
                Some(Lexing::RawText { hashes })
            } else {
                None
            }
        } else if sure && hashes == 0 {
            advance_in_code(Lexing::Word, text, index)
        } else {
            advance_in_code(Lexing::Unsure, text, index)
        },
        Lexing::Based => if ch == '.' {
            None
        } else if word(ch) {
            Some(Lexing::Based)
        } else {
            advance_in_code(Lexing::Word, text, index)
        },
        Lexing::Text => if ch == '\\' {
            Some(Lexing::TextEscape)
        } else if ch == '"' {
            Some(Lexing::Word)
        } else {
            Some(Lexing::Text)
        },
        Lexing::TextEscape => Some(Lexing::Text),
        Lexing::RawText { hashes } => if ch != '"' {
            Some(Lexing::RawText { hashes })
        } else if hashes == 0 {
            Some(Lexing::Word)
        } else {
            Some(Lexing::RawClose { hashes, seen: 0 })
        },
        Lexing::RawClose { hashes, seen } => if ch == '"' {
            Some(Lexing::RawClose { hashes, seen: 0 })
        } else if ch != '#' {
            Some(Lexing::RawText { hashes })
        } else if seen < hashes && hashes - seen > 1 {
            Some(Lexing::RawClose { hashes, seen: seen + 1 })
        } else {
            Some(Lexing::Word)
        },
        Lexing::CharBody => Some(Lexing::CharClose),
        Lexing::CharClose => Some(Lexing::Word),
        Lexing::CharBackslash => Some(Lexing::CharEscaped),
        Lexing::CharEscaped => Some(Lexing::CharTail),
        Lexing::CharTail => if ch == '\'' {
            Some(Lexing::Word)
        } else {
            Some(Lexing::CharTail)
        },
        Lexing::LineComment => if ch == '\n' {
            Some(Lexing::Boundary)
        } else {
            Some(Lexing::LineComment)
        },
        Lexing::CommentOpen { depth } => Some(Lexing::Comment { depth }),
        Lexing::Comment { depth } => if ch == '/' && look(text, index, 1) == '*' {
            if depth == 255 {
                None
            } else {
                Some(Lexing::CommentOpen { depth: depth + 1 })
            }
        } else if ch == '*' && look(text, index, 1) == '/' {
            Some(Lexing::CommentClose { depth })
        } else {
            Some(Lexing::Comment { depth })
        },
        Lexing::CommentClose { depth } => if depth <= 1 {
            Some(Lexing::Boundary)
        } else {
            Some(Lexing::Comment { depth: depth - 1 })
        },
        _ => advance_in_code(state, text, index),
    }
}

/// Decides whether `text` is [`readable`].
pub fn is_readable(text: &str) -> (r: bool)
    ensures
        r == readable(text@),
{
    let all = characters(text);
    let mut state = Lexing::Boundary;
    let mut index: usize = 0;
    while index < all.len()
        invariant
            index <= all@.len(),
            all@ == text@,
            readable(text@) == reads_on(text@, index as int, state),
        decreases all@.len() - index,
    {
        match advance(state, &all, index) {
            Some(next) => {
                state = next;
            },
            None => {
                return false;
            },
        }
        index += 1;
    }
    true
}

} // verus!
