//! A cursor-free toolkit for hand-written parsers over characters: each
//! parser takes the input and a position and gives back the position after
//! what it read, as its spec function says.
use vstd::prelude::*;

verus! {

/// Whether `c` is alphanumeric in Unicode (std's `char::is_alphanumeric`).
pub uninterp spec fn unicode_alphanumeric(c: char) -> bool;

/// std's `char::is_alphanumeric`; on ASCII it accepts exactly the letters
/// and digits.
#[verifier::external_body]
pub(crate) fn is_alphanumeric(c: char) -> (r: bool)
    ensures
        r == unicode_alphanumeric(c),
        (c as u32) < 128 ==> (r <==> (('0' <= c && c <= '9') || ('a' <= c && c <= 'z') || ('A' <= c
            && c <= 'Z'))),
{
    c.is_alphanumeric()
}

/// Classes of characters that the scanners skip over.
#[derive(Debug, Clone, Copy, PartialEq, Eq, Structural)]
pub enum CharClass {
    /// Space or tab.
    Space,
    /// Space, tab, carriage return or line feed.
    MultiSpace,
    /// An ASCII digit.
    Digit,
    /// A letter or digit (Unicode) or an underscore.
    Ident,
    /// Anything but a double quote.
    NotQuote,
    /// Anything but a line feed.
    NotNewline,
    /// Space, tab or carriage return.
    Blank,
    /// Anything but a closing square bracket.
    NotCloseBracket,
    /// A letter or digit (Unicode), an underscore, a dot or a square bracket.
    Symbol,
    /// An ASCII hexadecimal digit.
    HexDigit,
    /// A letter or digit (Unicode), a hyphen, an underscore or a colon.
    TagName,
    /// Unicode whitespace (std's `char::is_whitespace`).
    Whitespace,
    /// Anything but a space, a `>` or a `/`.
    OpenTagName,
}

/// Whether `c` belongs to `cls`.
pub open spec fn in_class(cls: CharClass, c: char) -> bool {
    match cls {
        CharClass::Space => c == ' ' || c == '\t',
        CharClass::MultiSpace => c == ' ' || c == '\t' || c == '\r' || c == '\n',
        CharClass::Digit => '0' <= c && c <= '9',
        CharClass::Ident => unicode_alphanumeric(c) || c == '_',
        CharClass::NotQuote => c != '"',
        CharClass::NotNewline => c != '\n',
        CharClass::Blank => c == ' ' || c == '\t' || c == '\r',
        CharClass::NotCloseBracket => c != ']',
        CharClass::Symbol => unicode_alphanumeric(c) || c == '_' || c == '.' || c == '[' || c == ']',
        CharClass::HexDigit => ('0' <= c && c <= '9') || ('a' <= c && c <= 'f') || ('A' <= c && c <= 'F'),
        CharClass::TagName => unicode_alphanumeric(c) || c == '-' || c == '_' || c == ':',
        CharClass::Whitespace => crate::text::is_ws(c),
        CharClass::OpenTagName => c != ' ' && c != '>' && c != '/',
    }
}

/// Whether `c` belongs to `cls`.
pub fn class_test(cls: CharClass, c: char) -> (r: bool)
    ensures
        r == in_class(cls, c),
{
    match cls {
        CharClass::Space => c == ' ' || c == '\t',
        CharClass::MultiSpace => c == ' ' || c == '\t' || c == '\r' || c == '\n',
        CharClass::Digit => '0' <= c && c <= '9',
        CharClass::Ident => is_alphanumeric(c) || c == '_',
        CharClass::NotQuote => c != '"',
        CharClass::NotNewline => c != '\n',
        CharClass::Blank => c == ' ' || c == '\t' || c == '\r',
        CharClass::NotCloseBracket => c != ']',
        CharClass::Symbol => is_alphanumeric(c) || c == '_' || c == '.' || c == '[' || c == ']',
        CharClass::HexDigit => ('0' <= c && c <= '9') || ('a' <= c && c <= 'f') || ('A' <= c && c <= 'F'),
        CharClass::TagName => is_alphanumeric(c) || c == '-' || c == '_' || c == ':',
        CharClass::Whitespace => crate::text::is_whitespace(c),
        CharClass::OpenTagName => c != ' ' && c != '>' && c != '/',
    }
}

/// The end of the run of `cls` characters that starts at `p`.
pub open spec fn scan_spec(s: Seq<char>, p: int, cls: CharClass) -> int
    decreases s.len() - p,
{
    if 0 <= p < s.len() && in_class(cls, s[p]) {
        scan_spec(s, p + 1, cls)
    } else {
        p
    }
}

/// A run ends at or after its start and within the input.
pub proof fn lemma_scan_bounds(s: Seq<char>, p: int, cls: CharClass)
    requires
        0 <= p <= s.len(),
    ensures
        p <= scan_spec(s, p, cls) <= s.len(),
    decreases s.len() - p,
{
    if p < s.len() && in_class(cls, s[p]) {
        lemma_scan_bounds(s, p + 1, cls);
    }
}

/// The end of the run of `cls` characters that starts at `p`.
pub fn scan(s: &[char], p: usize, cls: CharClass) -> (r: usize)
    requires
        p <= s.len(),
    ensures
        r as int == scan_spec(s@, p as int, cls),
        p <= r <= s.len(),
{
    let mut i = p;
    while i < s.len() && class_test(cls, s[i])
        invariant
            p <= i <= s.len(),
            scan_spec(s@, p as int, cls) == scan_spec(s@, i as int, cls),
        decreases s.len() - i,
    {
        i += 1;
    }
    i
}

/// A run of at least one `cls` character at `p`: its end.
pub open spec fn scan1_spec(s: Seq<char>, p: int, cls: CharClass) -> Option<int> {
    let e = scan_spec(s, p, cls);
    if e > p {
        Some(e)
    } else {
        None
    }
}

/// A run of at least one `cls` character at `p`: its end.
pub fn scan1(s: &[char], p: usize, cls: CharClass) -> (r: Option<usize>)
    requires
        p <= s.len(),
    ensures
        match scan1_spec(s@, p as int, cls) {
            Some(e) => r == Some(e as usize) && p < e <= s.len(),
            None => r is None,
        },
{
    let e = scan(s, p, cls);
    if e > p {
        Some(e)
    } else {
        None
    }
}

/// `lit` at `p`: the position after it.
pub open spec fn tag_spec(s: Seq<char>, p: int, lit: Seq<char>) -> Option<int> {
    if 0 <= p && p + lit.len() <= s.len() && s.subrange(p, p + lit.len()) == lit {
        Some(p + lit.len())
    } else {
        None
    }
}

/// `lit` at `p`: the position after it.
pub fn tag(s: &[char], p: usize, lit: &[char]) -> (r: Option<usize>)
    requires
        p <= s.len(),
    ensures
        match tag_spec(s@, p as int, lit@) {
            Some(e) => r == Some(e as usize),
            None => r is None,
        },
        r matches Some(e) ==> p <= e <= s.len(),
{
    if crate::text::has_prefix_at(s, p, lit) {
        Some(p + lit.len())
    } else {
        None
    }
}

/// The character `c` at `p`: the position after it.
pub open spec fn char_spec(s: Seq<char>, p: int, c: char) -> Option<int> {
    if 0 <= p < s.len() && s[p] == c {
        Some(p + 1)
    } else {
        None
    }
}

/// The character `c` at `p`: the position after it.
pub fn char_at(s: &[char], p: usize, c: char) -> (r: Option<usize>)
    requires
        p <= s.len(),
    ensures
        match char_spec(s@, p as int, c) {
            Some(e) => r == Some(e as usize),
            None => r is None,
        },
        r matches Some(e) ==> e == p + 1 && e <= s.len(),
{
    if p < s.len() && s[p] == c {
        Some(p + 1)
    } else {
        None
    }
}

/// A line ending (`\n` or `\r\n`) at `p`: the position after it.
pub open spec fn line_ending_spec(s: Seq<char>, p: int) -> Option<int> {
    if 0 <= p < s.len() && s[p] == '\n' {
        Some(p + 1)
    } else if 0 <= p && p + 1 < s.len() && s[p] == '\r' && s[p + 1] == '\n' {
        Some(p + 2)
    } else {
        None
    }
}

/// A line ending (`\n` or `\r\n`) at `p`: the position after it.
pub fn line_ending(s: &[char], p: usize) -> (r: Option<usize>)
    requires
        p <= s.len(),
    ensures
        match line_ending_spec(s@, p as int) {
            Some(e) => r == Some(e as usize),
            None => r is None,
        },
        r matches Some(e) ==> p < e <= s.len(),
{
    if p < s.len() && s[p] == '\n' {
        Some(p + 1)
    } else if p < s.len() && s.len() - p > 1 && s[p] == '\r' && s[p + 1] == '\n' {
        Some(p + 2)
    } else {
        None
    }
}

/// The position of the next line feed at or after `p`, if there is one.
pub open spec fn until_newline_spec(s: Seq<char>, p: int) -> Option<int> {
    let e = scan_spec(s, p, CharClass::NotNewline);
    if e < s.len() {
        Some(e)
    } else {
        None
    }
}

/// The position of the next line feed at or after `p`, if there is one.
pub fn until_newline(s: &[char], p: usize) -> (r: Option<usize>)
    requires
        p <= s.len(),
    ensures
        match until_newline_spec(s@, p as int) {
            Some(e) => r == Some(e as usize) && p <= e < s.len(),
            None => r is None,
        },
{
    let e = scan(s, p, CharClass::NotNewline);
    if e < s.len() {
        Some(e)
    } else {
        None
    }
}

} // verus!
