//! DBC (CAN database) files: the grammar of the sections that this library
//! reads (version, nodes, messages with their signals, message comments and
//! value descriptions) and a parser that follows it.
//!
//! Numbers in a DBC file that are decimal fractions (factor, offset,
//! minimum, maximum) are kept as the text that the file holds.
use vstd::prelude::*;
use std::collections::HashMap;
use crate::error::BusmasterError;
use crate::number::{parse_i64, parse_i64_spec, parse_unsigned, parse_unsigned_spec};
use crate::scan::{CharClass, char_at, char_spec, in_class, line_ending, line_ending_spec, scan, scan1, scan1_spec, scan_spec, tag, tag_spec, until_newline, until_newline_spec};
use crate::signal::{ByteOrder, SignalDef, ValueType};
use crate::text::{chars_of, owned, slice_to_vec, string_from_chars};

verus! {

broadcast use vstd::string::group_string_axioms;

/// A signal as the grammar reads it.
pub ghost struct DbcSignalModel {
    pub name: Seq<char>,
    pub start_bit: u16,
    pub length: u16,
    pub byte_order: ByteOrder,
    pub value_type: ValueType,
    pub factor: Seq<char>,
    pub offset: Seq<char>,
    pub minimum: Seq<char>,
    pub maximum: Seq<char>,
    pub unit: Seq<char>,
    pub receivers: Seq<Seq<char>>,
}

/// A message as the grammar reads it.
pub ghost struct DbcMessageModel {
    pub id: u32,
    pub name: Seq<char>,
    pub length: u8,
    pub transmitter: Seq<char>,
    pub signals: Seq<DbcSignalModel>,
    pub is_fd: bool,
}

/// A value description statement as the grammar reads it.
pub ghost struct DbcValueDescriptionModel {
    pub message_id: u32,
    pub signal_name: Seq<char>,
    pub values: Seq<(i64, Seq<char>)>,
}

// ---------------------------------------------------------------------------
// Lexical pieces
// ---------------------------------------------------------------------------

/// An identifier: letters, digits and underscores, at least one.
pub open spec fn ident_spec(s: Seq<char>, p: int) -> Option<(int, Seq<char>)> {
    match scan1_spec(s, p, CharClass::Ident) {
        Some(e) => Some((e, s.subrange(p, e))),
        None => None,
    }
}

/// A run of decimal digits read as an unsigned number at most `max`.
pub open spec fn uint_spec(s: Seq<char>, p: int, max: nat) -> Option<(int, nat)> {
    match scan1_spec(s, p, CharClass::Digit) {
        Some(e) => match parse_unsigned_spec(s.subrange(p, e), 10, max) {
            Ok(v) => Some((e, v)),
            Err(_) => None,
        },
        None => None,
    }
}

/// An optional minus sign and decimal digits, read as an `i64`.
pub open spec fn signed_int_spec(s: Seq<char>, p: int) -> Option<(int, i64)> {
    let q = if char_spec(s, p, '-') is Some { p + 1 } else { p };
    match scan1_spec(s, q, CharClass::Digit) {
        Some(e) => match parse_i64_spec(s.subrange(p, e)) {
            Ok(v) => Some((e, v as i64)),
            Err(_) => None,
        },
        None => None,
    }
}

/// The end of an optional `.digits` fraction at `q`.
pub open spec fn fraction_end(s: Seq<char>, q: int) -> int {
    if char_spec(s, q, '.') is Some && scan1_spec(s, q + 1, CharClass::Digit) is Some {
        scan_spec(s, q + 1, CharClass::Digit)
    } else {
        q
    }
}

/// The end of an optional exponent (`e` or `E`, an optional sign, digits) at `q`.
pub open spec fn exponent_end(s: Seq<char>, q: int) -> int {
    if 0 <= q < s.len() && (s[q] == 'e' || s[q] == 'E') {
        let r = if 0 <= q + 1 < s.len() && (s[q + 1] == '+' || s[q + 1] == '-') { q + 2 } else { q + 1 };
        match scan1_spec(s, r, CharClass::Digit) {
            Some(e) => e,
            None => q,
        }
    } else {
        q
    }
}

/// A decimal number: optional minus, digits, optional fraction, optional
/// exponent; its text.
pub open spec fn number_spec(s: Seq<char>, p: int) -> Option<(int, Seq<char>)> {
    let q = if char_spec(s, p, '-') is Some { p + 1 } else { p };
    match scan1_spec(s, q, CharClass::Digit) {
        Some(d) => {
            let e = exponent_end(s, fraction_end(s, d));
            Some((e, s.subrange(p, e)))
        },
        None => None,
    }
}

/// Text between double quotes.
pub open spec fn quoted_spec(s: Seq<char>, p: int) -> Option<(int, Seq<char>)> {
    match char_spec(s, p, '"') {
        Some(q) => {
            let e = scan_spec(s, q, CharClass::NotQuote);
            match char_spec(s, e, '"') {
                Some(r) => Some((r, s.subrange(q, e))),
                None => None,
            }
        },
        None => None,
    }
}

/// Identifiers separated by runs of spaces (or by `,` when `comma`), each
/// separator followed by an identifier; the list may be empty.
pub open spec fn ident_list_spec(s: Seq<char>, p: int, comma: bool) -> (int, Seq<Seq<char>>)
    decreases s.len() - p,
{
    match ident_spec(s, p) {
        None => (p, Seq::empty()),
        Some((e, id)) => {
            let (q, rest) = ident_list_tail_spec(s, e, comma);
            (q, seq![id] + rest)
        },
    }
}

/// Further `separator identifier` pairs after position `p`.
pub open spec fn ident_list_tail_spec(s: Seq<char>, p: int, comma: bool) -> (int, Seq<Seq<char>>)
    decreases s.len() - p, 0int,
{
    let sep = if comma { char_spec(s, p, ',') } else { scan1_spec(s, p, CharClass::Space) };
    match sep {
        None => (p, Seq::empty()),
        Some(q) => if q <= p || q > s.len() {
            (p, Seq::empty())
        } else {
            match ident_spec(s, q) {
                None => (p, Seq::empty()),
                Some((e, id)) => if e <= q || e > s.len() {
                    (p, Seq::empty())
                } else {
                    let (r, rest) = ident_list_tail_spec(s, e, comma);
                    (r, seq![id] + rest)
                },
            }
        },
    }
}

proof fn lemma_scan_le(s: Seq<char>, p: int, cls: CharClass)
    requires
        0 <= p <= s.len(),
    ensures
        p <= scan_spec(s, p, cls) <= s.len(),
    decreases s.len() - p,
{
    if p < s.len() && in_class(cls, s[p]) {
        lemma_scan_le(s, p + 1, cls);
    }
}

fn ident(s: &[char], p: usize) -> (r: Option<(usize, Vec<char>)>)
    requires
        p <= s.len(),
    ensures
        match ident_spec(s@, p as int) {
            Some((e, id)) => r matches Some((e2, v)) && e2 == e && v@ == id,
            None => r is None,
        },
        r matches Some((e, _)) ==> p < e <= s.len(),
{
    match scan1(s, p, CharClass::Ident) {
        Some(e) => Some((e, slice_to_vec(s, p, e))),
        None => None,
    }
}

fn uint(s: &[char], p: usize, max: u64) -> (r: Option<(usize, u64)>)
    requires
        p <= s.len(),
    ensures
        match uint_spec(s@, p as int, max as nat) {
            Some((e, v)) => r == Some((e as usize, v as u64)) && p < e <= s.len() && v <= max,
            None => r is None,
        },
{
    match scan1(s, p, CharClass::Digit) {
        Some(e) => match parse_unsigned(s, p, e, 10, max) {
            Ok(v) => {
                proof {
                    lemma_parse_unsigned_le(s@.subrange(p as int, e as int), max as nat);
                }
                Some((e, v))
            },
            Err(_) => None,
        },
        None => None,
    }
}

proof fn lemma_scan_digits_le(t: Seq<char>, radix: nat, max: nat)
    ensures
        scan_digits_le(t, radix, max),
    decreases t.len(),
{
    if t.len() > 0 {
        lemma_scan_digits_le(t.drop_last(), radix, max);
    }
}

/// A successful scan stays within its bound.
pub open spec fn scan_digits_le(t: Seq<char>, radix: nat, max: nat) -> bool {
    crate::number::scan_digits(t, radix, max) matches Ok(v) ==> v <= max
}

proof fn lemma_parse_unsigned_le(t: Seq<char>, max: nat)
    ensures
        parse_unsigned_spec(t, 10, max) matches Ok(v) ==> v <= max,
{
    lemma_scan_digits_le(t, 10, max);
    if t.len() > 0 {
        lemma_scan_digits_le(t.drop_first(), 10, max);
    }
}

fn signed_int(s: &[char], p: usize) -> (r: Option<(usize, i64)>)
    requires
        p <= s.len(),
    ensures
        match signed_int_spec(s@, p as int) {
            Some((e, v)) => r == Some((e as usize, v)) && p < e <= s.len(),
            None => r is None,
        },
{
    let q = match char_at(s, p, '-') {
        Some(q) => q,
        None => p,
    };
    match scan1(s, q, CharClass::Digit) {
        Some(e) => match parse_i64(s, p, e) {
            Ok(v) => Some((e, v)),
            Err(_) => None,
        },
        None => None,
    }
}

fn number(s: &[char], p: usize) -> (r: Option<(usize, Vec<char>)>)
    requires
        p <= s.len(),
    ensures
        match number_spec(s@, p as int) {
            Some((e, t)) => r matches Some((e2, v)) && e2 == e && v@ == t,
            None => r is None,
        },
        r matches Some((e, _)) ==> p < e <= s.len(),
{
    let q = match char_at(s, p, '-') {
        Some(q) => q,
        None => p,
    };
    let d = match scan1(s, q, CharClass::Digit) {
        Some(d) => d,
        None => return None,
    };
    let mut f = d;
    if char_at(s, d, '.').is_some() {
        if let Some(e) = scan1(s, d + 1, CharClass::Digit) {
            f = e;
        }
    }
    assert(f as int == fraction_end(s@, d as int));
    let mut e = f;
    if f < s.len() && (s[f] == 'e' || s[f] == 'E') {
        let r = if f + 1 < s.len() && (s[f + 1] == '+' || s[f + 1] == '-') {
            f + 2
        } else {
            f + 1
        };
        if let Some(x) = scan1(s, r, CharClass::Digit) {
            e = x;
        }
    }
    assert(e as int == exponent_end(s@, f as int));
    Some((e, slice_to_vec(s, p, e)))
}

fn quoted(s: &[char], p: usize) -> (r: Option<(usize, Vec<char>)>)
    requires
        p <= s.len(),
    ensures
        match quoted_spec(s@, p as int) {
            Some((e, t)) => r matches Some((e2, v)) && e2 == e && v@ == t,
            None => r is None,
        },
        r matches Some((e, _)) ==> p < e <= s.len(),
{
    let q = match char_at(s, p, '"') {
        Some(q) => q,
        None => return None,
    };
    let e = scan(s, q, CharClass::NotQuote);
    match char_at(s, e, '"') {
        Some(r) => Some((r, slice_to_vec(s, q, e))),
        None => None,
    }
}

/// The strings whose characters are those of `v`, in order.
pub open spec fn strings_view(v: Seq<String>) -> Seq<Seq<char>> {
    v.map_values(|x: String| x@)
}

fn ident_list(s: &[char], p: usize, comma: bool) -> (r: (usize, Vec<String>))
    requires
        p <= s.len(),
    ensures
        r.0 as int == ident_list_spec(s@, p as int, comma).0,
        strings_view(r.1@) == ident_list_spec(s@, p as int, comma).1,
        p <= r.0 <= s.len(),
{
    let mut out: Vec<String> = Vec::new();
    let (mut pos, first) = match ident(s, p) {
        None => {
            assert(strings_view(out@) =~= Seq::<Seq<char>>::empty());
            return (p, out);
        },
        Some((e, id)) => (e, id),
    };
    out.push(string_from_chars(first.as_slice()));
    let ghost first_id = first@;
    assert(strings_view(out@) =~= seq![first_id]);
    loop
        invariant
            p < pos <= s.len(),
            ident_list_spec(s@, p as int, comma) == ({
                let (q, rest) = ident_list_tail_spec(s@, pos as int, comma);
                (q, strings_view(out@) + rest)
            }),
        decreases s.len() - pos,
    {
        let sep = if comma {
            char_at(s, pos, ',')
        } else {
            scan1(s, pos, CharClass::Space)
        };
        let q = match sep {
            None => {
                assert(strings_view(out@) + Seq::<Seq<char>>::empty() =~= strings_view(out@));
                return (pos, out);
            },
            Some(q) => q,
        };
        match ident(s, q) {
            None => {
                assert(strings_view(out@) + Seq::<Seq<char>>::empty() =~= strings_view(out@));
                return (pos, out);
            },
            Some((e, id)) => {
                let ghost old_out = strings_view(out@);
                out.push(string_from_chars(id.as_slice()));
                assert(strings_view(out@) =~= old_out.push(id@));
                proof {
                    let (r, rest) = ident_list_tail_spec(s@, e as int, comma);
                    assert(old_out + (seq![id@] + rest) =~= strings_view(out@) + rest);
                }
                pos = e;
            },
        }
    }
}

// ---------------------------------------------------------------------------
// Sections
// ---------------------------------------------------------------------------

/// `VERSION "text"` and the whitespace after it.
pub open spec fn version_spec(s: Seq<char>, p: int) -> Option<(int, Seq<char>)> {
    match tag_spec(s, p, seq!['V', 'E', 'R', 'S', 'I', 'O', 'N']) {
        None => None,
        Some(a) => match scan1_spec(s, a, CharClass::Space) {
            None => None,
            Some(b) => match quoted_spec(s, b) {
                None => None,
                Some((c, v)) => Some((scan_spec(s, c, CharClass::MultiSpace), v)),
            },
        },
    }
}

/// Indented lines after `NS_`, each ended by a line feed.
pub open spec fn ns_lines_spec(s: Seq<char>, p: int) -> int
    decreases s.len() - p,
{
    match scan1_spec(s, p, CharClass::Space) {
        None => p,
        Some(a) => match until_newline_spec(s, a) {
            None => p,
            Some(b) => if p < b + 1 <= s.len() {
                ns_lines_spec(s, b + 1)
            } else {
                p
            },
        },
    }
}

/// One item skipped between sections: the `NS_` block, a `BS_` line (up to
/// its line feed), a line ending, or spaces.
pub open spec fn skip_item_spec(s: Seq<char>, p: int) -> Option<int> {
    if tag_spec(s, p, seq!['N', 'S', '_']) is Some && until_newline_spec(s, p + 3) is Some {
        Some(ns_lines_spec(s, until_newline_spec(s, p + 3)->0 + 1))
    } else if tag_spec(s, p, seq!['B', 'S', '_']) is Some && until_newline_spec(s, p + 3) is Some {
        until_newline_spec(s, p + 3)
    } else if line_ending_spec(s, p) is Some {
        line_ending_spec(s, p)
    } else {
        scan1_spec(s, p, CharClass::Space)
    }
}

/// Everything skipped before the next section.
pub open spec fn skip_spec(s: Seq<char>, p: int) -> int
    decreases s.len() - p,
{
    match skip_item_spec(s, p) {
        Some(q) => if p < q <= s.len() {
            skip_spec(s, q)
        } else {
            p
        },
        None => p,
    }
}

/// `BU_:` and the node names after it, then whitespace.
pub open spec fn nodes_spec(s: Seq<char>, p: int) -> Option<(int, Seq<Seq<char>>)> {
    match tag_spec(s, p, seq!['B', 'U', '_', ':']) {
        None => None,
        Some(a) => {
            let (b, nodes) = ident_list_spec(s, scan_spec(s, a, CharClass::Space), false);
            Some((scan_spec(s, b, CharClass::MultiSpace), nodes))
        },
    }
}

/// `start|length@order sign`.
pub open spec fn layout_spec(s: Seq<char>, p: int) -> Option<(int, (u16, u16, ByteOrder, ValueType))> {
    match uint_spec(s, p, 0xFFFF) {
        None => None,
        Some((a, start)) => match char_spec(s, a, '|') {
            None => None,
            Some(b) => match uint_spec(s, b, 0xFFFF) {
                None => None,
                Some((c, len)) => match char_spec(s, c, '@') {
                    None => None,
                    Some(d) => if 0 <= d && d + 1 < s.len() && (s[d] == '0' || s[d] == '1') && (
                    s[d + 1] == '+' || s[d + 1] == '-') {
                        Some(
                            (
                                d + 2,
                                (
                                    start as u16,
                                    len as u16,
                                    if s[d] == '1' {
                                        ByteOrder::LittleEndian
                                    } else {
                                        ByteOrder::BigEndian
                                    },
                                    if s[d + 1] == '+' {
                                        ValueType::Unsigned
                                    } else {
                                        ValueType::Signed
                                    },
                                ),
                            ),
                        )
                    } else {
                        None
                    },
                },
            },
        },
    }
}

/// Two numbers: `open a sep b close`.
pub open spec fn pair_spec(s: Seq<char>, p: int, open: char, sep: char, close: char) -> Option<
    (int, (Seq<char>, Seq<char>)),
> {
    match char_spec(s, p, open) {
        None => None,
        Some(a) => match number_spec(s, a) {
            None => None,
            Some((b, x)) => match char_spec(s, b, sep) {
                None => None,
                Some(c) => match number_spec(s, c) {
                    None => None,
                    Some((d, y)) => match char_spec(s, d, close) {
                        None => None,
                        Some(e) => Some((e, (x, y))),
                    },
                },
            },
        },
    }
}

/// The position after an optional line ending.
pub open spec fn opt_line_ending_spec(s: Seq<char>, p: int) -> int {
    match line_ending_spec(s, p) {
        Some(q) => q,
        None => p,
    }
}

/// An indented `SG_` line.
pub open spec fn signal_spec(s: Seq<char>, p: int) -> Option<(int, DbcSignalModel)> {
    match scan1_spec(s, p, CharClass::Space) {
        None => None,
        Some(a) => match tag_spec(s, a, seq!['S', 'G', '_']) {
            None => None,
            Some(b) => match scan1_spec(s, b, CharClass::Space) {
                None => None,
                Some(c) => match ident_spec(s, c) {
                    None => None,
                    Some((d, name)) => match char_spec(s, scan_spec(s, d, CharClass::Space), ':') {
                        None => None,
                        Some(e) => match layout_spec(s, scan_spec(s, e, CharClass::Space)) {
                            None => None,
                            Some((f, (start_bit, length, byte_order, value_type))) => match pair_spec(
                                s,
                                scan_spec(s, f, CharClass::Space),
                                '(',
                                ',',
                                ')',
                            ) {
                                None => None,
                                Some((g, (factor, offset))) => match pair_spec(
                                    s,
                                    scan_spec(s, g, CharClass::Space),
                                    '[',
                                    '|',
                                    ']',
                                ) {
                                    None => None,
                                    Some((h, (minimum, maximum))) => match quoted_spec(
                                        s,
                                        scan_spec(s, h, CharClass::Space),
                                    ) {
                                        None => None,
                                        Some((i, unit)) => {
                                            let (j, receivers) = ident_list_spec(
                                                s,
                                                scan_spec(s, i, CharClass::Space),
                                                true,
                                            );
                                            Some(
                                                (
                                                    opt_line_ending_spec(s, j),
                                                    DbcSignalModel {
                                                        name,
                                                        start_bit,
                                                        length,
                                                        byte_order,
                                                        value_type,
                                                        factor,
                                                        offset,
                                                        minimum,
                                                        maximum,
                                                        unit,
                                                        receivers,
                                                    },
                                                ),
                                            )
                                        },
                                    },
                                },
                            },
                        },
                    },
                },
            },
        },
    }
}

/// The signal lines that follow, as many as parse.
pub open spec fn signals_spec(s: Seq<char>, p: int) -> (int, Seq<DbcSignalModel>)
    decreases s.len() - p,
{
    match signal_spec(s, p) {
        Some((q, sig)) => if p < q <= s.len() {
            let (r, rest) = signals_spec(s, q);
            (r, seq![sig] + rest)
        } else {
            (p, Seq::empty())
        },
        None => (p, Seq::empty()),
    }
}

/// A `BO_` line and its signals.
pub open spec fn message_spec(s: Seq<char>, p: int) -> Option<(int, DbcMessageModel)> {
    match tag_spec(s, p, seq!['B', 'O', '_']) {
        None => None,
        Some(a) => match scan1_spec(s, a, CharClass::Space) {
            None => None,
            Some(b) => match uint_spec(s, b, 0xFFFF_FFFF) {
                None => None,
                Some((c, id)) => match scan1_spec(s, c, CharClass::Space) {
                    None => None,
                    Some(d) => match ident_spec(s, d) {
                        None => None,
                        Some((e, name)) => match char_spec(s, e, ':') {
                            None => None,
                            Some(f) => match uint_spec(s, scan_spec(s, f, CharClass::Space), 0xFF) {
                                None => None,
                                Some((g, length)) => match scan1_spec(s, g, CharClass::Space) {
                                    None => None,
                                    Some(h) => match ident_spec(s, h) {
                                        None => None,
                                        Some((i, transmitter)) => {
                                            let (j, signals) = signals_spec(s, opt_line_ending_spec(s, i));
                                            Some(
                                                (
                                                    j,
                                                    DbcMessageModel {
                                                        id: id as u32,
                                                        name,
                                                        length: length as u8,
                                                        transmitter,
                                                        signals,
                                                        is_fd: length > 8,
                                                    },
                                                ),
                                            )
                                        },
                                    },
                                },
                            },
                        },
                    },
                },
            },
        },
    }
}

/// The messages that follow, each after optional whitespace, as many as parse.
pub open spec fn messages_spec(s: Seq<char>, p: int) -> (int, Seq<DbcMessageModel>)
    decreases s.len() - p,
{
    match message_spec(s, scan_spec(s, p, CharClass::MultiSpace)) {
        Some((q, msg)) => if p < q <= s.len() {
            let (r, rest) = messages_spec(s, q);
            (r, seq![msg] + rest)
        } else {
            (p, Seq::empty())
        },
        None => (p, Seq::empty()),
    }
}

/// `CM_ BO_ id "text";` and the whitespace after it.
pub open spec fn comment_spec(s: Seq<char>, p: int) -> Option<(int, (u32, Seq<char>))> {
    match tag_spec(s, p, seq!['C', 'M', '_']) {
        None => None,
        Some(a) => match scan1_spec(s, a, CharClass::Space) {
            None => None,
            Some(b) => match tag_spec(s, b, seq!['B', 'O', '_']) {
                None => None,
                Some(c) => match scan1_spec(s, c, CharClass::Space) {
                    None => None,
                    Some(d) => match uint_spec(s, d, 0xFFFF_FFFF) {
                        None => None,
                        Some((e, id)) => match scan1_spec(s, e, CharClass::Space) {
                            None => None,
                            Some(f) => match quoted_spec(s, f) {
                                None => None,
                                Some((g, text)) => match char_spec(s, g, ';') {
                                    None => None,
                                    Some(h) => Some(
                                        (scan_spec(s, h, CharClass::MultiSpace), (id as u32, text)),
                                    ),
                                },
                            },
                        },
                    },
                },
            },
        },
    }
}

/// The comments that follow, as many as parse.
pub open spec fn comments_spec(s: Seq<char>, p: int) -> (int, Seq<(u32, Seq<char>)>)
    decreases s.len() - p,
{
    match comment_spec(s, p) {
        Some((q, c)) => if p < q <= s.len() {
            let (r, rest) = comments_spec(s, q);
            (r, seq![c] + rest)
        } else {
            (p, Seq::empty())
        },
        None => (p, Seq::empty()),
    }
}

/// `value "text"` and the spaces after it.
pub open spec fn value_pair_spec(s: Seq<char>, p: int) -> Option<(int, (i64, Seq<char>))> {
    match signed_int_spec(s, p) {
        None => None,
        Some((a, v)) => match scan1_spec(s, a, CharClass::Space) {
            None => None,
            Some(b) => match quoted_spec(s, b) {
                None => None,
                Some((c, text)) => Some((scan_spec(s, c, CharClass::Space), (v, text))),
            },
        },
    }
}

/// The value pairs that follow, as many as parse.
pub open spec fn value_pairs_spec(s: Seq<char>, p: int) -> (int, Seq<(i64, Seq<char>)>)
    decreases s.len() - p,
{
    match value_pair_spec(s, p) {
        Some((q, pair)) => if p < q <= s.len() {
            let (r, rest) = value_pairs_spec(s, q);
            (r, seq![pair] + rest)
        } else {
            (p, Seq::empty())
        },
        None => (p, Seq::empty()),
    }
}

/// `VAL_ id signal pairs;` and the whitespace after it.
pub open spec fn value_desc_spec(s: Seq<char>, p: int) -> Option<(int, DbcValueDescriptionModel)> {
    match tag_spec(s, p, seq!['V', 'A', 'L', '_']) {
        None => None,
        Some(a) => match scan1_spec(s, a, CharClass::Space) {
            None => None,
            Some(b) => match uint_spec(s, b, 0xFFFF_FFFF) {
                None => None,
                Some((c, id)) => match scan1_spec(s, c, CharClass::Space) {
                    None => None,
                    Some(d) => match ident_spec(s, d) {
                        None => None,
                        Some((e, name)) => match scan1_spec(s, e, CharClass::Space) {
                            None => None,
                            Some(f) => {
                                let (g, values) = value_pairs_spec(s, f);
                                match char_spec(s, g, ';') {
                                    None => None,
                                    Some(h) => Some(
                                        (
                                            scan_spec(s, h, CharClass::MultiSpace),
                                            DbcValueDescriptionModel {
                                                message_id: id as u32,
                                                signal_name: name,
                                                values,
                                            },
                                        ),
                                    ),
                                }
                            },
                        },
                    },
                },
            },
        },
    }
}

/// The value descriptions that follow, as many as parse.
pub open spec fn value_descs_spec(s: Seq<char>, p: int) -> (int, Seq<DbcValueDescriptionModel>)
    decreases s.len() - p,
{
    match value_desc_spec(s, p) {
        Some((q, d)) => if p < q <= s.len() {
            let (r, rest) = value_descs_spec(s, q);
            (r, seq![d] + rest)
        } else {
            (p, Seq::empty())
        },
        None => (p, Seq::empty()),
    }
}

} // verus!
verus! {
fn version(s: &[char], p: usize) -> (r: Option<(usize, String)>)
    requires
        p <= s.len(),
    ensures
        match version_spec(s@, p as int) {
            Some((e, v)) => r matches Some((e2, t)) && e2 == e && t@ == v && p < e <= s.len(),
            None => r is None,
        },
{
    let lit = ['V', 'E', 'R', 'S', 'I', 'O', 'N'];
    assert(lit@ == seq!['V', 'E', 'R', 'S', 'I', 'O', 'N']);
    let a = match tag(s, p, &lit) {
        Some(a) => a,
        None => return None,
    };
    let b = match scan1(s, a, CharClass::Space) {
        Some(b) => b,
        None => return None,
    };
    let (c, v) = match quoted(s, b) {
        Some(x) => x,
        None => return None,
    };
    Some((scan(s, c, CharClass::MultiSpace), string_from_chars(v.as_slice())))
}
}
verus! {
fn ns_lines(s: &[char], p: usize) -> (r: usize)
    requires
        p <= s.len(),
    ensures
        r as int == ns_lines_spec(s@, p as int),
        p <= r <= s.len(),
{
    let mut pos = p;
    loop
        invariant
            p <= pos <= s.len(),
            ns_lines_spec(s@, p as int) == ns_lines_spec(s@, pos as int),
        decreases s.len() - pos,
    {
        let a = match scan1(s, pos, CharClass::Space) {
            Some(a) => a,
            None => return pos,
        };
        let b = match until_newline(s, a) {
            Some(b) => b,
            None => return pos,
        };
        pos = b + 1;
    }
}

fn skip_item(s: &[char], p: usize) -> (r: Option<usize>)
    requires
        p <= s.len(),
    ensures
        match skip_item_spec(s@, p as int) {
            Some(q) => r == Some(q as usize) && p <= q <= s.len(),
            None => r is None,
        },
{
    let ns = ['N', 'S', '_'];
    let bs = ['B', 'S', '_'];
    assert(ns@ == seq!['N', 'S', '_']);
    assert(bs@ == seq!['B', 'S', '_']);
    if let Some(a) = tag(s, p, &ns) {
        if let Some(b) = until_newline(s, a) {
            return Some(ns_lines(s, b + 1));
        }
    }
    if let Some(a) = tag(s, p, &bs) {
        if let Some(b) = until_newline(s, a) {
            return Some(b);
        }
    }
    if let Some(a) = line_ending(s, p) {
        return Some(a);
    }
    scan1(s, p, CharClass::Space)
}

fn skip(s: &[char], p: usize) -> (r: usize)
    requires
        p <= s.len(),
    ensures
        r as int == skip_spec(s@, p as int),
        p <= r <= s.len(),
{
    let mut pos = p;
    loop
        invariant
            p <= pos <= s.len(),
            skip_spec(s@, p as int) == skip_spec(s@, pos as int),
        decreases s.len() - pos,
    {
        match skip_item(s, pos) {
            Some(q) => {
                if q <= pos {
                    return pos;
                }
                pos = q;
            },
            None => return pos,
        }
    }
}

fn nodes(s: &[char], p: usize) -> (r: Option<(usize, Vec<String>)>)
    requires
        p <= s.len(),
    ensures
        match nodes_spec(s@, p as int) {
            Some((e, v)) => r matches Some((e2, t)) && e2 == e && strings_view(t@) == v && p < e <= s.len(),
            None => r is None,
        },
{
    let lit = ['B', 'U', '_', ':'];
    assert(lit@ == seq!['B', 'U', '_', ':']);
    let a = match tag(s, p, &lit) {
        Some(a) => a,
        None => return None,
    };
    let (b, list) = ident_list(s, scan(s, a, CharClass::Space), false);
    Some((scan(s, b, CharClass::MultiSpace), list))
}
}
verus! {
/// Signal definition within a message.
#[derive(Debug, Clone)]
pub struct DbcSignal {
    /// Signal name
    pub name: String,
    /// Start bit position
    pub start_bit: u16,
    /// Length in bits
    pub length: u16,
    /// Byte order (0 = Motorola/big-endian, 1 = Intel/little-endian)
    pub byte_order: ByteOrder,
    /// Value type (signed/unsigned)
    pub value_type: ValueType,
    /// Scale factor, as the decimal text of the file
    pub factor: String,
    /// Offset, as the decimal text of the file
    pub offset: String,
    /// Minimum value, as the decimal text of the file
    pub minimum: String,
    /// Maximum value, as the decimal text of the file
    pub maximum: String,
    /// Unit string
    pub unit: String,
    /// Receiving nodes
    pub receivers: Vec<String>,
}

impl View for DbcSignal {
    type V = DbcSignalModel;

    open spec fn view(&self) -> DbcSignalModel {
        DbcSignalModel {
            name: self.name@,
            start_bit: self.start_bit,
            length: self.length,
            byte_order: self.byte_order,
            value_type: self.value_type,
            factor: self.factor@,
            offset: self.offset@,
            minimum: self.minimum@,
            maximum: self.maximum@,
            unit: self.unit@,
            receivers: strings_view(self.receivers@),
        }
    }
}

fn layout(s: &[char], p: usize) -> (r: Option<(usize, (u16, u16, ByteOrder, ValueType))>)
    requires
        p <= s.len(),
    ensures
        match layout_spec(s@, p as int) {
            Some((e, v)) => r == Some((e as usize, v)) && p < e <= s.len(),
            None => r is None,
        },
{
    let (a, start) = match uint(s, p, 0xFFFF) {
        Some(x) => x,
        None => return None,
    };
    let b = match char_at(s, a, '|') {
        Some(b) => b,
        None => return None,
    };
    let (c, len) = match uint(s, b, 0xFFFF) {
        Some(x) => x,
        None => return None,
    };
    let d = match char_at(s, c, '@') {
        Some(d) => d,
        None => return None,
    };
    if d < s.len() && s.len() - d > 1 && (s[d] == '0' || s[d] == '1') && (s[d + 1] == '+' || s[d + 1] == '-') {
        let order = if s[d] == '1' {
            ByteOrder::LittleEndian
        } else {
            ByteOrder::BigEndian
        };
        let vt = if s[d + 1] == '+' {
            ValueType::Unsigned
        } else {
            ValueType::Signed
        };
        Some((d + 2, (start as u16, len as u16, order, vt)))
    } else {
        None
    }
}

fn pair(s: &[char], p: usize, open: char, sep: char, close: char) -> (r: Option<
    (usize, (Vec<char>, Vec<char>)),
>)
    requires
        p <= s.len(),
    ensures
        match pair_spec(s@, p as int, open, sep, close) {
            Some((e, (x, y))) => r matches Some((e2, (a, b))) && e2 == e && a@ == x && b@ == y && p
                < e <= s.len(),
            None => r is None,
        },
{
    let a = match char_at(s, p, open) {
        Some(a) => a,
        None => return None,
    };
    let (b, x) = match number(s, a) {
        Some(v) => v,
        None => return None,
    };
    let c = match char_at(s, b, sep) {
        Some(c) => c,
        None => return None,
    };
    let (d, y) = match number(s, c) {
        Some(v) => v,
        None => return None,
    };
    match char_at(s, d, close) {
        Some(e) => Some((e, (x, y))),
        None => None,
    }
}

fn opt_line_ending(s: &[char], p: usize) -> (r: usize)
    requires
        p <= s.len(),
    ensures
        r as int == opt_line_ending_spec(s@, p as int),
        p <= r <= s.len(),
{
    match line_ending(s, p) {
        Some(q) => q,
        None => p,
    }
}
}
verus! {
fn signal(s: &[char], p: usize) -> (r: Option<(usize, DbcSignal)>)
    requires
        p <= s.len(),
    ensures
        match signal_spec(s@, p as int) {
            Some((e, m)) => r matches Some((e2, sig)) && e2 == e && sig@ == m && p < e <= s.len(),
            None => r is None,
        },
{
    let sg = ['S', 'G', '_'];
    assert(sg@ == seq!['S', 'G', '_']);
    let a = match scan1(s, p, CharClass::Space) {
        Some(a) => a,
        None => return None,
    };
    let b = match tag(s, a, &sg) {
        Some(b) => b,
        None => return None,
    };
    let c = match scan1(s, b, CharClass::Space) {
        Some(c) => c,
        None => return None,
    };
    let (d, name) = match ident(s, c) {
        Some(x) => x,
        None => return None,
    };
    let e = match char_at(s, scan(s, d, CharClass::Space), ':') {
        Some(e) => e,
        None => return None,
    };
    let (f, (start_bit, length, byte_order, value_type)) = match layout(
        s,
        scan(s, e, CharClass::Space),
    ) {
        Some(x) => x,
        None => return None,
    };
    let (g, (factor, offset)) = match pair(s, scan(s, f, CharClass::Space), '(', ',', ')') {
        Some(x) => x,
        None => return None,
    };
    let (h, (minimum, maximum)) = match pair(s, scan(s, g, CharClass::Space), '[', '|', ']') {
        Some(x) => x,
        None => return None,
    };
    let (i, unit) = match quoted(s, scan(s, h, CharClass::Space)) {
        Some(x) => x,
        None => return None,
    };
    let (j, receivers) = ident_list(s, scan(s, i, CharClass::Space), true);
    let sig = DbcSignal {
        name: string_from_chars(name.as_slice()),
        start_bit,
        length,
        byte_order,
        value_type,
        factor: string_from_chars(factor.as_slice()),
        offset: string_from_chars(offset.as_slice()),
        minimum: string_from_chars(minimum.as_slice()),
        maximum: string_from_chars(maximum.as_slice()),
        unit: string_from_chars(unit.as_slice()),
        receivers,
    };
    Some((opt_line_ending(s, j), sig))
}

fn signals(s: &[char], p: usize) -> (r: (usize, Vec<DbcSignal>))
    requires
        p <= s.len(),
    ensures
        r.0 as int == signals_spec(s@, p as int).0,
        r.1@.map_values(|x: DbcSignal| x@) == signals_spec(s@, p as int).1,
        p <= r.0 <= s.len(),
{
    let mut out: Vec<DbcSignal> = Vec::new();
    let mut pos = p;
    assert(out@.map_values(|x: DbcSignal| x@) =~= Seq::<DbcSignalModel>::empty());
    loop
        invariant
            p <= pos <= s.len(),
            signals_spec(s@, p as int) == ({
                let (q, rest) = signals_spec(s@, pos as int);
                (q, out@.map_values(|x: DbcSignal| x@) + rest)
            }),
        decreases s.len() - pos,
    {
        match signal(s, pos) {
            None => {
                assert(out@.map_values(|x: DbcSignal| x@) + Seq::<DbcSignalModel>::empty()
                    =~= out@.map_values(|x: DbcSignal| x@));
                return (pos, out);
            },
            Some((q, sig)) => {
                let ghost old_out = out@.map_values(|x: DbcSignal| x@);
                let ghost m = sig@;
                out.push(sig);
                assert(out@.map_values(|x: DbcSignal| x@) =~= old_out.push(m));
                proof {
                    let (r, rest) = signals_spec(s@, q as int);
                    assert(old_out + (seq![m] + rest) =~= out@.map_values(|x: DbcSignal| x@)
                        + rest);
                }
                pos = q;
            },
        }
    }
}
}
verus! {
/// CAN message definition.
#[derive(Debug, Clone)]
pub struct DbcMessage {
    /// Message ID (11-bit or 29-bit)
    pub id: u32,
    /// Message name
    pub name: String,
    /// Data length in bytes (up to 64 for CAN FD)
    pub length: u8,
    /// Transmitting node
    pub transmitter: String,
    /// Signals in this message
    pub signals: Vec<DbcSignal>,
    /// Whether this is a CAN FD message (length > 8)
    pub is_fd: bool,
}

/// The models of a sequence of signals.
pub open spec fn signals_view(v: Seq<DbcSignal>) -> Seq<DbcSignalModel> {
    v.map_values(|x: DbcSignal| x@)
}

impl View for DbcMessage {
    type V = DbcMessageModel;

    open spec fn view(&self) -> DbcMessageModel {
        DbcMessageModel {
            id: self.id,
            name: self.name@,
            length: self.length,
            transmitter: self.transmitter@,
            signals: signals_view(self.signals@),
            is_fd: self.is_fd,
        }
    }
}

/// The CAN FD data length code that a payload of `len` bytes needs: the
/// smallest of 0..=8, 12, 16, 20, 24, 32, 48, 64 that is at least `len`
/// (64 for anything longer).
pub open spec fn fd_dlc_spec(len: u8) -> u8 {
    if len <= 8 {
        len
    } else if len <= 12 {
        12
    } else if len <= 16 {
        16
    } else if len <= 20 {
        20
    } else if len <= 24 {
        24
    } else if len <= 32 {
        32
    } else if len <= 48 {
        48
    } else {
        64
    }
}

impl DbcMessage {
    /// Create a new message
    pub fn new(id: u32, name: String, length: u8, transmitter: String) -> (m: Self)
        ensures
            m.id == id,
            m.name@ == name@,
            m.length == length,
            m.transmitter@ == transmitter@,
            m.signals@.len() == 0,
            m.is_fd == (length > 8),
    {
        DbcMessage { id, name, length, transmitter, signals: Vec::new(), is_fd: length > 8 }
    }

    /// Add a signal to this message
    pub fn add_signal(&mut self, signal: DbcSignal)
        ensures
            final(self).signals@ == old(self).signals@.push(signal),
            final(self).id == old(self).id,
            final(self).name == old(self).name,
            final(self).length == old(self).length,
            final(self).transmitter == old(self).transmitter,
            final(self).is_fd == old(self).is_fd,
    {
        self.signals.push(signal);
    }

    /// Check if this message requires CAN FD
    pub fn requires_fd(&self) -> (r: bool)
        ensures
            r == (self.is_fd || self.length > 8),
    {
        self.is_fd || self.length > 8
    }

    /// Get the CAN FD DLC value for this message length
    pub fn fd_dlc(&self) -> (r: u8)
        ensures
            r == fd_dlc_spec(self.length),
    {
        let l = self.length;
        if l <= 8 {
            l
        } else if l <= 12 {
            12
        } else if l <= 16 {
            16
        } else if l <= 20 {
            20
        } else if l <= 24 {
            24
        } else if l <= 32 {
            32
        } else if l <= 48 {
            48
        } else {
            64
        }
    }
}

/// The CAN FD length code covers the message's length, and is one of the
/// lengths that CAN FD can carry.
pub proof fn lemma_fd_dlc_covers_length(len: u8)
    ensures
        fd_dlc_spec(len) >= len || len > 64,
        fd_dlc_spec(len) <= 8 || fd_dlc_spec(len) == 12 || fd_dlc_spec(len) == 16
            || fd_dlc_spec(len) == 20 || fd_dlc_spec(len) == 24 || fd_dlc_spec(len) == 32
            || fd_dlc_spec(len) == 48 || fd_dlc_spec(len) == 64,
        len <= 8 ==> fd_dlc_spec(len) == len,
{
}

fn message(s: &[char], p: usize) -> (r: Option<(usize, DbcMessage)>)
    requires
        p <= s.len(),
    ensures
        match message_spec(s@, p as int) {
            Some((e, m)) => r matches Some((e2, msg)) && e2 == e && msg@ == m && p < e <= s.len(),
            None => r is None,
        },
{
    let bo = ['B', 'O', '_'];
    assert(bo@ == seq!['B', 'O', '_']);
    let a = match tag(s, p, &bo) {
        Some(a) => a,
        None => return None,
    };
    let b = match scan1(s, a, CharClass::Space) {
        Some(b) => b,
        None => return None,
    };
    let (c, id) = match uint(s, b, 0xFFFF_FFFF) {
        Some(x) => x,
        None => return None,
    };
    let d = match scan1(s, c, CharClass::Space) {
        Some(d) => d,
        None => return None,
    };
    let (e, name) = match ident(s, d) {
        Some(x) => x,
        None => return None,
    };
    let f = match char_at(s, e, ':') {
        Some(f) => f,
        None => return None,
    };
    let (g, length) = match uint(s, scan(s, f, CharClass::Space), 0xFF) {
        Some(x) => x,
        None => return None,
    };
    let h = match scan1(s, g, CharClass::Space) {
        Some(h) => h,
        None => return None,
    };
    let (i, transmitter) = match ident(s, h) {
        Some(x) => x,
        None => return None,
    };
    let (j, sigs) = signals(s, opt_line_ending(s, i));
    let length = length as u8;
    let msg = DbcMessage {
        id: id as u32,
        name: string_from_chars(name.as_slice()),
        length,
        transmitter: string_from_chars(transmitter.as_slice()),
        signals: sigs,
        is_fd: length > 8,
    };
    Some((j, msg))
}

fn messages(s: &[char], p: usize) -> (r: (usize, Vec<DbcMessage>))
    requires
        p <= s.len(),
    ensures
        r.0 as int == messages_spec(s@, p as int).0,
        r.1@.map_values(|x: DbcMessage| x@) == messages_spec(s@, p as int).1,
        p <= r.0 <= s.len(),
{
    let mut out: Vec<DbcMessage> = Vec::new();
    let mut pos = p;
    assert(out@.map_values(|x: DbcMessage| x@) =~= Seq::<DbcMessageModel>::empty());
    loop
        invariant
            p <= pos <= s.len(),
            messages_spec(s@, p as int) == ({
                let (q, rest) = messages_spec(s@, pos as int);
                (q, out@.map_values(|x: DbcMessage| x@) + rest)
            }),
        decreases s.len() - pos,
    {
        match message(s, scan(s, pos, CharClass::MultiSpace)) {
            None => {
                assert(out@.map_values(|x: DbcMessage| x@) + Seq::<DbcMessageModel>::empty()
                    =~= out@.map_values(|x: DbcMessage| x@));
                return (pos, out);
            },
            Some((q, msg)) => {
                let ghost old_out = out@.map_values(|x: DbcMessage| x@);
                let ghost m = msg@;
                out.push(msg);
                assert(out@.map_values(|x: DbcMessage| x@) =~= old_out.push(m));
                proof {
                    let (r, rest) = messages_spec(s@, q as int);
                    assert(old_out + (seq![m] + rest) =~= out@.map_values(|x: DbcMessage| x@)
                        + rest);
                }
                pos = q;
            },
        }
    }
}
}
verus! {
fn comment(s: &[char], p: usize) -> (r: Option<(usize, (u32, String))>)
    requires
        p <= s.len(),
    ensures
        match comment_spec(s@, p as int) {
            Some((e, (id, t))) => r matches Some((e2, (id2, t2))) && e2 == e && id2 == id && t2@
                == t && p < e <= s.len(),
            None => r is None,
        },
{
    let cm = ['C', 'M', '_'];
    let bo = ['B', 'O', '_'];
    assert(cm@ == seq!['C', 'M', '_']);
    assert(bo@ == seq!['B', 'O', '_']);
    let a = match tag(s, p, &cm) {
        Some(a) => a,
        None => return None,
    };
    let b = match scan1(s, a, CharClass::Space) {
        Some(b) => b,
        None => return None,
    };
    let c = match tag(s, b, &bo) {
        Some(c) => c,
        None => return None,
    };
    let d = match scan1(s, c, CharClass::Space) {
        Some(d) => d,
        None => return None,
    };
    let (e, id) = match uint(s, d, 0xFFFF_FFFF) {
        Some(x) => x,
        None => return None,
    };
    let f = match scan1(s, e, CharClass::Space) {
        Some(f) => f,
        None => return None,
    };
    let (g, text) = match quoted(s, f) {
        Some(x) => x,
        None => return None,
    };
    match char_at(s, g, ';') {
        Some(h) => Some((scan(s, h, CharClass::MultiSpace), (id as u32, string_from_chars(text.as_slice())))),
        None => None,
    }
}

/// The pairs of a sequence of numbered strings, each string taken by its characters.
pub open spec fn numbered_view<K>(v: Seq<(K, String)>) -> Seq<(K, Seq<char>)> {
    v.map_values(|x: (K, String)| (x.0, x.1@))
}

fn comments(s: &[char], p: usize) -> (r: (usize, Vec<(u32, String)>))
    requires
        p <= s.len(),
    ensures
        r.0 as int == comments_spec(s@, p as int).0,
        numbered_view(r.1@) == comments_spec(s@, p as int).1,
        p <= r.0 <= s.len(),
{
    let mut out: Vec<(u32, String)> = Vec::new();
    let mut pos = p;
    assert(numbered_view(out@) =~= Seq::<(u32, Seq<char>)>::empty());
    loop
        invariant
            p <= pos <= s.len(),
            comments_spec(s@, p as int) == ({
                let (q, rest) = comments_spec(s@, pos as int);
                (q, numbered_view(out@) + rest)
            }),
        decreases s.len() - pos,
    {
        match comment(s, pos) {
            None => {
                assert(numbered_view(out@) + Seq::<(u32, Seq<char>)>::empty() =~= numbered_view(out@));
                return (pos, out);
            },
            Some((q, c)) => {
                let ghost old_out = numbered_view(out@);
                let ghost m = (c.0, c.1@);
                out.push(c);
                assert(numbered_view(out@) =~= old_out.push(m));
                proof {
                    let (r, rest) = comments_spec(s@, q as int);
                    assert(old_out + (seq![m] + rest) =~= numbered_view(out@) + rest);
                }
                pos = q;
            },
        }
    }
}

fn value_pair(s: &[char], p: usize) -> (r: Option<(usize, (i64, String))>)
    requires
        p <= s.len(),
    ensures
        match value_pair_spec(s@, p as int) {
            Some((e, (v, t))) => r matches Some((e2, (v2, t2))) && e2 == e && v2 == v && t2@ == t
                && p < e <= s.len(),
            None => r is None,
        },
{
    let (a, v) = match signed_int(s, p) {
        Some(x) => x,
        None => return None,
    };
    let b = match scan1(s, a, CharClass::Space) {
        Some(b) => b,
        None => return None,
    };
    match quoted(s, b) {
        Some((c, text)) => Some((scan(s, c, CharClass::Space), (v, string_from_chars(text.as_slice())))),
        None => None,
    }
}

fn value_pairs(s: &[char], p: usize) -> (r: (usize, Vec<(i64, String)>))
    requires
        p <= s.len(),
    ensures
        r.0 as int == value_pairs_spec(s@, p as int).0,
        numbered_view(r.1@) == value_pairs_spec(s@, p as int).1,
        p <= r.0 <= s.len(),
{
    let mut out: Vec<(i64, String)> = Vec::new();
    let mut pos = p;
    assert(numbered_view(out@) =~= Seq::<(i64, Seq<char>)>::empty());
    loop
        invariant
            p <= pos <= s.len(),
            value_pairs_spec(s@, p as int) == ({
                let (q, rest) = value_pairs_spec(s@, pos as int);
                (q, numbered_view(out@) + rest)
            }),
        decreases s.len() - pos,
    {
        match value_pair(s, pos) {
            None => {
                assert(numbered_view(out@) + Seq::<(i64, Seq<char>)>::empty() =~= numbered_view(out@));
                return (pos, out);
            },
            Some((q, c)) => {
                let ghost old_out = numbered_view(out@);
                let ghost m = (c.0, c.1@);
                out.push(c);
                assert(numbered_view(out@) =~= old_out.push(m));
                proof {
                    let (r, rest) = value_pairs_spec(s@, q as int);
                    assert(old_out + (seq![m] + rest) =~= numbered_view(out@) + rest);
                }
                pos = q;
            },
        }
    }
}
}
verus! {
/// A value description statement as read, before its pairs are collected.
pub open spec fn raw_desc_view(d: (u32, String, Vec<(i64, String)>)) -> DbcValueDescriptionModel {
    DbcValueDescriptionModel { message_id: d.0, signal_name: d.1@, values: numbered_view(d.2@) }
}

fn value_desc(s: &[char], p: usize) -> (r: Option<(usize, (u32, String, Vec<(i64, String)>))>)
    requires
        p <= s.len(),
    ensures
        match value_desc_spec(s@, p as int) {
            Some((e, m)) => r matches Some((e2, d)) && e2 == e && raw_desc_view(d) == m && p < e
                <= s.len(),
            None => r is None,
        },
{
    let val = ['V', 'A', 'L', '_'];
    assert(val@ == seq!['V', 'A', 'L', '_']);
    let a = match tag(s, p, &val) {
        Some(a) => a,
        None => return None,
    };
    let b = match scan1(s, a, CharClass::Space) {
        Some(b) => b,
        None => return None,
    };
    let (c, id) = match uint(s, b, 0xFFFF_FFFF) {
        Some(x) => x,
        None => return None,
    };
    let d = match scan1(s, c, CharClass::Space) {
        Some(d) => d,
        None => return None,
    };
    let (e, name) = match ident(s, d) {
        Some(x) => x,
        None => return None,
    };
    let f = match scan1(s, e, CharClass::Space) {
        Some(f) => f,
        None => return None,
    };
    let (g, values) = value_pairs(s, f);
    match char_at(s, g, ';') {
        Some(h) => Some(
            (scan(s, h, CharClass::MultiSpace), (id as u32, string_from_chars(name.as_slice()), values)),
        ),
        None => None,
    }
}

fn value_descs(s: &[char], p: usize) -> (r: (usize, Vec<(u32, String, Vec<(i64, String)>)>))
    requires
        p <= s.len(),
    ensures
        r.0 as int == value_descs_spec(s@, p as int).0,
        r.1@.map_values(|d| raw_desc_view(d)) == value_descs_spec(s@, p as int).1,
        p <= r.0 <= s.len(),
{
    let mut out: Vec<(u32, String, Vec<(i64, String)>)> = Vec::new();
    let mut pos = p;
    assert(out@.map_values(|d| raw_desc_view(d)) =~= Seq::<DbcValueDescriptionModel>::empty());
    loop
        invariant
            p <= pos <= s.len(),
            value_descs_spec(s@, p as int) == ({
                let (q, rest) = value_descs_spec(s@, pos as int);
                (q, out@.map_values(|d| raw_desc_view(d)) + rest)
            }),
        decreases s.len() - pos,
    {
        match value_desc(s, pos) {
            None => {
                assert(out@.map_values(|d| raw_desc_view(d)) + Seq::<DbcValueDescriptionModel>::empty()
                    =~= out@.map_values(|d| raw_desc_view(d)));
                return (pos, out);
            },
            Some((q, d)) => {
                let ghost old_out = out@.map_values(|d| raw_desc_view(d));
                let ghost m = raw_desc_view(d);
                out.push(d);
                assert(out@.map_values(|d| raw_desc_view(d)) =~= old_out.push(m));
                proof {
                    let (r, rest) = value_descs_spec(s@, q as int);
                    assert(old_out + (seq![m] + rest) =~= out@.map_values(|d| raw_desc_view(d))
                        + rest);
                }
                pos = q;
            },
        }
    }
}

/// The map that inserting the pairs in order builds: a later pair replaces
/// an earlier one with the same key.
pub open spec fn pairs_map<K>(v: Seq<(K, Seq<char>)>) -> Map<K, Seq<char>>
    decreases v.len(),
{
    if v.len() == 0 {
        Map::empty()
    } else {
        pairs_map(v.drop_last()).insert(v.last().0, v.last().1)
    }
}

/// The strings of a map, each taken by its characters.
pub open spec fn strings_map_view<K>(m: Map<K, String>) -> Map<K, Seq<char>> {
    m.map_values(|v: String| v@)
}

fn pairs_to_map<K: Copy>(v: &Vec<(K, String)>) -> (m: HashMap<K, String>)
    where
        K: std::hash::Hash + Eq,
    requires
        vstd::std_specs::hash::obeys_key_model::<K>(),
    ensures
        strings_map_view(m@) == pairs_map(numbered_view(v@)),
{
    let mut m: HashMap<K, String> = HashMap::new();
    let mut i: usize = 0;
    assert(numbered_view(v@).take(0) =~= Seq::<(K, Seq<char>)>::empty());
    assert(strings_map_view(m@) =~= pairs_map(numbered_view(v@).take(0)));
    while i < v.len()
        invariant
            i <= v.len(),
            vstd::std_specs::hash::obeys_key_model::<K>(),
            strings_map_view(m@) == pairs_map(numbered_view(v@).take(i as int)),
        decreases v.len() - i,
    {
        let k = v[i].0;
        let t = v[i].1.clone();
        m.insert(k, t);
        assert(numbered_view(v@).take(i + 1).drop_last() =~= numbered_view(v@).take(i as int));
        assert(strings_map_view(m@) =~= pairs_map(numbered_view(v@).take(i + 1)));
        i += 1;
    }
    assert(numbered_view(v@).take(v.len() as int) =~= numbered_view(v@));
    m
}
}
verus! {
/// The values of one signal, as the database holds them.
pub ghost struct DbcValueMapModel {
    pub message_id: u32,
    pub signal_name: Seq<char>,
    pub values: Map<i64, Seq<char>>,
}

/// Value descriptions (enumerations) of one signal.
#[derive(Debug, Clone)]
pub struct DbcValueDescription {
    /// Message ID
    pub message_id: u32,
    /// Signal name
    pub signal_name: String,
    /// Raw value -> description
    pub values: HashMap<i64, String>,
}

impl View for DbcValueDescription {
    type V = DbcValueMapModel;

    open spec fn view(&self) -> DbcValueMapModel {
        DbcValueMapModel {
            message_id: self.message_id,
            signal_name: self.signal_name@,
            values: strings_map_view(self.values@),
        }
    }
}

/// The index of the last of the first `n` entries with the given key, or -1.
pub open spec fn find_desc(acc: Seq<DbcValueMapModel>, id: u32, name: Seq<char>, n: int) -> int
    decreases n,
{
    if n <= 0 {
        -1
    } else if acc[n - 1].message_id == id && acc[n - 1].signal_name == name {
        n - 1
    } else {
        find_desc(acc, id, name, n - 1)
    }
}

/// The entries that collecting the statements into a map keyed by (message,
/// signal) gives: a later statement for a key replaces the earlier one in
/// its place; a new key comes last.
pub open spec fn collect_descs(d: Seq<DbcValueDescriptionModel>) -> Seq<DbcValueMapModel>
    decreases d.len(),
{
    if d.len() == 0 {
        Seq::empty()
    } else {
        let acc = collect_descs(d.drop_last());
        let x = d.last();
        let entry = DbcValueMapModel {
            message_id: x.message_id,
            signal_name: x.signal_name,
            values: pairs_map(x.values),
        };
        let i = find_desc(acc, x.message_id, x.signal_name, acc.len() as int);
        if i >= 0 {
            acc.update(i, entry)
        } else {
            acc.push(entry)
        }
    }
}

proof fn lemma_find_desc_range(acc: Seq<DbcValueMapModel>, id: u32, name: Seq<char>, n: int)
    requires
        0 <= n <= acc.len(),
    ensures
        -1 <= find_desc(acc, id, name, n) < n,
        find_desc(acc, id, name, n) >= 0 ==> acc[find_desc(acc, id, name, n)].message_id == id
            && acc[find_desc(acc, id, name, n)].signal_name == name,
        find_desc(acc, id, name, n) < 0 ==> forall|j: int|
            0 <= j < n ==> !(#[trigger] acc[j].message_id == id && acc[j].signal_name == name),
    decreases n,
{
    if n > 0 {
        lemma_find_desc_range(acc, id, name, n - 1);
    }
}

fn find_desc_exec(acc: &Vec<DbcValueDescription>, id: u32, name: &String) -> (r: Option<usize>)
    ensures
        ({
            let i = find_desc(acc@.map_values(|x: DbcValueDescription| x@), id, name@, acc.len() as int);
            match r {
                Some(j) => i == j,
                None => i < 0,
            }
        }),
{
    let ghost m = acc@.map_values(|x: DbcValueDescription| x@);
    let mut i = acc.len();
    while i > 0
        invariant
            i <= acc.len(),
            m == acc@.map_values(|x: DbcValueDescription| x@),
            find_desc(m, id, name@, acc.len() as int) == find_desc(m, id, name@, i as int),
        decreases i,
    {
        if acc[i - 1].message_id == id && acc[i - 1].signal_name == *name {
            return Some(i - 1);
        }
        i -= 1;
    }
    None
}

fn collect(v: &Vec<(u32, String, Vec<(i64, String)>)>) -> (r: Vec<DbcValueDescription>)
    ensures
        r@.map_values(|x: DbcValueDescription| x@) == collect_descs(
            v@.map_values(|d| raw_desc_view(d)),
        ),
{
    let ghost src = v@.map_values(|d| raw_desc_view(d));
    let mut out: Vec<DbcValueDescription> = Vec::new();
    let mut i: usize = 0;
    assert(src.take(0) =~= Seq::<DbcValueDescriptionModel>::empty());
    assert(out@.map_values(|x: DbcValueDescription| x@) =~= collect_descs(src.take(0)));
    while i < v.len()
        invariant
            i <= v.len(),
            src == v@.map_values(|d| raw_desc_view(d)),
            out@.map_values(|x: DbcValueDescription| x@) == collect_descs(src.take(i as int)),
        decreases v.len() - i,
    {
        let ghost acc = out@.map_values(|x: DbcValueDescription| x@);
        let entry = DbcValueDescription {
            message_id: v[i].0,
            signal_name: v[i].1.clone(),
            values: pairs_to_map(&v[i].2),
        };
        assert(src.take(i + 1).drop_last() =~= src.take(i as int));
        assert(src.take(i + 1).last() == src[i as int]);
        match find_desc_exec(&out, entry.message_id, &entry.signal_name) {
            Some(j) => {
                proof {
                    lemma_find_desc_range(acc, entry.message_id, entry.signal_name@, acc.len() as int);
                }
                out.set(j, entry);
                assert(out@.map_values(|x: DbcValueDescription| x@) =~= acc.update(j as int, entry@));
            },
            None => {
                out.push(entry);
                assert(out@.map_values(|x: DbcValueDescription| x@) =~= acc.push(entry@));
            },
        }
        i += 1;
    }
    assert(src.take(v.len() as int) =~= src);
    out
}
}
verus! {
/// A whole database as the grammar reads it.
pub ghost struct DbcDatabaseModel {
    pub version: Seq<char>,
    pub nodes: Seq<Seq<char>>,
    pub messages: Seq<DbcMessageModel>,
    pub comments: Map<u32, Seq<char>>,
    pub value_descriptions: Seq<DbcValueMapModel>,
}

/// The database that a DBC text holds: leading whitespace, the version,
/// skipped `NS_`/`BS_` blocks, the nodes, the messages, the message comments
/// and the value descriptions. It exists when the version and the node list
/// are there; whatever follows the last section that parses is ignored.
pub open spec fn dbc_spec(s: Seq<char>) -> Option<DbcDatabaseModel> {
    match version_spec(s, scan_spec(s, 0, CharClass::MultiSpace)) {
        None => None,
        Some((a, version)) => match nodes_spec(s, skip_spec(s, a)) {
            None => None,
            Some((c, nodes)) => {
                let (e, messages) = messages_spec(s, skip_spec(s, c));
                let (g, comments) = comments_spec(s, scan_spec(s, e, CharClass::MultiSpace));
                let (_, descs) = value_descs_spec(s, scan_spec(s, g, CharClass::MultiSpace));
                Some(
                    DbcDatabaseModel {
                        version,
                        nodes,
                        messages,
                        comments: pairs_map(comments),
                        value_descriptions: collect_descs(descs),
                    },
                )
            },
        },
    }
}

/// The message of the error for a text without a database: it names the
/// first section that is missing.
pub open spec fn dbc_failure_message(s: Seq<char>) -> Seq<char> {
    if version_spec(s, scan_spec(s, 0, CharClass::MultiSpace)) is None {
        "Failed to parse DBC: expected VERSION \"...\""@
    } else {
        "Failed to parse DBC: expected BU_:"@
    }
}

/// DBC database containing all parsed information.
#[derive(Debug, Clone)]
pub struct DbcDatabase {
    /// File version string
    pub version: String,
    /// Network nodes (ECUs)
    pub nodes: Vec<String>,
    /// CAN messages
    pub messages: Vec<DbcMessage>,
    /// Comments (message ID -> comment)
    pub comments: HashMap<u32, String>,
    /// Value descriptions, one entry per (message ID, signal name)
    pub value_descriptions: Vec<DbcValueDescription>,
}

impl View for DbcDatabase {
    type V = DbcDatabaseModel;

    open spec fn view(&self) -> DbcDatabaseModel {
        DbcDatabaseModel {
            version: self.version@,
            nodes: strings_view(self.nodes@),
            messages: self.messages@.map_values(|m: DbcMessage| m@),
            comments: strings_map_view(self.comments@),
            value_descriptions: self.value_descriptions@.map_values(|d: DbcValueDescription| d@),
        }
    }
}

/// The position of the first message with the given id.
pub open spec fn first_message(msgs: Seq<DbcMessage>, id: u32) -> Option<int> {
    if exists|i: int| 0 <= i < msgs.len() && msgs[i].id == id {
        Some(
            choose|i: int|
                0 <= i < msgs.len() && msgs[i].id == id && forall|j: int|
                    0 <= j < i ==> msgs[j].id != id,
        )
    } else {
        None
    }
}

/// The position of the first signal with the given name.
pub open spec fn first_signal(sigs: Seq<DbcSignal>, name: Seq<char>) -> Option<int> {
    if exists|i: int| 0 <= i < sigs.len() && sigs[i].name@ == name {
        Some(
            choose|i: int|
                0 <= i < sigs.len() && sigs[i].name@ == name && forall|j: int|
                    0 <= j < i ==> sigs[j].name@ != name,
        )
    } else {
        None
    }
}

impl DbcDatabase {
    /// Create a new empty database
    pub fn new() -> (db: Self)
        ensures
            db@.version == Seq::<char>::empty(),
            db@.nodes.len() == 0,
            db@.messages.len() == 0,
            db@.comments == Map::<u32, Seq<char>>::empty(),
            db@.value_descriptions.len() == 0,
    {
        let db = DbcDatabase {
            version: String::new(),
            nodes: Vec::new(),
            messages: Vec::new(),
            comments: HashMap::new(),
            value_descriptions: Vec::new(),
        };
        assert(strings_map_view(db.comments@) =~= Map::<u32, Seq<char>>::empty());
        db
    }

    /// Find a message by ID: the first one with that ID.
    pub fn find_message(&self, id: u32) -> (r: Option<&DbcMessage>)
        ensures
            match first_message(self.messages@, id) {
                Some(i) => r == Some(&self.messages@[i]),
                None => r is None,
            },
    {
        let mut i: usize = 0;
        while i < self.messages.len()
            invariant
                i <= self.messages.len(),
                forall|j: int| 0 <= j < i ==> self.messages@[j].id != id,
            decreases self.messages.len() - i,
        {
            if self.messages[i].id == id {
                proof {
                    let k = i as int;
                    assert(0 <= k < self.messages@.len() && self.messages@[k].id == id);
                    let c = choose|c: int|
                        0 <= c < self.messages@.len() && self.messages@[c].id == id && forall|j: int|
                            0 <= j < c ==> self.messages@[j].id != id;
                    assert(c == k) by {
                        if c < k {
                        } else if c > k {
                            assert(self.messages@[k].id != id);
                        }
                    }
                }
                return Some(&self.messages[i]);
            }
            i += 1;
        }
        None
    }

    /// Find a signal by message ID and signal name: the first signal of that
    /// name in the first message with that ID.
    pub fn find_signal(&self, message_id: u32, signal_name: &str) -> (r: Option<&DbcSignal>)
        ensures
            match first_message(self.messages@, message_id) {
                Some(i) => match first_signal(self.messages@[i].signals@, signal_name@) {
                    Some(k) => r == Some(&self.messages@[i].signals@[k]),
                    None => r is None,
                },
                None => r is None,
            },
    {
        let msg = match self.find_message(message_id) {
            Some(m) => m,
            None => return None,
        };
        let key = owned(signal_name);
        let ghost mi = first_message(self.messages@, message_id)->0;
        let mut i: usize = 0;
        while i < msg.signals.len()
            invariant
                i <= msg.signals.len(),
                first_message(self.messages@, message_id) == Some(mi),
                *msg == self.messages@[mi],
                key@ == signal_name@,
                forall|j: int| 0 <= j < i ==> msg.signals@[j].name@ != signal_name@,
            decreases msg.signals.len() - i,
        {
            if msg.signals[i].name == key {
                proof {
                    let k = i as int;
                    let sigs = msg.signals@;
                    assert(0 <= k < sigs.len() && sigs[k].name@ == signal_name@);
                    let c = choose|c: int|
                        0 <= c < sigs.len() && sigs[c].name@ == signal_name@ && forall|j: int|
                            0 <= j < c ==> sigs[j].name@ != signal_name@;
                    assert(c == k) by {
                        if c < k {
                        } else if c > k {
                            assert(sigs[k].name@ != signal_name@);
                        }
                    }
                    assert(first_signal(sigs, signal_name@) == Some(k));
                }
                return Some(&msg.signals[i]);
            }
            i += 1;
        }
        None
    }
}

impl Default for DbcDatabase {
    fn default() -> (db: Self)
        ensures
            db@.version == Seq::<char>::empty(),
            db@.nodes.len() == 0,
            db@.messages.len() == 0,
            db@.comments == Map::<u32, Seq<char>>::empty(),
            db@.value_descriptions.len() == 0,
    {
        Self::new()
    }
}

impl DbcSignal {
    /// Convert to a `SignalDef` for signal extraction: name, position,
    /// length, byte order, value type and unit carry over; the definition
    /// has no comment. (Scaling stays with the decimal texts here.)
    pub fn to_signal_def(&self) -> (r: SignalDef)
        ensures
            r.name@ == self.name@,
            r.start_bit == self.start_bit,
            r.bit_length == self.length,
            r.byte_order == self.byte_order,
            r.value_type == self.value_type,
            r.unit@ == self.unit@,
            r.comment is None,
    {
        SignalDef::new(self.name.as_str(), self.start_bit, self.length)
            .with_byte_order(self.byte_order)
            .with_value_type(self.value_type)
            .with_unit(self.unit.as_str())
    }
}

/// DBC file parser.
pub struct DbcParser;

impl DbcParser {
    /// Parse a DBC file from a string.
    ///
    /// Succeeds exactly when the text has a `VERSION` line and a `BU_:` node
    /// list (with what may stand between them); the database then holds
    /// what the grammar reads. Otherwise the error is a database parse
    /// error at line 0 that names the missing section.
    pub fn parse(input: &str) -> (r: Result<DbcDatabase, BusmasterError>)
        ensures
            match dbc_spec(input@) {
                Some(m) => r matches Ok(db) && db@ == m,
                None => r matches Err(BusmasterError::DatabaseParse { message, line }) && line == 0
                    && message@ == dbc_failure_message(input@),
            },
    {
        let v = chars_of(input);
        let s = v.as_slice();
        let (a, version) = match version(s, scan(s, 0, CharClass::MultiSpace)) {
            Some(x) => x,
            None => {
                let msg = owned("Failed to parse DBC: expected VERSION \"...\"");
                proof {
                    reveal_strlit("Failed to parse DBC: expected VERSION \"...\"");
                }
                return Err(BusmasterError::DatabaseParse { message: msg, line: 0 });
            },
        };
        let (c, nodes) = match nodes(s, skip(s, a)) {
            Some(x) => x,
            None => {
                let msg = owned("Failed to parse DBC: expected BU_:");
                proof {
                    reveal_strlit("Failed to parse DBC: expected BU_:");
                }
                return Err(BusmasterError::DatabaseParse { message: msg, line: 0 });
            },
        };
        let (e, messages) = messages(s, skip(s, c));
        let (g, comment_list) = comments(s, scan(s, e, CharClass::MultiSpace));
        let (_, descs) = value_descs(s, scan(s, g, CharClass::MultiSpace));
        let db = DbcDatabase {
            version,
            nodes,
            messages,
            comments: pairs_to_map(&comment_list),
            value_descriptions: collect(&descs),
        };
        Ok(db)
    }
}
}
verus! {
/// No two entries share a (message, signal) key.
pub open spec fn desc_keys_unique(v: Seq<DbcValueMapModel>) -> bool {
    forall|i: int, j: int|
        0 <= i < j < v.len() ==> !(#[trigger] v[i].message_id == #[trigger] v[j].message_id
            && v[i].signal_name == v[j].signal_name)
}

/// The value descriptions of a database hold each (message, signal) key at
/// most once, as the keys of a map do.
pub proof fn lemma_collect_descs_unique(d: Seq<DbcValueDescriptionModel>)
    ensures
        desc_keys_unique(collect_descs(d)),
    decreases d.len(),
{
    if d.len() > 0 {
        let acc = collect_descs(d.drop_last());
        lemma_collect_descs_unique(d.drop_last());
        let x = d.last();
        lemma_find_desc_range(acc, x.message_id, x.signal_name, acc.len() as int);
    }
}

/// The decimal digits of `n`, then a character that is not a digit, read
/// as a signed integer: the value is `n`.
pub proof fn lemma_signed_int_digits(s: Seq<char>, p: int, n: nat)
    requires
        n <= 0x7FFF_FFFF_FFFF_FFFF,
        crate::arxml_parser::at(s, p, crate::text::dec_digits(n)),
        p + crate::text::dec_digits(n).len() == s.len() || !in_class(
            CharClass::Digit,
            s[p + crate::text::dec_digits(n).len()],
        ),
    ensures
        signed_int_spec(s, p) == Some((p + crate::text::dec_digits(n).len(), n as i64)),
{
    let d = crate::text::dec_digits(n);
    crate::dbf_roundtrip::lemma_dec_digits(n, 0x7FFF_FFFF_FFFF_FFFF);
    assert forall|i: int| p <= i < p + d.len() implies in_class(CharClass::Digit, #[trigger] s[i]) by {
        assert(s[i] == s.subrange(p, p + d.len())[i - p]);
    }
    assert(s[p] == d[0]);
    crate::dbf_roundtrip::lemma_scan_run(s, p, d.len() as int, CharClass::Digit);
    assert(s.subrange(p, p + d.len()) =~= d);
}

/// A minus sign, the decimal digits of `n`, then a character that is not a
/// digit, read as a signed integer: the value is minus `n`, the negation of
/// what the digits alone give.
pub proof fn lemma_signed_int_negative(s: Seq<char>, p: int, n: nat)
    requires
        n <= 0x8000_0000_0000_0000,
        crate::arxml_parser::at(s, p, "-"@ + crate::text::dec_digits(n)),
        p + 1 + crate::text::dec_digits(n).len() == s.len() || !in_class(
            CharClass::Digit,
            s[p + 1 + crate::text::dec_digits(n).len()],
        ),
    ensures
        signed_int_spec(s, p) == Some((p + 1 + crate::text::dec_digits(n).len(), (-n) as i64)),
        (-n) as i64 == -n,
{
    reveal_strlit("-");
    let d = crate::text::dec_digits(n);
    let t = "-"@ + d;
    crate::dbf_roundtrip::lemma_dec_digits(n, 0x8000_0000_0000_0000);
    assert(s[p] == t[0]);
    assert(char_spec(s, p, '-') == Some(p + 1));
    assert forall|i: int| p + 1 <= i < p + 1 + d.len() implies in_class(CharClass::Digit, #[trigger] s[i]) by {
        assert(s[i] == s.subrange(p, p + t.len())[i - p]);
        assert(t[i - p] == d[i - p - 1]);
    }
    crate::dbf_roundtrip::lemma_scan_run(s, p + 1, d.len() as int, CharClass::Digit);
    assert(s.subrange(p, p + 1 + d.len()) =~= t);
    assert(t.drop_first() =~= d);
}
}
