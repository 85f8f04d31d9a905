//! Reading a LIN description file: the text is taken line by line, each
//! line trimmed; header lines set the versions and speed, and the `Nodes`,
//! `Signals`, `Frames`, `Schedule_tables` and `Node_attributes` sections are
//! read up to their closing brace.
use vstd::prelude::*;
use crate::a2l_parser::decimal_scan;
use crate::dbf::{nonempty_trimmed, nonempty_trimmed_exec, occurs_at, strings_view as dbf_strings, uint_field, vecs_view};
use crate::ecu_database::{first_where, lemma_first_where_at};
use crate::error::BusmasterError;
use crate::ldf::{
    empty_ldf, no_attributes, slave_named, LdfDatabase, LdfDatabaseModel, LdfEntryTypeModel, LdfFrame,
    LdfFrameModel, LdfMasterModel, LdfMasterNode, LdfNodeAttributes, LdfNodeAttributesModel, LdfScheduleEntry,
    LdfScheduleEntryModel, LdfScheduleEntryType, LdfScheduleTable, LdfScheduleTableModel, LdfSignal,
    LdfSignalModel, LdfSlaveNode,
};
use crate::number::parse_unsigned_spec;
use crate::scan::{scan, CharClass};
use crate::text::{chars_of, is_whitespace, is_ws, slice_to_vec, split_at_char, split_spec, string_from_chars, trim, trim_spec, trim_start_spec};

verus! {

broadcast use vstd::string::group_string_axioms;

// ---------------------------------------------------------------------------
// Pieces of a line
// ---------------------------------------------------------------------------

/// `s` with every leading repetition of `p` removed (`str::trim_start_matches`).
pub open spec fn strip_prefix_all(s: Seq<char>, p: Seq<char>) -> Seq<char>
    decreases s.len(),
{
    if p.len() > 0 && p.is_prefix_of(s) {
        strip_prefix_all(s.subrange(p.len() as int, s.len() as int), p)
    } else {
        s
    }
}

/// `s` with every trailing `c` removed (`str::trim_end_matches`).
pub open spec fn strip_suffix_all(s: Seq<char>, c: char) -> Seq<char>
    decreases s.len(),
{
    if s.len() > 0 && s.last() == c {
        strip_suffix_all(s.drop_last(), c)
    } else {
        s
    }
}

/// Whether a character is `c`.
pub open spec fn is_char(c: char) -> spec_fn(char) -> bool {
    |x: char| x == c
}

/// The position of the first `c` in `s` (`str::find`).
pub open spec fn find_char(s: Seq<char>, c: char) -> Option<int> {
    first_where(s, is_char(c))
}

/// The position of the first occurrence of `n` in `s` (`str::find`).
pub open spec fn find_text(s: Seq<char>, n: Seq<char>) -> Option<int> {
    if exists|i: int| #[trigger] occurs_at(s, n, i) {
        Some(choose|i: int| #[trigger] occurs_at(s, n, i) && forall|j: int| 0 <= j < i ==> !#[trigger] occurs_at(s, n, j))
    } else {
        None
    }
}

/// The characters up to the first whitespace.
pub open spec fn leading_word(u: Seq<char>) -> Seq<char>
    decreases u.len(),
{
    if u.len() == 0 || is_ws(u[0]) {
        Seq::empty()
    } else {
        seq![u[0]] + leading_word(u.drop_first())
    }
}

/// The first whitespace-separated word of `t`, if any
/// (`str::split_whitespace().next()`).
pub open spec fn first_word(t: Seq<char>) -> Option<Seq<char>> {
    let w = leading_word(trim_start_spec(t));
    if w.len() == 0 {
        None
    } else {
        Some(w)
    }
}

/// Whether `c` is the letter `l` (one of the lower-case letters of `inf`,
/// `infinity` and `nan`) in either case.
pub open spec fn letter_ci(c: char, l: char) -> bool {
    ||| c == l
    ||| l == 'i' && c == 'I'
    ||| l == 'n' && c == 'N'
    ||| l == 'f' && c == 'F'
    ||| l == 't' && c == 'T'
    ||| l == 'y' && c == 'Y'
    ||| l == 'a' && c == 'A'
}

fn letter_ci_exec(c: char, l: char) -> (r: bool)
    ensures
        r == letter_ci(c, l),
{
    c == l || (l == 'i' && c == 'I') || (l == 'n' && c == 'N') || (l == 'f' && c == 'F') || (l == 't' && c == 'T')
        || (l == 'y' && c == 'Y') || (l == 'a' && c == 'A')
}

/// Whether `u` spells the lower-case word `w` in any mix of case.
pub open spec fn word_ci(u: Seq<char>, w: Seq<char>) -> bool {
    u.len() == w.len() && forall|i: int| 0 <= i < u.len() ==> letter_ci(#[trigger] u[i], w[i])
}

/// Whether `str::parse::<f64>` accepts `t`: an optional sign, then `inf`,
/// `infinity` or `nan` in any case, or a decimal number (digits on at
/// least one side of an optional point, an optional exponent).
pub open spec fn is_float_text(t: Seq<char>) -> bool {
    let u = if t.len() > 0 && (t[0] == '+' || t[0] == '-') { t.drop_first() } else { t };
    ||| word_ci(u, "inf"@)
    ||| word_ci(u, "infinity"@)
    ||| word_ci(u, "nan"@)
    ||| decimal_scan(t, 0) == (t.len() as int, true)
}

/// The first word of `t` if it reads as a floating-point number.
pub open spec fn float_word(t: Seq<char>) -> Option<Seq<char>> {
    match first_word(t) {
        Some(w) => if is_float_text(w) {
            Some(w)
        } else {
            None
        },
        None => None,
    }
}

/// The text between the first two double quotes of a line.
pub open spec fn quoted_value(line: Seq<char>) -> Option<Seq<char>> {
    match find_char(line, '"') {
        Some(a) => {
            let rest = line.subrange(a + 1, line.len() as int);
            match find_char(rest, '"') {
                Some(b) => Some(rest.subrange(0, b)),
                None => None,
            }
        },
        None => None,
    }
}

/// The speed of a `LIN_speed = 19.2 kbps;` line: the first word after the
/// first `=`, if it reads as a number.
pub open spec fn speed_value(line: Seq<char>) -> Option<Seq<char>> {
    let parts = split_spec(line, '=');
    if parts.len() < 2 {
        None
    } else {
        float_word(trim_spec(parts[1]))
    }
}

/// A part that reads as a number, or the default.
pub open spec fn float_part_or(parts: Seq<Seq<char>>, i: int, d: Seq<char>) -> Seq<char> {
    if i < parts.len() {
        match float_word(trim_spec(parts[i])) {
            Some(w) => w,
            None => d,
        }
    } else {
        d
    }
}

// ---------------------------------------------------------------------------
// Executable pieces
// ---------------------------------------------------------------------------

fn strip_prefix_all_exec(s: &[char], p: &[char]) -> (r: Vec<char>)
    ensures
        r@ == strip_prefix_all(s@, p@),
{
    let mut i: usize = 0;
    if p.len() == 0 {
        return slice_to_vec(s, 0, s.len());
    }
    assert(s@.subrange(0, s@.len() as int) =~= s@);
    while i < s.len() && crate::text::has_prefix_at(s, i, p)
        invariant
            i <= s.len(),
            p.len() > 0,
            strip_prefix_all(s@, p@) == strip_prefix_all(s@.subrange(i as int, s.len() as int), p@),
        decreases s.len() - i,
    {
        let ghost t = s@.subrange(i as int, s.len() as int);
        assert(t.subrange(0, p@.len() as int) =~= s@.subrange(i as int, i + p@.len()));
        assert(t.subrange(p@.len() as int, t.len() as int) =~= s@.subrange(i + p@.len(), s.len() as int));
        i = i + p.len();
    }
    proof {
        let t = s@.subrange(i as int, s.len() as int);
        if p@.len() <= t.len() {
            assert(t.subrange(0, p@.len() as int) =~= s@.subrange(i as int, i + p@.len()));
        }
    }
    slice_to_vec(s, i, s.len())
}

fn strip_suffix_all_exec(s: &[char], c: char) -> (r: Vec<char>)
    ensures
        r@ == strip_suffix_all(s@, c),
{
    let mut j: usize = s.len();
    assert(s@.subrange(0, s@.len() as int) =~= s@);
    while j > 0 && s[j - 1] == c
        invariant
            j <= s.len(),
            strip_suffix_all(s@, c) == strip_suffix_all(s@.subrange(0, j as int), c),
        decreases j,
    {
        assert(s@.subrange(0, j as int).drop_last() =~= s@.subrange(0, j - 1));
        j -= 1;
    }
    slice_to_vec(s, 0, j)
}

fn find_char_exec(s: &[char], c: char) -> (r: Option<usize>)
    ensures
        match find_char(s@, c) {
            Some(i) => r == Some(i as usize),
            None => r is None,
        },
        r matches Some(i) ==> i < s@.len() && find_char(s@, c) == Some(i as int),
{
    let mut i: usize = 0;
    while i < s.len()
        invariant
            i <= s.len(),
            forall|j: int| 0 <= j < i ==> !is_char(c)(#[trigger] s@[j]),
        decreases s.len() - i,
    {
        if s[i] == c {
            proof {
                lemma_first_where_at(s@, is_char(c), i as int);
            }
            return Some(i);
        }
        i += 1;
    }
    None
}

proof fn lemma_find_text_at(s: Seq<char>, n: Seq<char>, i: int)
    requires
        occurs_at(s, n, i),
        forall|j: int| 0 <= j < i ==> !#[trigger] occurs_at(s, n, j),
    ensures
        find_text(s, n) == Some(i),
{
    let c = choose|c: int| #[trigger] occurs_at(s, n, c) && forall|j: int| 0 <= j < c ==> !#[trigger] occurs_at(s, n, j);
    assert(occurs_at(s, n, c) && forall|j: int| 0 <= j < c ==> !#[trigger] occurs_at(s, n, j));
    if c < i {
        assert(!occurs_at(s, n, c));
    } else if c > i {
        assert(!occurs_at(s, n, i));
    }
}

fn find_text_exec(s: &[char], n: &[char]) -> (r: Option<usize>)
    ensures
        match find_text(s@, n@) {
            Some(i) => r == Some(i as usize),
            None => r is None,
        },
        r matches Some(i) ==> i + n@.len() <= s@.len() && find_text(s@, n@) == Some(i as int),
{
    if n.len() > s.len() {
        assert forall|j: int| !#[trigger] occurs_at(s@, n@, j) by {}
        return None;
    }
    if n.len() == 0 {
        assert(s@.subrange(0, 0) =~= n@);
        proof {
            lemma_find_text_at(s@, n@, 0);
        }
        return Some(0);
    }
    let mut i: usize = 0;
    while i <= s.len() - n.len()
        invariant
            1 <= n.len() <= s.len(),
            i <= s.len() - n.len() + 1,
            forall|j: int| 0 <= j < i ==> !#[trigger] occurs_at(s@, n@, j),
        decreases s.len() - n.len() + 1 - i,
    {
        if crate::text::has_prefix_at(s, i, n) {
            assert(occurs_at(s@, n@, i as int));
            proof {
                lemma_find_text_at(s@, n@, i as int);
            }
            return Some(i);
        }
        i += 1;
    }
    assert forall|j: int| !#[trigger] occurs_at(s@, n@, j) by {
        if 0 <= j < i {
        }
    }
    None
}

proof fn lemma_leading_word(u: Seq<char>, k: int)
    requires
        0 <= k <= u.len(),
        forall|j: int| 0 <= j < k ==> !is_ws(#[trigger] u[j]),
        k == u.len() || is_ws(u[k]),
    ensures
        leading_word(u) == u.subrange(0, k),
    decreases k,
{
    if k == 0 {
        assert(u.subrange(0, 0) =~= Seq::<char>::empty());
    } else {
        lemma_leading_word(u.drop_first(), k - 1);
        assert(seq![u[0]] + u.drop_first().subrange(0, k - 1) =~= u.subrange(0, k));
    }
}

fn first_word_exec(t: &[char]) -> (r: Option<Vec<char>>)
    ensures
        match first_word(t@) {
            Some(w) => r matches Some(v) && v@ == w,
            None => r is None,
        },
{
    let a = crate::text::skip_ws_forward(t, 0);
    assert(t@.subrange(0, t@.len() as int) =~= t@);
    let ghost v = t@.subrange(a as int, t.len() as int);
    let mut b: usize = a;
    while b < t.len() && !is_whitespace(t[b])
        invariant
            a <= b <= t.len(),
            v == t@.subrange(a as int, t.len() as int),
            forall|j: int| 0 <= j < b - a ==> !is_ws(#[trigger] v[j]),
        decreases t.len() - b,
    {
        b += 1;
    }
    proof {
        lemma_leading_word(v, (b - a) as int);
        assert(v.subrange(0, (b - a) as int) =~= t@.subrange(a as int, b as int));
    }
    if b == a {
        None
    } else {
        Some(slice_to_vec(t, a, b))
    }
}


fn word_ci_exec(u: &[char], from: usize, w: &str) -> (r: bool)
    requires
        from <= u.len(),
    ensures
        r == word_ci(u@.subrange(from as int, u@.len() as int), w@),
{
    let wv = chars_of(w);
    let ghost v = u@.subrange(from as int, u@.len() as int);
    if u.len() - from != wv.len() {
        return false;
    }
    let mut i: usize = 0;
    while i < wv.len()
        invariant
            i <= wv.len(),
            wv@ == w@,
            from <= u@.len(),
            v == u@.subrange(from as int, u@.len() as int),
            v.len() == wv@.len(),
            from + wv@.len() == u@.len(),
            forall|j: int| 0 <= j < i ==> letter_ci(#[trigger] v[j], wv@[j]),
        decreases wv.len() - i,
    {
        assert(from + i < u.len());
        let c = u[from + i];
        let l = wv[i];
        assert(v[i as int] == c);
        if !letter_ci_exec(c, l) {
            return false;
        }
        i += 1;
    }
    true
}

pub fn is_float_text_exec(t: &[char]) -> (r: bool)
    ensures
        r == is_float_text(t@),
{
    let from: usize = if t.len() > 0 && (t[0] == '+' || t[0] == '-') { 1 } else { 0 };
    proof {
        if from == 1 {
            assert(t@.subrange(1, t@.len() as int) =~= t@.drop_first());
        } else {
            assert(t@.subrange(0, t@.len() as int) =~= t@);
        }
    }
    if word_ci_exec(t, from, "inf") || word_ci_exec(t, from, "infinity") || word_ci_exec(t, from, "nan") {
        return true;
    }
    let n = t.len();
    let a: usize = from;
    let b = scan(t, a, CharClass::Digit);
    let c = if b < n && t[b] == '.' { scan(t, b + 1, CharClass::Digit) } else { b };
    let has_digits = b > a || c > b + 1;
    let (e, ok) = if c < n && (t[c] == 'e' || t[c] == 'E') {
        let d = if c + 1 < n && (t[c + 1] == '-' || t[c + 1] == '+') { c + 2 } else { c + 1 };
        let e = scan(t, d, CharClass::Digit);
        (e, has_digits && e > d)
    } else {
        (c, has_digits)
    };
    assert((e as int, ok) == decimal_scan(t@, 0));
    e == n && ok
}

fn float_word_exec(t: &[char]) -> (r: Option<Vec<char>>)
    ensures
        match float_word(t@) {
            Some(w) => r matches Some(v) && v@ == w,
            None => r is None,
        },
{
    match first_word_exec(t) {
        Some(w) => if is_float_text_exec(w.as_slice()) {
            Some(w)
        } else {
            None
        },
        None => None,
    }
}

fn quoted_value_exec(line: &[char]) -> (r: Option<Vec<char>>)
    ensures
        match quoted_value(line@) {
            Some(v) => r matches Some(x) && x@ == v,
            None => r is None,
        },
{
    match find_char_exec(line, '"') {
        Some(a) => {
            assert(a < line.len());
            let rest = slice_to_vec(line, a + 1, line.len());
            match find_char_exec(rest.as_slice(), '"') {
                Some(b) => Some(slice_to_vec(rest.as_slice(), 0, b)),
                None => None,
            }
        },
        None => None,
    }
}

fn speed_value_exec(line: &[char]) -> (r: Option<Vec<char>>)
    ensures
        match speed_value(line@) {
            Some(v) => r matches Some(x) && x@ == v,
            None => r is None,
        },
{
    let parts = split_at_char(line, '=');
    if parts.len() < 2 {
        return None;
    }
    let t = trim(parts[1].as_slice());
    float_word_exec(t.as_slice())
}

fn float_part_or_exec(parts: &Vec<Vec<char>>, i: usize, d: &str) -> (r: Vec<char>)
    ensures
        r@ == float_part_or(vecs_view(parts@), i as int, d@),
{
    if i < parts.len() {
        let t = trim(parts[i].as_slice());
        match float_word_exec(t.as_slice()) {
            Some(w) => w,
            None => chars_of(d),
        }
    } else {
        chars_of(d)
    }
}


// ---------------------------------------------------------------------------
// Lines of the sections
// ---------------------------------------------------------------------------

/// A `Master: name, time base ms, jitter ms;` line: the name before the
/// first comma (its trailing `;` dropped), then the first word of each of
/// the next two parts if it reads as a number, else 5.0 and 0.1.
pub open spec fn master_spec(line: Seq<char>) -> LdfMasterModel {
    let content = trim_spec(strip_prefix_all(strip_prefix_all(line, "Master:"@), "Master :"@));
    let parts = split_spec(content, ',');
    LdfMasterModel {
        name: strip_suffix_all(trim_spec(parts[0]), ';'),
        time_base_ms: float_part_or(parts, 1, "5.0"@),
        jitter_ms: float_part_or(parts, 2, "0.1"@),
    }
}

/// The names of a `Slaves: a, b;` line: the non-empty comma-separated
/// parts, trimmed.
pub open spec fn slaves_spec(line: Seq<char>) -> Seq<Seq<char>> {
    let content = strip_suffix_all(trim_spec(strip_prefix_all(strip_prefix_all(line, "Slaves:"@), "Slaves :"@)), ';');
    nonempty_trimmed(split_spec(content, ','))
}

/// A `Name: size, init, publisher, subscribers...;` line: `None` without a
/// colon, with fewer than three parts, or where the size (`u8`) or initial
/// value (`u64`) does not read.
pub open spec fn signal_line_spec(line: Seq<char>) -> Option<LdfSignalModel> {
    let l = strip_suffix_all(line, ';');
    match find_char(l, ':') {
        None => None,
        Some(c) => {
            let parts = split_spec(trim_spec(l.subrange(c + 1, l.len() as int)), ',');
            if parts.len() < 3 {
                None
            } else {
                match (uint_field(parts[0], 0xFF), uint_field(parts[1], u64::MAX as nat)) {
                    (Some(size), Some(init)) => Some(
                        LdfSignalModel {
                            name: trim_spec(l.subrange(0, c)),
                            size: size as u8,
                            init_value: init as u64,
                            publisher: trim_spec(parts[2]),
                            subscribers: nonempty_trimmed(parts.subrange(3, parts.len() as int)),
                        },
                    ),
                    _ => None,
                }
            }
        },
    }
}

/// A frame identifier: hexadecimal after `0x` or `0X`, else decimal.
pub open spec fn frame_id_spec(t: Seq<char>) -> Option<u8> {
    let r = if "0x"@.is_prefix_of(t) || "0X"@.is_prefix_of(t) {
        parse_unsigned_spec(t.subrange(2, t.len() as int), 16, 0xFF)
    } else {
        parse_unsigned_spec(t, 10, 0xFF)
    };
    match r {
        Ok(v) => Some(v as u8),
        Err(_) => None,
    }
}

/// A `Name: id, publisher, length {` line (or ending in `;`): `None`
/// without a colon, with fewer than three parts, or where the identifier or
/// length does not read as a `u8`.
pub open spec fn frame_header_spec(line: Seq<char>) -> Option<LdfFrameModel> {
    let l = trim_spec(strip_suffix_all(strip_suffix_all(line, '{'), ';'));
    match find_char(l, ':') {
        None => None,
        Some(c) => {
            let parts = split_spec(trim_spec(l.subrange(c + 1, l.len() as int)), ',');
            if parts.len() < 3 {
                None
            } else {
                match (frame_id_spec(trim_spec(parts[0])), uint_field(parts[2], 0xFF)) {
                    (Some(id), Some(length)) => Some(
                        LdfFrameModel {
                            name: trim_spec(l.subrange(0, c)),
                            id,
                            publisher: trim_spec(parts[1]),
                            length: length as u8,
                            signals: Seq::empty(),
                        },
                    ),
                    _ => None,
                }
            }
        },
    }
}

/// A `Signal, offset;` line of a frame: `None` with fewer than two parts
/// or an offset that does not read as a `u8`.
pub open spec fn frame_signal_spec(line: Seq<char>) -> Option<(Seq<char>, u8)> {
    let l = trim_spec(strip_suffix_all(strip_suffix_all(line, ';'), '}'));
    let parts = split_spec(l, ',');
    if parts.len() < 2 {
        None
    } else {
        match uint_field(parts[1], 0xFF) {
            Some(o) => Some((trim_spec(parts[0]), o as u8)),
            None => None,
        }
    }
}

/// A `Frame delay 10 ms;` line: the text before the first `delay` names the
/// entry (`MasterReq`, `SlaveResp` or a frame), and the first word after it
/// must read as a number.
pub open spec fn schedule_entry_spec(line: Seq<char>) -> Option<LdfScheduleEntryModel> {
    let l = trim_spec(strip_suffix_all(line, ';'));
    match find_text(l, "delay"@) {
        None => None,
        Some(p) => {
            let frame_part = trim_spec(l.subrange(0, p));
            match float_word(trim_spec(l.subrange(p + 5, l.len() as int))) {
                None => None,
                Some(d) => Some(
                    LdfScheduleEntryModel {
                        entry_type: if frame_part == "MasterReq"@ {
                            LdfEntryTypeModel::MasterReq
                        } else if frame_part == "SlaveResp"@ {
                            LdfEntryTypeModel::SlaveResp
                        } else {
                            LdfEntryTypeModel::Frame(frame_part)
                        },
                        delay_ms: d,
                    },
                ),
            }
        },
    }
}

/// The NAD after the first `=`: leading `0x` removed, then read as a
/// decimal `u8`.
pub open spec fn nad_spec(l: Seq<char>) -> Option<u8> {
    match find_char(l, '=') {
        Some(p) => match parse_unsigned_spec(strip_prefix_all(trim_spec(l.subrange(p + 1, l.len() as int)), "0x"@), 10, 0xFF) {
            Ok(v) => Some(v as u8),
            Err(_) => None,
        },
        None => None,
    }
}

/// The attributes after one line of a node's block.
pub open spec fn node_attribute_spec(line: Seq<char>, a: LdfNodeAttributesModel) -> LdfNodeAttributesModel {
    let l = trim_spec(strip_suffix_all(line, ';'));
    if "LIN_protocol"@.is_prefix_of(l) {
        match quoted_value(l) {
            Some(v) => LdfNodeAttributesModel { lin_protocol: Some(v), ..a },
            None => a,
        }
    } else if "configured_NAD"@.is_prefix_of(l) {
        match nad_spec(l) {
            Some(n) => LdfNodeAttributesModel { configured_nad: Some(n), ..a },
            None => a,
        }
    } else if "initial_NAD"@.is_prefix_of(l) {
        match nad_spec(l) {
            Some(n) => LdfNodeAttributesModel { initial_nad: Some(n), ..a },
            None => a,
        }
    } else if "response_error"@.is_prefix_of(l) {
        match find_char(l, '=') {
            Some(p) => LdfNodeAttributesModel { response_error: Some(trim_spec(l.subrange(p + 1, l.len() as int))), ..a },
            None => a,
        }
    } else {
        a
    }
}

fn starts_with_str(s: &[char], p: &str) -> (r: bool)
    ensures
        r == p@.is_prefix_of(s@),
{
    let pv = chars_of(p);
    let r = crate::text::has_prefix_at(s, 0, pv.as_slice());
    proof {
        if pv@.len() <= s@.len() {
            assert(s@.subrange(0, pv@.len() as int) == s@.subrange(0, p@.len() as int));
        }
    }
    r
}

fn equals_str(s: &[char], p: &str) -> (r: bool)
    ensures
        r == (s@ == p@),
{
    crate::text::chars_eq(s, chars_of(p).as_slice())
}

fn master_exec(line: &[char]) -> (r: LdfMasterNode)
    ensures
        r@ == master_spec(line@),
{
    let a = strip_prefix_all_exec(line, chars_of("Master:").as_slice());
    let b = strip_prefix_all_exec(a.as_slice(), chars_of("Master :").as_slice());
    let content = trim(b.as_slice());
    let parts = split_at_char(content.as_slice(), ',');
    proof {
        crate::text::lemma_split_nonempty(content@, ',');
    }
    assert(vecs_view(parts@) =~= split_spec(content@, ','));
    let name = strip_suffix_all_exec(trim(parts[0].as_slice()).as_slice(), ';');
    let tb = float_part_or_exec(&parts, 1, "5.0");
    let jt = float_part_or_exec(&parts, 2, "0.1");
    LdfMasterNode {
        name: string_from_chars(name.as_slice()),
        time_base_ms: string_from_chars(tb.as_slice()),
        jitter_ms: string_from_chars(jt.as_slice()),
    }
}

fn slaves_exec(line: &[char]) -> (r: Vec<String>)
    ensures
        dbf_strings(r@) == slaves_spec(line@),
{
    let a = strip_prefix_all_exec(line, chars_of("Slaves:").as_slice());
    let b = strip_prefix_all_exec(a.as_slice(), chars_of("Slaves :").as_slice());
    let content = strip_suffix_all_exec(trim(b.as_slice()).as_slice(), ';');
    let parts = split_at_char(content.as_slice(), ',');
    assert(vecs_view(parts@) =~= split_spec(content@, ','));
    assert(vecs_view(parts@).subrange(0, parts@.len() as int) =~= vecs_view(parts@));
    nonempty_trimmed_exec(&parts, 0)
}

fn uint_of(t: &[char], max: u64) -> (r: Option<u64>)
    ensures
        match uint_field(t@, max as nat) {
            Some(v) => r == Some(v as u64),
            None => r is None,
        },
{
    let u = trim(t);
    assert(u@.subrange(0, u@.len() as int) =~= u@);
    match crate::number::parse_unsigned(u.as_slice(), 0, u.len(), 10, max) {
        Ok(v) => Some(v),
        Err(_) => None,
    }
}

fn signal_line_exec(line: &[char]) -> (r: Option<LdfSignal>)
    ensures
        match signal_line_spec(line@) {
            Some(m) => r matches Some(x) && x@ == m,
            None => r is None,
        },
{
    let l = strip_suffix_all_exec(line, ';');
    let c = match find_char_exec(l.as_slice(), ':') {
        Some(c) => c,
        None => return None,
    };
    let rest = trim(slice_to_vec(l.as_slice(), c + 1, l.len()).as_slice());
    let parts = split_at_char(rest.as_slice(), ',');
    assert(vecs_view(parts@) =~= split_spec(rest@, ','));
    if parts.len() < 3 {
        return None;
    }
    let size = match uint_of(parts[0].as_slice(), 0xFF) {
        Some(v) => v,
        None => return None,
    };
    let init = match uint_of(parts[1].as_slice(), u64::MAX) {
        Some(v) => v,
        None => return None,
    };
    let name = trim(slice_to_vec(l.as_slice(), 0, c).as_slice());
    let publisher = trim(parts[2].as_slice());
    let subscribers = nonempty_trimmed_exec(&parts, 3);
    let sig = LdfSignal {
        name: string_from_chars(name.as_slice()),
        size: size as u8,
        init_value: init,
        publisher: string_from_chars(publisher.as_slice()),
        subscribers,
    };
    assert(sig@.subscribers == nonempty_trimmed(vecs_view(parts@).subrange(3, parts@.len() as int)));
    Some(sig)
}

fn frame_id_exec(t: &[char]) -> (r: Option<u8>)
    ensures
        r == frame_id_spec(t@),
{
    let r = if starts_with_str(t, "0x") || starts_with_str(t, "0X") {
        proof {
            reveal_strlit("0x");
            reveal_strlit("0X");
        }
        crate::number::parse_unsigned(t, 2, t.len(), 16, 0xFF)
    } else {
        assert(t@.subrange(0, t@.len() as int) =~= t@);
        crate::number::parse_unsigned(t, 0, t.len(), 10, 0xFF)
    };
    match r {
        Ok(v) => Some(v as u8),
        Err(_) => None,
    }
}

fn frame_header_exec(line: &[char]) -> (r: Option<LdfFrame>)
    ensures
        match frame_header_spec(line@) {
            Some(m) => r matches Some(x) && x@ == m,
            None => r is None,
        },
{
    let a = strip_suffix_all_exec(line, '{');
    let b = strip_suffix_all_exec(a.as_slice(), ';');
    let l = trim(b.as_slice());
    let c = match find_char_exec(l.as_slice(), ':') {
        Some(c) => c,
        None => return None,
    };
    assert(c < l.len());
    let rest = trim(slice_to_vec(l.as_slice(), c + 1, l.len()).as_slice());
    let parts = split_at_char(rest.as_slice(), ',');
    assert(vecs_view(parts@) =~= split_spec(rest@, ','));
    if parts.len() < 3 {
        return None;
    }
    let id_str = trim(parts[0].as_slice());
    let id = match frame_id_exec(id_str.as_slice()) {
        Some(v) => v,
        None => return None,
    };
    let length = match uint_of(parts[2].as_slice(), 0xFF) {
        Some(v) => v as u8,
        None => return None,
    };
    let name = trim(slice_to_vec(l.as_slice(), 0, c).as_slice());
    let publisher = trim(parts[1].as_slice());
    let f = LdfFrame {
        name: string_from_chars(name.as_slice()),
        id,
        publisher: string_from_chars(publisher.as_slice()),
        length,
        signals: Vec::new(),
    };
    assert(f@.signals =~= Seq::<(Seq<char>, u8)>::empty());
    Some(f)
}

fn frame_signal_exec(line: &[char]) -> (r: Option<(Vec<char>, u8)>)
    ensures
        match frame_signal_spec(line@) {
            Some(m) => r matches Some(x) && x.0@ == m.0 && x.1 == m.1,
            None => r is None,
        },
{
    let a = strip_suffix_all_exec(line, ';');
    let b = strip_suffix_all_exec(a.as_slice(), '}');
    let l = trim(b.as_slice());
    let parts = split_at_char(l.as_slice(), ',');
    assert(vecs_view(parts@) =~= split_spec(l@, ','));
    if parts.len() < 2 {
        return None;
    }
    match uint_of(parts[1].as_slice(), 0xFF) {
        Some(o) => Some((trim(parts[0].as_slice()), o as u8)),
        None => None,
    }
}

fn schedule_entry_exec(line: &[char]) -> (r: Option<LdfScheduleEntry>)
    ensures
        match schedule_entry_spec(line@) {
            Some(m) => r matches Some(x) && x@ == m,
            None => r is None,
        },
{
    let l = trim(strip_suffix_all_exec(line, ';').as_slice());
    proof {
        reveal_strlit("delay");
    }
    let dv = chars_of("delay");
    assert(dv@.len() == 5);
    let found = find_text_exec(l.as_slice(), dv.as_slice());
    let p = match found {
        Some(p) => p,
        None => return None,
    };
    assert(p + dv@.len() <= l@.len());
    assert(p + 5 <= l.len());
    let frame_part = trim(slice_to_vec(l.as_slice(), 0, p).as_slice());
    let delay_part = trim(slice_to_vec(l.as_slice(), p + 5, l.len()).as_slice());
    let d = match float_word_exec(delay_part.as_slice()) {
        Some(d) => d,
        None => return None,
    };
    let entry_type = if equals_str(frame_part.as_slice(), "MasterReq") {
        LdfScheduleEntryType::MasterReq
    } else if equals_str(frame_part.as_slice(), "SlaveResp") {
        LdfScheduleEntryType::SlaveResp
    } else {
        LdfScheduleEntryType::Frame(string_from_chars(frame_part.as_slice()))
    };
    Some(LdfScheduleEntry { entry_type, delay_ms: string_from_chars(d.as_slice()) })
}

fn nad_exec(l: &[char]) -> (r: Option<u8>)
    ensures
        r == nad_spec(l@),
{
    let found = find_char_exec(l, '=');
    if found.is_none() {
        return None;
    }
    let p = found.unwrap();
    assert(p < l.len());
    let tail = slice_to_vec(l, p + 1, l.len());
    let tt = trim(tail.as_slice());
    let hx = chars_of("0x");
    let t = strip_prefix_all_exec(tt.as_slice(), hx.as_slice());
    assert(t@.subrange(0, t@.len() as int) =~= t@);
    let v = crate::number::parse_unsigned(t.as_slice(), 0, t.len(), 10, 0xFF);
    match v {
        Ok(v) => Some(v as u8),
        Err(_) => None,
    }
}

fn node_attribute_exec(line: &[char], attrs: &mut LdfNodeAttributes)
    ensures
        final(attrs)@ == node_attribute_spec(line@, old(attrs)@),
{
    let l = trim(strip_suffix_all_exec(line, ';').as_slice());
    if starts_with_str(l.as_slice(), "LIN_protocol") {
        if let Some(v) = quoted_value_exec(l.as_slice()) {
            attrs.lin_protocol = Some(string_from_chars(v.as_slice()));
        }
    } else if starts_with_str(l.as_slice(), "configured_NAD") {
        if let Some(n) = nad_exec(l.as_slice()) {
            attrs.configured_nad = Some(n);
        }
    } else if starts_with_str(l.as_slice(), "initial_NAD") {
        if let Some(n) = nad_exec(l.as_slice()) {
            attrs.initial_nad = Some(n);
        }
    } else if starts_with_str(l.as_slice(), "response_error") {
        if let Some(p) = find_char_exec(l.as_slice(), '=') {
            let v = trim(slice_to_vec(l.as_slice(), p + 1, l.len()).as_slice());
            attrs.response_error = Some(string_from_chars(v.as_slice()));
        }
    }
}


// ---------------------------------------------------------------------------
// The sections
// ---------------------------------------------------------------------------

/// The lines of the text (split at line feeds), each trimmed. A final empty
/// line, which `str::lines` would not give, is blank and so skipped wherever
/// it comes.
pub open spec fn ldf_lines(s: Seq<char>) -> Seq<Seq<char>> {
    split_spec(s, '\n').map_values(|l: Seq<char>| trim_spec(l))
}

/// Whether a line starts with a closing brace.
pub open spec fn starts_close(line: Seq<char>) -> bool {
    line.len() > 0 && line[0] == '}'
}

/// Whether a line ends with an opening brace.
pub open spec fn ends_open(line: Seq<char>) -> bool {
    line.len() > 0 && line.last() == '{'
}

/// The database with a node line applied: a `Master:` line sets the master,
/// a `Slaves:` line adds its slaves.
pub open spec fn node_line(line: Seq<char>, db: LdfDatabaseModel) -> LdfDatabaseModel {
    let db1 = if "Master:"@.is_prefix_of(line) || "Master :"@.is_prefix_of(line) {
        LdfDatabaseModel { master: Some(master_spec(line)), ..db }
    } else {
        db
    };
    if "Slaves:"@.is_prefix_of(line) || "Slaves :"@.is_prefix_of(line) {
        LdfDatabaseModel { slaves: db1.slaves + slaves_spec(line).map_values(|n: Seq<char>| slave_named(n)), ..db1 }
    } else {
        db1
    }
}

/// The `Nodes` section from line `k` to the line that starts with `}`:
/// the line after it (or the end) and the database.
pub open spec fn nodes_section(ls: Seq<Seq<char>>, k: int, db: LdfDatabaseModel) -> (int, LdfDatabaseModel)
    decreases ls.len() - k,
{
    if k < 0 || k >= ls.len() {
        (k, db)
    } else if starts_close(ls[k]) {
        (k + 1, db)
    } else if ls[k].len() == 0 || ls[k] == "{"@ {
        nodes_section(ls, k + 1, db)
    } else {
        nodes_section(ls, k + 1, node_line(ls[k], db))
    }
}

/// The `Signals` section from line `k` to the line that starts with `}`:
/// each signal line that reads is added.
pub open spec fn signals_section(ls: Seq<Seq<char>>, k: int, db: LdfDatabaseModel) -> (int, LdfDatabaseModel)
    decreases ls.len() - k,
{
    if k < 0 || k >= ls.len() {
        (k, db)
    } else if starts_close(ls[k]) {
        (k + 1, db)
    } else if ls[k].len() == 0 || "//"@.is_prefix_of(ls[k]) || ls[k] == "{"@ {
        signals_section(ls, k + 1, db)
    } else {
        match signal_line_spec(ls[k]) {
            Some(sig) => signals_section(ls, k + 1, LdfDatabaseModel { signals: db.signals.push(sig), ..db }),
            None => signals_section(ls, k + 1, db),
        }
    }
}

/// The database with the frame being read, if any, added.
pub open spec fn push_frame(db: LdfDatabaseModel, cur: Option<LdfFrameModel>) -> LdfDatabaseModel {
    match cur {
        Some(f) => LdfDatabaseModel { frames: db.frames.push(f), ..db },
        None => db,
    }
}

/// The `Frames` section from line `k`, with the frame being read (if any)
/// and the braces open: a header line at depth 0 closes the previous frame
/// and opens the next (a brace on it opens its block), signal lines add to
/// the frame being read, the brace that closes a frame's block adds it, and
/// a `}` line at depth 0 ends the section. A frame still open at the end of
/// the text is not added.
pub open spec fn frames_section(
    ls: Seq<Seq<char>>,
    k: int,
    cur: Option<LdfFrameModel>,
    depth: nat,
    db: LdfDatabaseModel,
) -> (int, LdfDatabaseModel)
    decreases ls.len() - k,
{
    if k < 0 || k >= ls.len() {
        (k, db)
    } else {
        let line = ls[k];
        if line == "{"@ {
            frames_section(ls, k + 1, cur, depth + 1, db)
        } else if line == "}"@ {
            if depth > 0 {
                if depth == 1 {
                    frames_section(ls, k + 1, None, 0, push_frame(db, cur))
                } else {
                    frames_section(ls, k + 1, cur, (depth - 1) as nat, db)
                }
            } else {
                (k + 1, push_frame(db, cur))
            }
        } else if line.len() == 0 || "//"@.is_prefix_of(line) {
            frames_section(ls, k + 1, cur, depth, db)
        } else if find_char(line, ':') is Some && depth == 0 {
            match frame_header_spec(line) {
                Some(f) => frames_section(
                    ls,
                    k + 1,
                    Some(f),
                    if find_char(line, '{') is Some { 1 } else { 0 },
                    push_frame(db, cur),
                ),
                None => frames_section(ls, k + 1, None, 0, push_frame(db, cur)),
            }
        } else {
            match cur {
                Some(f) => match frame_signal_spec(line) {
                    Some(p) => frames_section(ls, k + 1, Some(LdfFrameModel { signals: f.signals.push(p), ..f }), depth, db),
                    None => frames_section(ls, k + 1, cur, depth, db),
                },
                None => frames_section(ls, k + 1, None, depth, db),
            }
        }
    }
}

/// The database with the table being read, if any, added.
pub open spec fn push_table(db: LdfDatabaseModel, cur: Option<LdfScheduleTableModel>) -> LdfDatabaseModel {
    match cur {
        Some(t) => LdfDatabaseModel { schedule_tables: db.schedule_tables.push(t), ..db },
        None => db,
    }
}

/// The `Schedule_tables` section from line `k`, with the table being read
/// and the braces open: a line ending in `{` at depth 0 opens a table named
/// by the rest of the line, entry lines add to it, the brace that closes
/// its block adds it, and a `}` line at depth 0 ends the section.
pub open spec fn schedule_section(
    ls: Seq<Seq<char>>,
    k: int,
    cur: Option<LdfScheduleTableModel>,
    depth: nat,
    db: LdfDatabaseModel,
) -> (int, LdfDatabaseModel)
    decreases ls.len() - k,
{
    if k < 0 || k >= ls.len() {
        (k, db)
    } else {
        let line = ls[k];
        if line == "{"@ {
            schedule_section(ls, k + 1, cur, depth + 1, db)
        } else if line == "}"@ {
            if depth > 0 {
                if depth == 1 {
                    schedule_section(ls, k + 1, None, 0, push_table(db, cur))
                } else {
                    schedule_section(ls, k + 1, cur, (depth - 1) as nat, db)
                }
            } else {
                (k + 1, push_table(db, cur))
            }
        } else if line.len() == 0 || "//"@.is_prefix_of(line) {
            schedule_section(ls, k + 1, cur, depth, db)
        } else if ends_open(line) && depth == 0 {
            schedule_section(
                ls,
                k + 1,
                Some(LdfScheduleTableModel { name: trim_spec(strip_suffix_all(line, '{')), entries: Seq::empty() }),
                1,
                push_table(db, cur),
            )
        } else {
            match cur {
                Some(t) => match schedule_entry_spec(line) {
                    Some(e) => schedule_section(ls, k + 1, Some(LdfScheduleTableModel { entries: t.entries.push(e), ..t }), depth, db),
                    None => schedule_section(ls, k + 1, cur, depth, db),
                },
                None => schedule_section(ls, k + 1, None, depth, db),
            }
        }
    }
}

/// Whether an entry is for the node `n`.
pub open spec fn for_node(n: Seq<char>) -> spec_fn((Seq<char>, LdfNodeAttributesModel)) -> bool {
    |e: (Seq<char>, LdfNodeAttributesModel)| e.0 == n
}

/// The database with node `n`'s attributes set: its entry takes them in
/// its place, or a new entry comes last.
pub open spec fn put_attributes(db: LdfDatabaseModel, n: Seq<char>, a: LdfNodeAttributesModel) -> LdfDatabaseModel {
    LdfDatabaseModel {
        node_attributes: match first_where(db.node_attributes, for_node(n)) {
            Some(i) => db.node_attributes.update(i, (n, a)),
            None => db.node_attributes.push((n, a)),
        },
        ..db
    }
}

/// The `Node_attributes` section from line `k`, with the node being read,
/// its attributes so far and the braces open: a line ending in `{` at depth
/// 0 stores the previous node and opens the next, attribute lines update
/// the node being read, the brace that closes its block stores it, and a
/// `}` line at depth 0 stores it and ends the section.
pub open spec fn attributes_section(
    ls: Seq<Seq<char>>,
    k: int,
    cur: Option<Seq<char>>,
    attrs: LdfNodeAttributesModel,
    depth: nat,
    db: LdfDatabaseModel,
) -> (int, LdfDatabaseModel)
    decreases ls.len() - k,
{
    if k < 0 || k >= ls.len() {
        (k, db)
    } else {
        let line = ls[k];
        if line == "{"@ {
            attributes_section(ls, k + 1, cur, attrs, depth + 1, db)
        } else if line == "}"@ {
            if depth > 0 {
                if depth == 1 {
                    match cur {
                        Some(n) => attributes_section(ls, k + 1, None, no_attributes(), 0, put_attributes(db, n, attrs)),
                        None => attributes_section(ls, k + 1, None, attrs, 0, db),
                    }
                } else {
                    attributes_section(ls, k + 1, cur, attrs, (depth - 1) as nat, db)
                }
            } else {
                (k + 1, match cur {
                    Some(n) => put_attributes(db, n, attrs),
                    None => db,
                })
            }
        } else if line.len() == 0 || "//"@.is_prefix_of(line) {
            attributes_section(ls, k + 1, cur, attrs, depth, db)
        } else if ends_open(line) && depth == 0 {
            let name = trim_spec(strip_suffix_all(line, '{'));
            match cur {
                Some(n) => attributes_section(ls, k + 1, Some(name), no_attributes(), 1, put_attributes(db, n, attrs)),
                None => attributes_section(ls, k + 1, Some(name), attrs, 1, db),
            }
        } else if cur is Some {
            attributes_section(ls, k + 1, cur, node_attribute_spec(line, attrs), depth, db)
        } else {
            attributes_section(ls, k + 1, cur, attrs, depth, db)
        }
    }
}

/// The `Nodes` section ends at or after the line it starts from.
pub proof fn lemma_nodes_end(ls: Seq<Seq<char>>, k: int, db: LdfDatabaseModel)
    requires
        0 <= k <= ls.len(),
    ensures
        k <= nodes_section(ls, k, db).0 <= ls.len(),
    decreases ls.len() - k,
{
    if 0 <= k < ls.len() && !starts_close(ls[k]) {
        if ls[k].len() == 0 || ls[k] == "{"@ {
            lemma_nodes_end(ls, k + 1, db);
        } else {
            lemma_nodes_end(ls, k + 1, node_line(ls[k], db));
        }
    }
}

/// The `Signals` section ends at or after the line it starts from.
pub proof fn lemma_signals_end(ls: Seq<Seq<char>>, k: int, db: LdfDatabaseModel)
    requires
        0 <= k <= ls.len(),
    ensures
        k <= signals_section(ls, k, db).0 <= ls.len(),
    decreases ls.len() - k,
{
    if 0 <= k < ls.len() && !starts_close(ls[k]) {
        if ls[k].len() == 0 || "//"@.is_prefix_of(ls[k]) || ls[k] == "{"@ {
            lemma_signals_end(ls, k + 1, db);
        } else {
            match signal_line_spec(ls[k]) {
                Some(sig) => lemma_signals_end(ls, k + 1, LdfDatabaseModel { signals: db.signals.push(sig), ..db }),
                None => lemma_signals_end(ls, k + 1, db),
            }
        }
    }
}

/// The `Frames` section ends at or after the line it starts from.
pub proof fn lemma_frames_end(ls: Seq<Seq<char>>, k: int, cur: Option<LdfFrameModel>, depth: nat, db: LdfDatabaseModel)
    requires
        0 <= k <= ls.len(),
    ensures
        k <= frames_section(ls, k, cur, depth, db).0 <= ls.len(),
    decreases ls.len() - k,
{
    if 0 <= k < ls.len() {
        let line = ls[k];
        if line == "{"@ {
            lemma_frames_end(ls, k + 1, cur, depth + 1, db);
        } else if line == "}"@ {
            if depth == 1 {
                lemma_frames_end(ls, k + 1, None, 0, push_frame(db, cur));
            } else if depth > 1 {
                lemma_frames_end(ls, k + 1, cur, (depth - 1) as nat, db);
            }
        } else if line.len() == 0 || "//"@.is_prefix_of(line) {
            lemma_frames_end(ls, k + 1, cur, depth, db);
        } else if find_char(line, ':') is Some && depth == 0 {
            match frame_header_spec(line) {
                Some(f) => lemma_frames_end(
                    ls,
                    k + 1,
                    Some(f),
                    if find_char(line, '{') is Some { 1 } else { 0 },
                    push_frame(db, cur),
                ),
                None => lemma_frames_end(ls, k + 1, None, 0, push_frame(db, cur)),
            }
        } else {
            match cur {
                Some(f) => match frame_signal_spec(line) {
                    Some(p) => lemma_frames_end(ls, k + 1, Some(LdfFrameModel { signals: f.signals.push(p), ..f }), depth, db),
                    None => lemma_frames_end(ls, k + 1, cur, depth, db),
                },
                None => lemma_frames_end(ls, k + 1, None, depth, db),
            }
        }
    }
}

/// The `Schedule_tables` section ends at or after the line it starts from.
pub proof fn lemma_schedule_end(ls: Seq<Seq<char>>, k: int, cur: Option<LdfScheduleTableModel>, depth: nat, db: LdfDatabaseModel)
    requires
        0 <= k <= ls.len(),
    ensures
        k <= schedule_section(ls, k, cur, depth, db).0 <= ls.len(),
    decreases ls.len() - k,
{
    if 0 <= k < ls.len() {
        let line = ls[k];
        if line == "{"@ {
            lemma_schedule_end(ls, k + 1, cur, depth + 1, db);
        } else if line == "}"@ {
            if depth == 1 {
                lemma_schedule_end(ls, k + 1, None, 0, push_table(db, cur));
            } else if depth > 1 {
                lemma_schedule_end(ls, k + 1, cur, (depth - 1) as nat, db);
            }
        } else if line.len() == 0 || "//"@.is_prefix_of(line) {
            lemma_schedule_end(ls, k + 1, cur, depth, db);
        } else if ends_open(line) && depth == 0 {
            lemma_schedule_end(
                ls,
                k + 1,
                Some(LdfScheduleTableModel { name: trim_spec(strip_suffix_all(line, '{')), entries: Seq::empty() }),
                1,
                push_table(db, cur),
            );
        } else {
            match cur {
                Some(t) => match schedule_entry_spec(line) {
                    Some(e) => lemma_schedule_end(ls, k + 1, Some(LdfScheduleTableModel { entries: t.entries.push(e), ..t }), depth, db),
                    None => lemma_schedule_end(ls, k + 1, cur, depth, db),
                },
                None => lemma_schedule_end(ls, k + 1, None, depth, db),
            }
        }
    }
}

/// The `Node_attributes` section ends at or after the line it starts from.
pub proof fn lemma_attributes_end(
    ls: Seq<Seq<char>>,
    k: int,
    cur: Option<Seq<char>>,
    attrs: LdfNodeAttributesModel,
    depth: nat,
    db: LdfDatabaseModel,
)
    requires
        0 <= k <= ls.len(),
    ensures
        k <= attributes_section(ls, k, cur, attrs, depth, db).0 <= ls.len(),
    decreases ls.len() - k,
{
    if 0 <= k < ls.len() {
        let line = ls[k];
        if line == "{"@ {
            lemma_attributes_end(ls, k + 1, cur, attrs, depth + 1, db);
        } else if line == "}"@ {
            if depth == 1 {
                match cur {
                    Some(n) => lemma_attributes_end(ls, k + 1, None, no_attributes(), 0, put_attributes(db, n, attrs)),
                    None => lemma_attributes_end(ls, k + 1, None, attrs, 0, db),
                }
            } else if depth > 1 {
                lemma_attributes_end(ls, k + 1, cur, attrs, (depth - 1) as nat, db);
            }
        } else if line.len() == 0 || "//"@.is_prefix_of(line) {
            lemma_attributes_end(ls, k + 1, cur, attrs, depth, db);
        } else if ends_open(line) && depth == 0 {
            let name = trim_spec(strip_suffix_all(line, '{'));
            match cur {
                Some(n) => lemma_attributes_end(ls, k + 1, Some(name), no_attributes(), 1, put_attributes(db, n, attrs)),
                None => lemma_attributes_end(ls, k + 1, Some(name), attrs, 1, db),
            }
        } else if cur is Some {
            lemma_attributes_end(ls, k + 1, cur, node_attribute_spec(line, attrs), depth, db);
        } else {
            lemma_attributes_end(ls, k + 1, cur, attrs, depth, db);
        }
    }
}

/// Whether a line sets a version or the speed.
pub open spec fn is_header(line: Seq<char>) -> bool {
    "LIN_protocol_version"@.is_prefix_of(line) || "LIN_language_version"@.is_prefix_of(line) || "LIN_speed"@.is_prefix_of(
        line,
    )
}

/// The database after a version or speed line: the version becomes the
/// quoted text, the speed the first word after `=`, where they read.
pub open spec fn header_line(line: Seq<char>, db: LdfDatabaseModel) -> LdfDatabaseModel {
    if "LIN_protocol_version"@.is_prefix_of(line) {
        match quoted_value(line) {
            Some(v) => LdfDatabaseModel { protocol_version: v, ..db },
            None => db,
        }
    } else if "LIN_language_version"@.is_prefix_of(line) {
        match quoted_value(line) {
            Some(v) => LdfDatabaseModel { language_version: v, ..db },
            None => db,
        }
    } else if "LIN_speed"@.is_prefix_of(line) {
        match speed_value(line) {
            Some(v) => LdfDatabaseModel { speed_kbps: v, ..db },
            None => db,
        }
    } else {
        db
    }
}

/// Reading the file from line `k`: blank lines, `//` comments and the
/// `LIN_description_file` line are skipped; the version lines set the
/// versions to their quoted text and the speed line sets the speed (each
/// where it reads); a section header reads its section; other lines are
/// skipped.
pub open spec fn ldf_main(ls: Seq<Seq<char>>, k: int, db: LdfDatabaseModel) -> LdfDatabaseModel
    decreases ls.len() - k,
{
    if k < 0 || k >= ls.len() {
        db
    } else {
        let line = ls[k];
        if line.len() == 0 || "//"@.is_prefix_of(line) || "LIN_description_file"@.is_prefix_of(line) {
            ldf_main(ls, k + 1, db)
        } else if is_header(line) {
            ldf_main(ls, k + 1, header_line(line, db))
        } else if "Nodes"@.is_prefix_of(line) {
            proof {
                lemma_nodes_end(ls, k + 1, db);
            }
            ldf_main(ls, nodes_section(ls, k + 1, db).0, nodes_section(ls, k + 1, db).1)
        } else if "Signals"@.is_prefix_of(line) {
            proof {
                lemma_signals_end(ls, k + 1, db);
            }
            ldf_main(ls, signals_section(ls, k + 1, db).0, signals_section(ls, k + 1, db).1)
        } else if "Frames"@.is_prefix_of(line) {
            proof {
                lemma_frames_end(ls, k + 1, None, 0, db);
            }
            ldf_main(ls, frames_section(ls, k + 1, None, 0, db).0, frames_section(ls, k + 1, None, 0, db).1)
        } else if "Schedule_tables"@.is_prefix_of(line) {
            proof {
                lemma_schedule_end(ls, k + 1, None, 0, db);
            }
            ldf_main(ls, schedule_section(ls, k + 1, None, 0, db).0, schedule_section(ls, k + 1, None, 0, db).1)
        } else if "Node_attributes"@.is_prefix_of(line) {
            proof {
                lemma_attributes_end(ls, k + 1, None, no_attributes(), 0, db);
            }
            ldf_main(
                ls,
                attributes_section(ls, k + 1, None, no_attributes(), 0, db).0,
                attributes_section(ls, k + 1, None, no_attributes(), 0, db).1,
            )
        } else {
            ldf_main(ls, k + 1, db)
        }
    }
}

/// What reading a LIN description file gives.
pub open spec fn ldf_spec(s: Seq<char>) -> LdfDatabaseModel {
    ldf_main(ldf_lines(s), 0, empty_ldf())
}


// ---------------------------------------------------------------------------
// Reading the sections
// ---------------------------------------------------------------------------

fn node_line_exec(line: &[char], db: &mut LdfDatabase)
    ensures
        final(db)@ == node_line(line@, old(db)@),
{
    if starts_with_str(line, "Master:") || starts_with_str(line, "Master :") {
        db.master = Some(master_exec(line));
    }
    if starts_with_str(line, "Slaves:") || starts_with_str(line, "Slaves :") {
        let names = slaves_exec(line);
        let ghost base = db@;
        let ghost add = slaves_spec(line@).map_values(|n: Seq<char>| slave_named(n));
        let mut i: usize = 0;
        while i < names.len()
            invariant
                i <= names.len(),
                dbf_strings(names@) == slaves_spec(line@),
                add == slaves_spec(line@).map_values(|n: Seq<char>| slave_named(n)),
                db@ == (LdfDatabaseModel { slaves: base.slaves + add.take(i as int), ..base }),
            decreases names.len() - i,
        {
            let ghost before = db@.slaves;
            db.slaves.push(LdfSlaveNode::new(names[i].as_str()));
            assert(add[i as int] == slave_named(names@[i as int]@));
            assert(db@.slaves =~= before.push(slave_named(names@[i as int]@)));
            assert(base.slaves + add.take(i + 1) =~= (base.slaves + add.take(i as int)).push(add[i as int]));
            i += 1;
        }
        assert(add.take(i as int) =~= add);
    }
}

fn nodes_exec(ls: &Vec<Vec<char>>, start: usize, db: &mut LdfDatabase) -> (e: usize)
    requires
        start <= ls.len(),
    ensures
        (e as int, final(db)@) == nodes_section(vecs_view(ls@), start as int, old(db)@),
        start <= e <= ls.len(),
{
    let ghost lv = vecs_view(ls@);
    let mut k = start;
    while k < ls.len()
        invariant
            start <= k <= ls.len(),
            lv == vecs_view(ls@),
            nodes_section(lv, k as int, db@) == nodes_section(lv, start as int, old(db)@),
        decreases ls.len() - k,
    {
        let line = ls[k].as_slice();
        assert(lv[k as int] == line@);
        if line.len() > 0 && line[0] == '}' {
            return k + 1;
        }
        if line.len() > 0 && !equals_str(line, "{") {
            node_line_exec(line, db);
        }
        k += 1;
    }
    k
}

fn signals_exec(ls: &Vec<Vec<char>>, start: usize, db: &mut LdfDatabase) -> (e: usize)
    requires
        start <= ls.len(),
    ensures
        (e as int, final(db)@) == signals_section(vecs_view(ls@), start as int, old(db)@),
        start <= e <= ls.len(),
{
    let ghost lv = vecs_view(ls@);
    let mut k = start;
    while k < ls.len()
        invariant
            start <= k <= ls.len(),
            lv == vecs_view(ls@),
            signals_section(lv, k as int, db@) == signals_section(lv, start as int, old(db)@),
        decreases ls.len() - k,
    {
        let line = ls[k].as_slice();
        assert(lv[k as int] == line@);
        if line.len() > 0 && line[0] == '}' {
            return k + 1;
        }
        if line.len() > 0 && !starts_with_str(line, "//") && !equals_str(line, "{") {
            if let Some(sig) = signal_line_exec(line) {
                let ghost before = db@;
                let ghost m = sig@;
                db.signals.push(sig);
                assert(db@.signals =~= before.signals.push(m));
            }
        }
        k += 1;
    }
    k
}

/// The view of the frame being read, if any.
pub open spec fn frame_opt(f: Option<LdfFrame>) -> Option<LdfFrameModel> {
    match f {
        Some(x) => Some(x@),
        None => None,
    }
}

fn push_frame_exec(db: &mut LdfDatabase, cur: Option<LdfFrame>)
    ensures
        final(db)@ == push_frame(old(db)@, frame_opt(cur)),
{
    if let Some(f) = cur {
        let ghost m = f@;
        db.frames.push(f);
        assert(db@.frames =~= old(db)@.frames.push(m));
    }
}

fn frames_exec(ls: &Vec<Vec<char>>, start: usize, db: &mut LdfDatabase) -> (e: usize)
    requires
        start <= ls.len(),
    ensures
        (e as int, final(db)@) == frames_section(vecs_view(ls@), start as int, None, 0, old(db)@),
        start <= e <= ls.len(),
{
    let ghost lv = vecs_view(ls@);
    let mut k = start;
    let mut cur: Option<LdfFrame> = None;
    let mut depth: usize = 0;
    while k < ls.len()
        invariant
            start <= k <= ls.len(),
            depth <= k,
            lv == vecs_view(ls@),
            frames_section(lv, k as int, frame_opt(cur), depth as nat, db@) == frames_section(
                lv,
                start as int,
                None,
                0,
                old(db)@,
            ),
        decreases ls.len() - k,
    {
        let line = ls[k].as_slice();
        assert(lv[k as int] == line@);
        if equals_str(line, "{") {
            depth += 1;
        } else if equals_str(line, "}") {
            if depth > 0 {
                depth -= 1;
                if depth == 0 {
                    let c = cur;
                    cur = None;
                    push_frame_exec(db, c);
                }
            } else {
                let c = cur;
                push_frame_exec(db, c);
                return k + 1;
            }
        } else if line.len() == 0 || starts_with_str(line, "//") {
        } else if find_char_exec(line, ':').is_some() && depth == 0 {
            let c = cur;
            push_frame_exec(db, c);
            match frame_header_exec(line) {
                Some(f) => {
                    cur = Some(f);
                    if find_char_exec(line, '{').is_some() {
                        depth = 1;
                    }
                },
                None => {
                    cur = None;
                },
            }
        } else {
            match cur {
                Some(mut f) => {
                    if let Some((name, offset)) = frame_signal_exec(line) {
                        let n = string_from_chars(name.as_slice());
                        f.add_signal(n.as_str(), offset);
                    }
                    cur = Some(f);
                },
                None => {
                    cur = None;
                },
            }
        }
        k += 1;
    }
    k
}

/// The view of the table being read, if any.
pub open spec fn table_opt(t: Option<LdfScheduleTable>) -> Option<LdfScheduleTableModel> {
    match t {
        Some(x) => Some(x@),
        None => None,
    }
}

fn push_table_exec(db: &mut LdfDatabase, cur: Option<LdfScheduleTable>)
    ensures
        final(db)@ == push_table(old(db)@, table_opt(cur)),
{
    if let Some(t) = cur {
        let ghost m = t@;
        db.schedule_tables.push(t);
        assert(db@.schedule_tables =~= old(db)@.schedule_tables.push(m));
    }
}

fn schedule_exec(ls: &Vec<Vec<char>>, start: usize, db: &mut LdfDatabase) -> (e: usize)
    requires
        start <= ls.len(),
    ensures
        (e as int, final(db)@) == schedule_section(vecs_view(ls@), start as int, None, 0, old(db)@),
        start <= e <= ls.len(),
{
    let ghost lv = vecs_view(ls@);
    let mut k = start;
    let mut cur: Option<LdfScheduleTable> = None;
    let mut depth: usize = 0;
    while k < ls.len()
        invariant
            start <= k <= ls.len(),
            depth <= k,
            lv == vecs_view(ls@),
            schedule_section(lv, k as int, table_opt(cur), depth as nat, db@) == schedule_section(
                lv,
                start as int,
                None,
                0,
                old(db)@,
            ),
        decreases ls.len() - k,
    {
        let line = ls[k].as_slice();
        assert(lv[k as int] == line@);
        if equals_str(line, "{") {
            depth += 1;
        } else if equals_str(line, "}") {
            if depth > 0 {
                depth -= 1;
                if depth == 0 {
                    let c = cur;
                    cur = None;
                    push_table_exec(db, c);
                }
            } else {
                let c = cur;
                push_table_exec(db, c);
                return k + 1;
            }
        } else if line.len() == 0 || starts_with_str(line, "//") {
        } else if line[line.len() - 1] == '{' && depth == 0 {
            let c = cur;
            push_table_exec(db, c);
            let name = trim(strip_suffix_all_exec(line, '{').as_slice());
            let n = string_from_chars(name.as_slice());
            cur = Some(LdfScheduleTable::new(n.as_str()));
            depth = 1;
        } else {
            match cur {
                Some(mut t) => {
                    if let Some(entry) = schedule_entry_exec(line) {
                        t.add_entry(entry);
                    }
                    cur = Some(t);
                },
                None => {
                    cur = None;
                },
            }
        }
        k += 1;
    }
    k
}

fn put_attributes_exec(db: &mut LdfDatabase, name: String, attrs: LdfNodeAttributes)
    ensures
        final(db)@ == put_attributes(old(db)@, name@, attrs@),
{
    let ghost nv = old(db)@.node_attributes;
    let mut i: usize = 0;
    while i < db.node_attributes.len()
        invariant
            i <= db.node_attributes.len(),
            db@ == old(db)@,
            nv == db@.node_attributes,
            forall|j: int| 0 <= j < i ==> !for_node(name@)(#[trigger] nv[j]),
        decreases db.node_attributes.len() - i,
    {
        assert(nv[i as int].0 == db.node_attributes@[i as int].0@);
        if crate::text::chars_eq(chars_of(db.node_attributes[i].0.as_str()).as_slice(), chars_of(name.as_str()).as_slice()) {
            proof {
                lemma_first_where_at(nv, for_node(name@), i as int);
            }
            let ghost a = attrs@;
            let ghost n = name@;
            db.node_attributes.set(i, (name, attrs));
            assert(db@.node_attributes =~= nv.update(i as int, (n, a)));
            return;
        }
        i += 1;
    }
    let ghost a = attrs@;
    let ghost n = name@;
    db.node_attributes.push((name, attrs));
    assert(db@.node_attributes =~= nv.push((n, a)));
}

/// The name of the node being read, if any.
pub open spec fn name_opt(n: Option<String>) -> Option<Seq<char>> {
    match n {
        Some(x) => Some(x@),
        None => None,
    }
}

fn attributes_exec(ls: &Vec<Vec<char>>, start: usize, db: &mut LdfDatabase) -> (e: usize)
    requires
        start <= ls.len(),
    ensures
        (e as int, final(db)@) == attributes_section(vecs_view(ls@), start as int, None, no_attributes(), 0, old(db)@),
        start <= e <= ls.len(),
{
    let ghost lv = vecs_view(ls@);
    let mut k = start;
    let mut cur: Option<String> = None;
    let mut attrs = LdfNodeAttributes::default();
    let mut depth: usize = 0;
    while k < ls.len()
        invariant
            start <= k <= ls.len(),
            depth <= k,
            lv == vecs_view(ls@),
            attributes_section(lv, k as int, name_opt(cur), attrs@, depth as nat, db@) == attributes_section(
                lv,
                start as int,
                None,
                no_attributes(),
                0,
                old(db)@,
            ),
        decreases ls.len() - k,
    {
        let line = ls[k].as_slice();
        assert(lv[k as int] == line@);
        if equals_str(line, "{") {
            depth += 1;
        } else if equals_str(line, "}") {
            if depth > 0 {
                depth -= 1;
                if depth == 0 {
                    let c = cur;
                    cur = None;
                    if let Some(n) = c {
                        let a = attrs;
                        attrs = LdfNodeAttributes::default();
                        put_attributes_exec(db, n, a);
                    }
                }
            } else {
                let c = cur;
                if let Some(n) = c {
                    put_attributes_exec(db, n, attrs);
                }
                return k + 1;
            }
        } else if line.len() == 0 || starts_with_str(line, "//") {
        } else if line[line.len() - 1] == '{' && depth == 0 {
            let c = cur;
            if let Some(n) = c {
                let a = attrs;
                attrs = LdfNodeAttributes::default();
                put_attributes_exec(db, n, a);
            }
            let name = trim(strip_suffix_all_exec(line, '{').as_slice());
            cur = Some(string_from_chars(name.as_slice()));
            depth = 1;
        } else if cur.is_some() {
            node_attribute_exec(line, &mut attrs);
        }
        k += 1;
    }
    k
}

fn header_line_exec(line: &[char], db: &mut LdfDatabase)
    ensures
        final(db)@ == header_line(line@, old(db)@),
{
    if starts_with_str(line, "LIN_protocol_version") {
        if let Some(v) = quoted_value_exec(line) {
            db.protocol_version = string_from_chars(v.as_slice());
        }
    } else if starts_with_str(line, "LIN_language_version") {
        if let Some(v) = quoted_value_exec(line) {
            db.language_version = string_from_chars(v.as_slice());
        }
    } else if starts_with_str(line, "LIN_speed") {
        if let Some(v) = speed_value_exec(line) {
            db.speed_kbps = string_from_chars(v.as_slice());
        }
    }
}

fn main_step(ls: &Vec<Vec<char>>, k: usize, db: &mut LdfDatabase) -> (e: usize)
    requires
        k < ls.len(),
    ensures
        k < e <= ls.len(),
        ldf_main(vecs_view(ls@), e as int, final(db)@) == ldf_main(vecs_view(ls@), k as int, old(db)@),
{
    let ghost lv = vecs_view(ls@);
    let line = ls[k].as_slice();
    assert(lv[k as int] == line@);
    if line.len() == 0 || starts_with_str(line, "//") || starts_with_str(line, "LIN_description_file") {
        k + 1
    } else if starts_with_str(line, "LIN_protocol_version") || starts_with_str(line, "LIN_language_version")
        || starts_with_str(line, "LIN_speed") {
        header_line_exec(line, db);
        k + 1
    } else if starts_with_str(line, "Nodes") {
        nodes_exec(ls, k + 1, db)
    } else if starts_with_str(line, "Signals") {
        signals_exec(ls, k + 1, db)
    } else if starts_with_str(line, "Frames") {
        frames_exec(ls, k + 1, db)
    } else if starts_with_str(line, "Schedule_tables") {
        schedule_exec(ls, k + 1, db)
    } else if starts_with_str(line, "Node_attributes") {
        attributes_exec(ls, k + 1, db)
    } else {
        k + 1
    }
}

/// LDF parser.
pub struct LdfParser;

impl LdfParser {
    /// Read a LIN description file. Reading never fails: lines that do not
    /// read are skipped.
    pub fn parse(content: &str) -> (r: Result<LdfDatabase, BusmasterError>)
        ensures
            r matches Ok(db) && db@ == ldf_spec(content@),
    {
        let chars = chars_of(content);
        let raw = split_at_char(chars.as_slice(), '\n');
        let mut ls: Vec<Vec<char>> = Vec::new();
        let mut i: usize = 0;
        while i < raw.len()
            invariant
                i <= raw.len(),
                raw@.len() == split_spec(content@, '\n').len(),
                forall|j: int| 0 <= j < raw@.len() ==> #[trigger] raw@[j]@ == split_spec(content@, '\n')[j],
                ls@.len() == i,
                forall|j: int| 0 <= j < i ==> #[trigger] ls@[j]@ == trim_spec(split_spec(content@, '\n')[j]),
            decreases raw.len() - i,
        {
            ls.push(trim(raw[i].as_slice()));
            i += 1;
        }
        let ghost lv = vecs_view(ls@);
        assert(lv =~= ldf_lines(content@));
        let mut db = LdfDatabase::new();
        let mut k: usize = 0;
        while k < ls.len()
            invariant
                k <= ls.len(),
                lv == vecs_view(ls@),
                ldf_main(lv, k as int, db@) == ldf_main(lv, 0, empty_ldf()),
            decreases ls.len() - k,
        {
            k = main_step(&ls, k, &mut db);
        }
        Ok(db)
    }
}

/// A frame identifier written without a `0x` prefix is read in base ten:
/// the decimal digits of any value up to 255 read back as that value.
pub proof fn lemma_frame_id_decimal(n: nat)
    requires
        n <= 255,
    ensures
        frame_id_spec(crate::text::dec_digits(n)) == Some(n as u8),
{
    let d = crate::text::dec_digits(n);
    crate::dbf_roundtrip::lemma_dec_digits(n, 255);
    reveal_strlit("0x");
    reveal_strlit("0X");
    if d.len() >= 2 {
        assert(d[1] != "0x"@[1]);
        assert(d[1] != "0X"@[1]);
    }
    assert(!"0x"@.is_prefix_of(d));
    assert(!"0X"@.is_prefix_of(d));
    assert(d[0] != '+');
}

/// The hexadecimal digits of `n` read back as `n` in base sixteen.
proof fn lemma_hex_digits_read(n: nat, max: nat)
    requires
        n <= max,
    ensures
        crate::text::hex_digits(n).len() >= 1,
        crate::number::scan_digits(crate::text::hex_digits(n), 16, max) == Ok::<nat, crate::number::IntErrorKind>(n),
    decreases n,
{
    let d = crate::text::hex_digits(n);
    let k = (n % 16) as int;
    assert(crate::text::digit_char(k) as int == if k < 10 { k + 48 } else { k + 55 });
    assert(crate::number::digit_value(crate::text::digit_char(k), 16) == Some((n % 16) as nat));
    if n < 16 {
        assert(n % 16 == n);
        assert(d.drop_last() =~= Seq::<char>::empty());
        assert(d.last() == crate::text::digit_char(k));
        assert(crate::number::scan_digits(Seq::<char>::empty(), 16, max) == Ok::<nat, crate::number::IntErrorKind>(0));
    } else {
        lemma_hex_digits_read(n / 16, max);
        assert(d.drop_last() =~= crate::text::hex_digits(n / 16));
        assert(d.last() == crate::text::digit_char(k));
        assert((n / 16) * 16 + n % 16 == n) by (nonlinear_arith);
        assert(crate::number::scan_digits(d.drop_last(), 16, max) == Ok::<nat, crate::number::IntErrorKind>(n / 16));
    }
}

/// A frame identifier written with a `0x` or `0X` prefix is read in base
/// sixteen: the prefix and the hexadecimal digits of any value up to 255
/// read back as that value.
pub proof fn lemma_frame_id_hex(n: nat)
    requires
        n <= 255,
    ensures
        frame_id_spec("0x"@ + crate::text::hex_digits(n)) == Some(n as u8),
        frame_id_spec("0X"@ + crate::text::hex_digits(n)) == Some(n as u8),
{
    reveal_strlit("0x");
    reveal_strlit("0X");
    let h = crate::text::hex_digits(n);
    lemma_hex_digits_read(n, 255);
    let a = "0x"@ + h;
    let b = "0X"@ + h;
    assert("0x"@.is_prefix_of(a)) by {
        assert(a.subrange(0, 2) =~= "0x"@);
    }
    assert("0X"@.is_prefix_of(b)) by {
        assert(b.subrange(0, 2) =~= "0X"@);
    }
    assert(a.subrange(2, a.len() as int) =~= h);
    assert(b.subrange(2, b.len() as int) =~= h);
    assert(h[0] != '+') by {
        lemma_hex_first(n);
    }
}

/// The first hexadecimal digit of `n` is a digit character.
proof fn lemma_hex_first(n: nat)
    ensures
        crate::text::hex_digits(n)[0] != '+',
    decreases n,
{
    if n < 16 {
        let k = n as int;
        assert(crate::text::digit_char(k) as int == if k < 10 { k + 48 } else { k + 55 });
    } else {
        lemma_hex_first(n / 16);
        lemma_hex_digits_read(n / 16, n / 16);
    }
}

} // verus!
