//! Parsing and formatting of the command line's values: CAN identifiers,
//! data bytes, identifier ranges and lists.
use vstd::prelude::*;
use crate::filter::{FilterMode, FilterRule, MessageFilter};
use crate::frame::CanFrame;
use crate::number::{IntErrorKind, digit_value, parse_unsigned, parse_unsigned_spec, scan_digits};
use crate::text::{chars_of, digit_char, hex2, hex_digit, is_whitespace, is_ws, push_char, split_at_char, split_spec, trim, trim_spec};

verus! {

broadcast use vstd::string::group_string_axioms;

/// Why a command-line value was rejected.
#[derive(Debug, Clone, Copy, PartialEq, Eq, Structural)]
pub enum CliInputError {
    /// A number did not parse.
    Int(IntErrorKind),
    /// An ID range is not two IDs separated by one `-`.
    RangeFormat,
    /// An ID range starts after it ends.
    RangeOrder,
}

/// The text an input error displays: std's wording for a number that does
/// not parse, and the range messages.
pub open spec fn cli_error_text(e: CliInputError) -> Seq<char> {
    match e {
        CliInputError::Int(IntErrorKind::Empty) => "cannot parse integer from empty string"@,
        CliInputError::Int(IntErrorKind::InvalidDigit) => "invalid digit found in string"@,
        CliInputError::Int(IntErrorKind::PosOverflow) => "number too large to fit in target type"@,
        CliInputError::Int(IntErrorKind::NegOverflow) => "number too small to fit in target type"@,
        CliInputError::RangeFormat => "Invalid range format. Use: 0x100-0x1FF"@,
        CliInputError::RangeOrder => "Invalid range: start > end"@,
    }
}

impl CliInputError {
    /// The text this error displays.
    pub fn to_display_string(&self) -> (r: String)
        ensures
            r@ == cli_error_text(*self),
    {
        let t = match self {
            CliInputError::Int(IntErrorKind::Empty) => "cannot parse integer from empty string",
            CliInputError::Int(IntErrorKind::InvalidDigit) => "invalid digit found in string",
            CliInputError::Int(IntErrorKind::PosOverflow) => "number too large to fit in target type",
            CliInputError::Int(IntErrorKind::NegOverflow) => "number too small to fit in target type",
            CliInputError::RangeFormat => "Invalid range format. Use: 0x100-0x1FF",
            CliInputError::RangeOrder => "Invalid range: start > end",
        };
        t.to_string()
    }
}

/// `s` with every leading repetition of `p` removed (`trim_start_matches`).
pub open spec fn strip_all_spec(s: Seq<char>, p: Seq<char>) -> Seq<char>
    decreases s.len(),
{
    if p.len() > 0 && s.len() >= p.len() && s.take(p.len() as int) == p {
        strip_all_spec(s.skip(p.len() as int), p)
    } else {
        s
    }
}

/// The hexadecimal digits of an ID: trimmed, and without its `0x` and then
/// its `0X` prefixes.
pub open spec fn id_digits(s: Seq<char>) -> Seq<char> {
    strip_all_spec(strip_all_spec(trim_spec(s), seq!['0', 'x']), seq!['0', 'X'])
}

/// What `parse_id` gives for `s`.
pub open spec fn parse_id_spec(s: Seq<char>) -> Result<nat, IntErrorKind> {
    parse_unsigned_spec(id_digits(s), 16, 0xFFFF_FFFF)
}

/// Start of `s[lo..hi]` once every leading copy of `a` `b` is removed.
fn strip_all_at(s: &[char], lo: usize, hi: usize, a: char, b: char) -> (r: usize)
    requires
        lo <= hi <= s.len(),
    ensures
        lo <= r <= hi,
        s@.subrange(r as int, hi as int) == strip_all_spec(s@.subrange(lo as int, hi as int), seq![a, b]),
    decreases hi - lo,
{
    let ghost t = s@.subrange(lo as int, hi as int);
    if hi - lo >= 2 && s[lo] == a && s[lo + 1] == b {
        assert(t.take(2) =~= seq![a, b]);
        assert(t.skip(2) =~= s@.subrange(lo + 2, hi as int));
        strip_all_at(s, lo + 2, hi, a, b)
    } else {
        assert(!(t.len() >= 2 && t.take(2) == seq![a, b])) by {
            if t.len() >= 2 && t.take(2) == seq![a, b] {
                assert(t.take(2)[0] == a && t.take(2)[1] == b);
            }
        }
        lo
    }
}

/// Parse an ID written in hexadecimal, with or without a `0x` prefix.
pub fn parse_id(id_str: &str) -> (r: Result<u32, CliInputError>)
    ensures
        match parse_id_spec(id_str@) {
            Ok(v) => r == Ok::<u32, CliInputError>(v as u32),
            Err(e) => r == Err::<u32, CliInputError>(CliInputError::Int(e)),
        },
{
    let cs = chars_of(id_str);
    parse_id_chars(cs.as_slice())
}

fn parse_id_chars(cs: &[char]) -> (r: Result<u32, CliInputError>)
    ensures
        match parse_id_spec(cs@) {
            Ok(v) => r == Ok::<u32, CliInputError>(v as u32),
            Err(e) => r == Err::<u32, CliInputError>(CliInputError::Int(e)),
        },
{
    let t = trim(cs);
    let n = t.len();
    assert(t@.subrange(0, n as int) =~= t@);
    let a = strip_all_at(t.as_slice(), 0, n, '0', 'x');
    let b = strip_all_at(t.as_slice(), a, n, '0', 'X');
    match parse_unsigned(t.as_slice(), b, n, 16, 0xFFFF_FFFF) {
        Ok(v) => Ok(v as u32),
        Err(e) => Err(CliInputError::Int(e)),
    }
}

/// Whether `c` separates data bytes: whitespace or a comma.
pub open spec fn is_data_sep(c: char) -> bool {
    is_ws(c) || c == ','
}

/// The maximal runs of non-separator characters of `s`, in order.
pub open spec fn words_spec(s: Seq<char>) -> Seq<Seq<char>>
    decreases s.len(),
{
    if s.len() == 0 {
        Seq::empty()
    } else {
        let w = words_spec(s.drop_last());
        let c = s.last();
        if is_data_sep(c) {
            w
        } else if s.len() >= 2 && !is_data_sep(s[s.len() - 2]) {
            w.update(w.len() - 1, w.last().push(c))
        } else {
            w.push(seq![c])
        }
    }
}

proof fn lemma_words_nonempty(s: Seq<char>)
    requires
        s.len() >= 1,
        !is_data_sep(s.last()),
    ensures
        words_spec(s).len() >= 1,
    decreases s.len(),
{
    if s.len() >= 2 && !is_data_sep(s[s.len() - 2]) {
        lemma_words_nonempty(s.drop_last());
    }
}

/// What parsing each word of data gives: the bytes, or the first word's error.
pub open spec fn parse_words_spec(w: Seq<Seq<char>>) -> Result<Seq<u8>, IntErrorKind>
    decreases w.len(),
{
    if w.len() == 0 {
        Ok(Seq::empty())
    } else {
        match parse_words_spec(w.drop_last()) {
            Err(e) => Err(e),
            Ok(bytes) => match parse_unsigned_spec(
                strip_all_spec(strip_all_spec(w.last(), seq!['0', 'x']), seq!['0', 'X']),
                16,
                0xFF,
            ) {
                Ok(v) => Ok(bytes.push(v as u8)),
                Err(e) => Err(e),
            },
        }
    }
}

/// Split `s` into its words.
fn words(s: &[char]) -> (r: Vec<Vec<char>>)
    ensures
        r@.len() == words_spec(s@).len(),
        forall|i: int| 0 <= i < r@.len() ==> #[trigger] r@[i]@ == words_spec(s@)[i],
{
    let mut r: Vec<Vec<char>> = Vec::new();
    let mut i: usize = 0;
    while i < s.len()
        invariant
            i <= s.len(),
            r@.len() == words_spec(s@.take(i as int)).len(),
            forall|j: int| 0 <= j < r@.len() ==> #[trigger] r@[j]@ == words_spec(s@.take(i as int))[j],
        decreases s.len() - i,
    {
        let c = s[i];
        let ghost prev = s@.take(i as int);
        let ghost next = s@.take(i + 1);
        assert(next.drop_last() =~= prev);
        assert(next.last() == c);
        if c == ',' || is_whitespace(c) {
        } else if i >= 1 && !(s[i - 1] == ',' || is_whitespace(s[i - 1])) {
            assert(next[next.len() - 2] == s@[i - 1]);
            proof {
                lemma_words_nonempty(prev);
            }
            let last = r.len() - 1;
            let mut w = r.remove(last);
            w.push(c);
            r.push(w);
            assert forall|j: int| 0 <= j < r@.len() implies #[trigger] r@[j]@ == words_spec(next)[j] by {
                if j < r@.len() - 1 {
                } else {
                    assert(words_spec(prev)[j].push(c) == words_spec(next)[j]);
                }
            }
        } else {
            let mut w: Vec<char> = Vec::new();
            w.push(c);
            r.push(w);
            assert(w@ =~= seq![c]);
        }
        i += 1;
    }
    assert(s@.take(s.len() as int) =~= s@);
    r
}

/// What `parse_data` gives for `s`.
pub open spec fn parse_data_spec(s: Seq<char>) -> Result<Seq<u8>, IntErrorKind> {
    parse_words_spec(words_spec(s))
}

/// Parse data bytes written in hexadecimal, separated by spaces or commas.
pub fn parse_data(data_str: &str) -> (r: Result<Vec<u8>, CliInputError>)
    ensures
        match parse_data_spec(data_str@) {
            Ok(bytes) => r matches Ok(v) && v@ == bytes,
            Err(e) => r == Err::<Vec<u8>, CliInputError>(CliInputError::Int(e)),
        },
{
    let cs = chars_of(data_str);
    let ws = words(cs.as_slice());
    let ghost w = words_spec(cs@);
    let mut data: Vec<u8> = Vec::new();
    let mut i: usize = 0;
    while i < ws.len()
        invariant
            i <= ws.len(),
            w == words_spec(data_str@),
            ws@.len() == w.len(),
            forall|j: int| 0 <= j < ws@.len() ==> #[trigger] ws@[j]@ == w[j],
            parse_words_spec(w.take(i as int)) == Ok::<Seq<u8>, IntErrorKind>(data@),
        decreases ws.len() - i,
    {
        let word = ws[i].as_slice();
        let n = word.len();
        assert(word@.subrange(0, n as int) =~= word@);
        let a = strip_all_at(word, 0, n, '0', 'x');
        let b = strip_all_at(word, a, n, '0', 'X');
        let ghost next = w.take(i + 1);
        assert(next.drop_last() =~= w.take(i as int));
        assert(next.last() == w[i as int]);
        match parse_unsigned(word, b, n, 16, 0xFF) {
            Ok(v) => {
                data.push(v as u8);
            },
            Err(e) => {
                proof {
                    lemma_parse_words_stays_err(w, i as int + 1);
                }
                return Err(CliInputError::Int(e));
            },
        }
        i += 1;
    }
    assert(w.take(ws.len() as int) =~= w);
    Ok(data)
}

proof fn lemma_parse_words_stays_err(w: Seq<Seq<char>>, k: int)
    requires
        0 <= k <= w.len(),
        parse_words_spec(w.take(k)) is Err,
    ensures
        parse_words_spec(w) == parse_words_spec(w.take(k)),
    decreases w.len() - k,
{
    if k < w.len() {
        assert(w.take(k + 1).drop_last() =~= w.take(k));
        lemma_parse_words_stays_err(w, k + 1);
    } else {
        assert(w.take(k) =~= w);
    }
}

/// What `parse_id_range` gives for `s`.
pub open spec fn parse_id_range_spec(s: Seq<char>) -> Result<(nat, nat), CliInputError> {
    let parts = split_spec(s, '-');
    if parts.len() != 2 {
        Err(CliInputError::RangeFormat)
    } else {
        match (parse_id_spec(parts[0]), parse_id_spec(parts[1])) {
            (Err(e), _) => Err(CliInputError::Int(e)),
            (Ok(_), Err(e)) => Err(CliInputError::Int(e)),
            (Ok(a), Ok(b)) => if a > b {
                Err(CliInputError::RangeOrder)
            } else {
                Ok((a, b))
            },
        }
    }
}

/// Parse an ID range such as `0x100-0x1FF`.
pub fn parse_id_range(range_str: &str) -> (r: Result<(u32, u32), CliInputError>)
    ensures
        match parse_id_range_spec(range_str@) {
            Ok((a, b)) => r == Ok::<(u32, u32), CliInputError>((a as u32, b as u32)),
            Err(e) => r == Err::<(u32, u32), CliInputError>(e),
        },
{
    let cs = chars_of(range_str);
    let parts = split_at_char(cs.as_slice(), '-');
    if parts.len() != 2 {
        return Err(CliInputError::RangeFormat);
    }
    let start = match parse_id_chars(parts[0].as_slice()) {
        Ok(v) => v,
        Err(e) => return Err(e),
    };
    let end = match parse_id_chars(parts[1].as_slice()) {
        Ok(v) => v,
        Err(e) => return Err(e),
    };
    if start > end {
        return Err(CliInputError::RangeOrder);
    }
    Ok((start, end))
}

/// What `parse_id_list` gives for `s`: the IDs of its comma-separated
/// pieces, or the first piece's error.
pub open spec fn parse_id_list_spec(parts: Seq<Seq<char>>) -> Result<Seq<u32>, IntErrorKind>
    decreases parts.len(),
{
    if parts.len() == 0 {
        Ok(Seq::empty())
    } else {
        match parse_id_list_spec(parts.drop_last()) {
            Err(e) => Err(e),
            Ok(ids) => match parse_id_spec(parts.last()) {
                Ok(v) => Ok(ids.push(v as u32)),
                Err(e) => Err(e),
            },
        }
    }
}

/// Parse a comma-separated list of IDs.
pub fn parse_id_list(ids_str: &str) -> (r: Result<Vec<u32>, CliInputError>)
    ensures
        match parse_id_list_spec(split_spec(ids_str@, ',')) {
            Ok(ids) => r matches Ok(v) && v@ == ids,
            Err(e) => r == Err::<Vec<u32>, CliInputError>(CliInputError::Int(e)),
        },
{
    let cs = chars_of(ids_str);
    let parts = split_at_char(cs.as_slice(), ',');
    let ghost p = split_spec(cs@, ',');
    let mut ids: Vec<u32> = Vec::new();
    let mut i: usize = 0;
    while i < parts.len()
        invariant
            i <= parts.len(),
            p == split_spec(ids_str@, ','),
            parts@.len() == p.len(),
            forall|j: int| 0 <= j < parts@.len() ==> #[trigger] parts@[j]@ == p[j],
            parse_id_list_spec(p.take(i as int)) == Ok::<Seq<u32>, IntErrorKind>(ids@),
        decreases parts.len() - i,
    {
        let ghost next = p.take(i + 1);
        assert(next.drop_last() =~= p.take(i as int));
        assert(next.last() == p[i as int]);
        match parse_id_chars(parts[i].as_slice()) {
            Ok(v) => ids.push(v),
            Err(e) => {
                proof {
                    lemma_id_list_stays_err(p, i as int + 1);
                }
                return Err(e);
            },
        }
        i += 1;
    }
    assert(p.take(parts.len() as int) =~= p);
    Ok(ids)
}

proof fn lemma_id_list_stays_err(p: Seq<Seq<char>>, k: int)
    requires
        0 <= k <= p.len(),
        parse_id_list_spec(p.take(k)) is Err,
    ensures
        parse_id_list_spec(p) == parse_id_list_spec(p.take(k)),
    decreases p.len() - k,
{
    if k < p.len() {
        assert(p.take(k + 1).drop_last() =~= p.take(k));
        lemma_id_list_stays_err(p, k + 1);
    } else {
        assert(p.take(k) =~= p);
    }
}


/// The bytes as two-digit hexadecimal numbers separated by single spaces.
pub open spec fn format_data_spec(data: Seq<u8>) -> Seq<char>
    decreases data.len(),
{
    if data.len() == 0 {
        Seq::empty()
    } else if data.len() == 1 {
        hex2(data[0])
    } else {
        format_data_spec(data.drop_last()) + seq![' '] + hex2(data.last())
    }
}

/// Format data bytes for display, e.g. `01 0A FF`.
pub fn format_data(data: &[u8]) -> (r: String)
    ensures
        r@ == format_data_spec(data@),
{
    let mut s = String::new();
    let mut i: usize = 0;
    while i < data.len()
        invariant
            i <= data.len(),
            s@ == format_data_spec(data@.take(i as int)),
        decreases data.len() - i,
    {
        let b = data[i];
        let ghost prev = data@.take(i as int);
        let ghost next = data@.take(i + 1);
        assert(next.drop_last() =~= prev);
        if i > 0 {
            push_char(&mut s, ' ');
        }
        push_char(&mut s, hex_digit(b / 16));
        push_char(&mut s, hex_digit(b % 16));
        i += 1;
        assert(s@ =~= format_data_spec(next));
    }
    assert(data@.take(data.len() as int) =~= data@);
    s
}


// ---------------------------------------------------------------------------
// The monitor and send commands
// ---------------------------------------------------------------------------

/// Whether a driver of this name can be used (only the virtual `stub`).
pub fn is_known_driver(name: &str) -> (r: bool)
    ensures
        r == (name@ == "stub"@),
{
    let v = chars_of(name);
    let w = chars_of("stub");
    crate::text::chars_eq(v.as_slice(), w.as_slice())
}

/// The rules of the monitor's filter, if a range or an ID list is given:
/// the range (if any) first, then the list; or the first error.
pub open spec fn monitor_filter_ok(range: Option<Seq<char>>, ids: Option<Seq<char>>) -> bool {
    (match range {
        Some(t) => parse_id_range_spec(t) is Ok,
        None => true,
    }) && (match ids {
        Some(t) => parse_id_list_spec(split_spec(t, ',')) is Ok,
        None => true,
    })
}

/// The error the monitor's filter options give, if one does: the range's
/// first.
pub open spec fn monitor_filter_error(range: Option<Seq<char>>, ids: Option<Seq<char>>) -> CliInputError {
    match range {
        Some(t) => match parse_id_range_spec(t) {
            Err(e) => e,
            Ok(_) => match ids {
                Some(u) => match parse_id_list_spec(split_spec(u, ',')) {
                    Err(e) => CliInputError::Int(e),
                    Ok(_) => CliInputError::RangeFormat,
                },
                None => CliInputError::RangeFormat,
            },
        },
        None => match ids {
            Some(u) => match parse_id_list_spec(split_spec(u, ',')) {
                Err(e) => CliInputError::Int(e),
                Ok(_) => CliInputError::RangeFormat,
            },
            None => CliInputError::RangeFormat,
        },
    }
}

/// Whether `rules` are the monitor filter's rules for the options given.
pub open spec fn monitor_rules_are(rules: Seq<FilterRule>, range: Option<Seq<char>>, ids: Option<Seq<char>>) -> bool {
    let k: int = if range is Some { 1 } else { 0 };
    &&& rules.len() == k + (if ids is Some { 1int } else { 0 })
    &&& (range matches Some(t) ==> (parse_id_range_spec(t) matches Ok((a, b)) && rules[0] == (FilterRule::IdRange {
        start: a as u32,
        end: b as u32,
    })))
    &&& (ids matches Some(u) ==> (parse_id_list_spec(split_spec(u, ',')) matches Ok(v) && rules[k] matches FilterRule::IdList {
        ids: list,
    } && list@ == v))
}

/// The optional text of an option.
pub open spec fn opt_seq(o: Option<&str>) -> Option<Seq<char>> {
    match o {
        Some(t) => Some(t@),
        None => None,
    }
}

/// The monitor's filter: none without a range or an ID list; otherwise a
/// filter (accepting a frame that any rule accepts) with the range's rule
/// and then the list's, or the first of their errors.
pub fn monitor_filter(filter_range: Option<&str>, filter_ids: Option<&str>) -> (r: Result<
    Option<MessageFilter>,
    CliInputError,
>)
    ensures
        filter_range is None && filter_ids is None ==> r matches Ok(None),
        !(filter_range is None && filter_ids is None) ==> if monitor_filter_ok(opt_seq(filter_range), opt_seq(filter_ids)) {
            r matches Ok(Some(f)) && f.spec_mode() == FilterMode::Any && monitor_rules_are(
                f.spec_rules(),
                opt_seq(filter_range),
                opt_seq(filter_ids),
            )
        } else {
            r == Err::<Option<MessageFilter>, CliInputError>(monitor_filter_error(opt_seq(filter_range), opt_seq(filter_ids)))
        },
{
    if filter_range.is_none() && filter_ids.is_none() {
        return Ok(None);
    }
    let mut filter = MessageFilter::new();
    if let Some(range_str) = filter_range {
        let (start, end) = parse_id_range(range_str)?;
        filter = filter.add_rule(FilterRule::IdRange { start, end });
    }
    if let Some(ids_str) = filter_ids {
        let ids = parse_id_list(ids_str)?;
        let ghost v = ids@;
        filter = filter.add_rule(FilterRule::IdList { ids });
        proof {
            let k: int = if filter_range is Some { 1 } else { 0 };
            assert(filter.spec_rules()[k] matches FilterRule::IdList { ids: list } && list@ == v);
        }
    }
    Ok(Some(filter))
}

/// The monitor's count after a received frame, and whether it has shown
/// enough (a limit of zero shows frames without end).
pub fn after_received(count: usize, max_messages: usize) -> (r: (usize, bool))
    requires
        count < usize::MAX,
    ensures
        r.0 == count + 1,
        r.1 == (max_messages > 0 && count + 1 >= max_messages),
{
    let count = count + 1;
    (count, max_messages > 0 && count >= max_messages)
}

/// `t` padded with zeros on the left to `w` characters.
pub open spec fn zero_padded(t: Seq<char>, w: nat) -> Seq<char> {
    if t.len() < w {
        Seq::new((w - t.len()) as nat, |i: int| '0') + t
    } else {
        t
    }
}

/// How the monitor shows an identifier: `0x` and eight hexadecimal digits
/// for an extended frame, three for a standard one (more if needed).
pub open spec fn frame_id_text_spec(id: u32, extended: bool) -> Seq<char> {
    "0x"@ + zero_padded(crate::text::hex_digits(id as nat), if extended { 8 } else { 3 })
}

/// How the monitor shows a frame's identifier.
pub fn frame_id_text(frame: &CanFrame) -> (r: String)
    ensures
        r@ == frame_id_text_spec(frame.spec_id(), frame.spec_extended()),
{
    let id = frame.id();
    let w: usize = if frame.is_extended() { 8 } else { 3 };
    let mut h = String::new();
    crate::text::push_hex(&mut h, id as u64);
    let digits = chars_of(h.as_str());
    let k = digits.len();
    let mut out = String::new();
    crate::text::push_str(&mut out, "0x");
    let ghost start = out@;
    let zeros: usize = if k < w { w - k } else { 0 };
    let mut i: usize = 0;
    while i < zeros
        invariant
            i <= zeros,
            out@ == start + Seq::new(i as nat, |j: int| '0'),
        decreases zeros - i,
    {
        push_char(&mut out, '0');
        proof {
            assert(Seq::new((i + 1) as nat, |j: int| '0') =~= Seq::new(i as nat, |j: int| '0').push('0'));
        }
        i += 1;
    }
    crate::text::push_str(&mut out, h.as_str());
    proof {
        if k >= w {
            assert(Seq::new(i as nat, |j: int| '0') =~= Seq::<char>::empty());
        }
        assert(out@ =~= frame_id_text_spec(frame.spec_id(), frame.spec_extended()));
    }
    out
}

proof fn lemma_digit_value(d: int)
    requires
        0 <= d < 16,
    ensures
        digit_value(digit_char(d), 16) == Some(d as nat),
        !is_data_sep(digit_char(d)),
        digit_char(d) != '+',
        digit_char(d) != 'x',
        digit_char(d) != 'X',
{
}

proof fn lemma_hex2_parses(b: u8)
    ensures
        parse_unsigned_spec(strip_all_spec(strip_all_spec(hex2(b), seq!['0', 'x']), seq!['0', 'X']), 16, 0xFF)
            == Ok::<nat, IntErrorKind>(b as nat),
        !is_data_sep(hex2(b)[0]),
        !is_data_sep(hex2(b)[1]),
{
    let h = hex2(b);
    lemma_digit_value((b / 16) as int);
    lemma_digit_value((b % 16) as int);
    assert(h.take(2)[1] == h[1]);
    assert(h.take(2) != seq!['0', 'x']);
    assert(h.take(2) != seq!['0', 'X']);
    assert(strip_all_spec(h, seq!['0', 'x']) == h);
    assert(strip_all_spec(h, seq!['0', 'X']) == h);
    let s1 = h.drop_last();
    assert(s1.len() == 1);
    assert(s1.drop_last() =~= Seq::<char>::empty());
    assert(s1.last() == h[0]);
    assert(scan_digits(s1.drop_last(), 16, 0xFF) == Ok::<nat, IntErrorKind>(0));
    assert(scan_digits(s1, 16, 0xFF) == Ok::<nat, IntErrorKind>((b / 16) as nat));
}

proof fn lemma_words_of_format(d: Seq<u8>)
    ensures
        words_spec(format_data_spec(d)) == d.map_values(|b: u8| hex2(b)),
    decreases d.len(),
{
    lemma_hex2_parses(if d.len() > 0 { d.last() } else { 0 });
    if d.len() == 0 {
        assert(d.map_values(|b: u8| hex2(b)) =~= Seq::<Seq<char>>::empty());
    } else if d.len() == 1 {
        let h = hex2(d[0]);
        assert(format_data_spec(d) == h);
        assert(h.drop_last() =~= seq![h[0]]);
        assert(seq![h[0]].drop_last() =~= Seq::<char>::empty());
        assert(words_spec(Seq::<char>::empty()) =~= Seq::<Seq<char>>::empty());
        assert(seq![h[0]].last() == h[0]);
        assert(words_spec(seq![h[0]]) =~= seq![seq![h[0]]]);
        assert(seq![h[0]].push(h[1]) =~= h);
        assert(words_spec(h) =~= seq![h]);
        assert(d.map_values(|b: u8| hex2(b)) =~= seq![h]);
    } else {
        let f = format_data_spec(d.drop_last());
        let h = hex2(d.last());
        lemma_words_of_format(d.drop_last());
        let y = f.push(' ');
        let x = y.push(h[0]);
        let s = x.push(h[1]);
        assert(format_data_spec(d) =~= s);
        assert(is_data_sep(' ')) by {
            assert(is_ws(' '));
        }
        assert(y.drop_last() =~= f);
        assert(words_spec(y) == words_spec(f));
        assert(x.drop_last() =~= y);
        assert(x[x.len() - 2] == ' ');
        assert(words_spec(x) == words_spec(f).push(seq![h[0]]));
        assert(s.drop_last() =~= x);
        assert(s[s.len() - 2] == h[0]);
        assert(seq![h[0]].push(h[1]) =~= h);
        assert(words_spec(s) =~= words_spec(f).push(h));
        assert(d.map_values(|b: u8| hex2(b)) =~= d.drop_last().map_values(|b: u8| hex2(b)).push(h));
    }
}

proof fn lemma_parse_hex_words(d: Seq<u8>)
    ensures
        parse_words_spec(d.map_values(|b: u8| hex2(b))) == Ok::<Seq<u8>, IntErrorKind>(d),
    decreases d.len(),
{
    let w = d.map_values(|b: u8| hex2(b));
    if d.len() > 0 {
        lemma_parse_hex_words(d.drop_last());
        assert(w.drop_last() =~= d.drop_last().map_values(|b: u8| hex2(b)));
        lemma_hex2_parses(d.last());
        assert(d.drop_last().push(d.last()) =~= d);
    } else {
        assert(d =~= Seq::<u8>::empty());
    }
}

/// Reading back formatted data gives the bytes: `parse_data` of what
/// `format_data` writes for any bytes is those bytes.
pub proof fn lemma_parse_format_data(d: Seq<u8>)
    ensures
        parse_data_spec(format_data_spec(d)) == Ok::<Seq<u8>, IntErrorKind>(d),
{
    lemma_words_of_format(d);
    lemma_parse_hex_words(d);
}

} // verus!
