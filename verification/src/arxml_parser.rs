//! Reading AUTOSAR XML: a forward reader over the characters of the file.
//! Each element reader steps past the opening tag and reads children up to
//! the closing tag it expects; children it does not know are skipped
//! whole, and other characters one by one. A reader that reaches the end of
//! the input, or whose step would not move forward, stops there.
use vstd::prelude::*;
use crate::arxml::{
    byte_order_of_upper, category_of_upper, empty_package, empty_scale, encoding_of_upper, package_view, ArEcuModel, ArFrameModel,
    ArPackage, ArPackageModel, ArUnitModel, ArxmlByteOrder, BaseTypeCategory, BaseTypeEncoding, CanCluster, CanFrame,
    ClusterModel, CompuMethod, CompuMethodCategory, CompuMethodModel, CompuScale, CompuScaleModel, EcuInstance,
    FrameMappingModel, ISignal, ISignalIPdu, ISignalModel, ISignalToPduMapping, PduModel, PduToFrameMapping,
    SignalMappingModel, SwBaseType, SwBaseTypeModel, Unit, empty_arxml, version_of_url, ArxmlDatabase,
    ArxmlDatabaseModel, ArxmlParseError, AutosarVersion,
};
use crate::dbf::{contains_exec, contains_seq};
use crate::ldf_parser::is_float_text;
use crate::number::{parse_unsigned, parse_unsigned_spec};
use crate::scan::{lemma_scan_bounds, scan, scan_spec, CharClass};
use crate::text::{chars_eq, chars_of, has_prefix_at, owned, slice_to_vec, string_from_chars, trim, trim_spec, unicode_uppercase};

verus! {

broadcast use vstd::string::group_string_axioms;

// ---------------------------------------------------------------------------
// Reading the characters
// ---------------------------------------------------------------------------

/// Whether `lit` occurs in `s` at `p`.
pub open spec fn at(s: Seq<char>, p: int, lit: Seq<char>) -> bool {
    0 <= p && p + lit.len() <= s.len() && s.subrange(p, p + lit.len()) == lit
}

/// The position after the whitespace at `p`.
pub open spec fn ws_end(s: Seq<char>, p: int) -> int {
    scan_spec(s, p, CharClass::Whitespace)
}

/// The position of the first `c` at or after `p`, or the end.
pub open spec fn find_from(s: Seq<char>, p: int, c: char) -> int
    decreases s.len() - p,
{
    if p < 0 || p >= s.len() || s[p] == c {
        p
    } else {
        find_from(s, p + 1, c)
    }
}

/// One character forward, unless at the end.
pub open spec fn step1(s: Seq<char>, p: int) -> int {
    if 0 <= p < s.len() {
        p + 1
    } else {
        p
    }
}

/// The position after the next `>` (or the end).
pub open spec fn past_gt(s: Seq<char>, p: int) -> int {
    step1(s, find_from(s, p, '>'))
}

/// The position of the first occurrence of `lit` at or after `p`, or the
/// end.
pub open spec fn find_lit(s: Seq<char>, p: int, lit: Seq<char>) -> int
    decreases s.len() - p,
{
    if p < 0 || p >= s.len() || at(s, p, lit) {
        p
    } else {
        find_lit(s, p + 1, lit)
    }
}

/// The position after a comment that starts at `p`: after its `-->`, or
/// the end.
pub open spec fn comment_end(s: Seq<char>, p: int) -> int {
    let q = find_lit(s, p, "-->"@);
    if at(s, q, "-->"@) {
        q + 3
    } else {
        q
    }
}

/// The end of the tag name at `p`.
pub open spec fn tag_end(s: Seq<char>, p: int) -> int {
    scan_spec(s, p, CharClass::TagName)
}

/// The text from `p` up to the next `<`, trimmed, and where it ends.
pub open spec fn content(s: Seq<char>, p: int) -> (Seq<char>, int) {
    let e = find_from(s, p, '<');
    (trim_spec(s.subrange(p, e)), e)
}

/// A simple element at `p`: its text, and the position after its closing
/// tag `close` if that follows the text (else after the text).
pub open spec fn simple(s: Seq<char>, p: int, close: Seq<char>) -> (Seq<char>, int) {
    let (t, e) = content(s, past_gt(s, p));
    (t, if at(s, e, close) { past_gt(s, e) } else { e })
}

/// Inside an element being skipped, from `q` with `depth` elements of the
/// same name open: a closing tag closes one (the last ends the skip after
/// its `>`), an opening tag that does not close itself opens one.
pub open spec fn skip_nested(s: Seq<char>, q: int, close: Seq<char>, open: Seq<char>, depth: nat) -> int
    decreases s.len() - q,
{
    if q < 0 || q >= s.len() || depth == 0 {
        q
    } else if at(s, q, close) {
        if depth == 1 {
            past_gt(s, q)
        } else {
            skip_nested(s, q + 1, close, open, (depth - 1) as nat)
        }
    } else if at(s, q, open) {
        let r = find_from(s, q, '>');
        let closes_itself = r > 0 && r - 1 < s.len() && s[r - 1] == '/';
        skip_nested(s, q + 1, close, open, if closes_itself { depth } else { depth + 1 })
    } else {
        skip_nested(s, q + 1, close, open, depth)
    }
}

/// The position after the element at `p`: its name is read; a tag that
/// closes itself ends after its `>`, any other after the matching closing
/// tag; without a name, right after the `<`.
pub open spec fn skip_element(s: Seq<char>, p: int) -> int {
    let a = if 0 <= p < s.len() && s[p] == '<' { p + 1 } else { p };
    let b = tag_end(s, a);
    if b == a {
        b
    } else {
        let name = s.subrange(a, b);
        let c = find_from(s, b, '>');
        if c > 0 && c - 1 < s.len() && s[c - 1] == '/' {
            step1(s, c)
        } else {
            skip_nested(s, step1(s, c), "</"@ + name, "<"@ + name, 1)
        }
    }
}

/// The children of an element from `q` up to its closing tag (`end_a` or
/// `end_b`): whitespace is skipped, comments too where `comments`, `step`
/// reads a child it knows, other elements are skipped whole and other
/// characters one by one.
pub open spec fn elem_loop<M>(
    s: Seq<char>,
    q: int,
    end_a: Seq<char>,
    end_b: Seq<char>,
    comments: bool,
    m: M,
    step: spec_fn(int, M) -> Option<(M, int)>,
) -> (M, int)
    decreases s.len() - q,
{
    let q1 = ws_end(s, q);
    if q < 0 || q1 >= s.len() {
        (m, q1)
    } else if at(s, q1, end_a) || at(s, q1, end_b) {
        (m, past_gt(s, q1))
    } else {
        let (m2, q2) = if comments && at(s, q1, "<!--"@) {
            (m, comment_end(s, q1))
        } else {
            match step(q1, m) {
                Some(x) => x,
                None => (m, if s[q1] == '<' { skip_element(s, q1) } else { q1 + 1 }),
            }
        };
        if q2 <= q || q2 > s.len() {
            (m2, q2)
        } else {
            elem_loop(s, q2, end_a, end_b, comments, m2, step)
        }
    }
}

/// A `u32` read from text, or `d`.
pub open spec fn u32_or(t: Seq<char>, d: u32) -> u32 {
    match parse_unsigned_spec(t, 10, u32::MAX as nat) {
        Ok(v) => v as u32,
        Err(_) => d,
    }
}

/// A `u8` read from text, or `d`.
pub open spec fn u8_or(t: Seq<char>, d: u8) -> u8 {
    match parse_unsigned_spec(t, 10, u8::MAX as nat) {
        Ok(v) => v as u8,
        Err(_) => d,
    }
}

/// A `u32` read from text, if it reads.
pub open spec fn u32_opt(t: Seq<char>) -> Option<u32> {
    match parse_unsigned_spec(t, 10, u32::MAX as nat) {
        Ok(v) => Some(v as u32),
        Err(_) => None,
    }
}

/// The text if it reads as a floating-point number.
pub open spec fn float_opt(t: Seq<char>) -> Option<Seq<char>> {
    if is_float_text(t) {
        Some(t)
    } else {
        None
    }
}

/// The text if it reads as a floating-point number, else `d`.
pub open spec fn float_or(t: Seq<char>, d: Seq<char>) -> Seq<char> {
    if is_float_text(t) {
        t
    } else {
        d
    }
}

// ---------------------------------------------------------------------------
// Executable reading
// ---------------------------------------------------------------------------

pub(crate) fn at_exec(s: &[char], p: usize, lit: &str) -> (r: bool)
    requires
        p <= s.len(),
    ensures
        r == at(s@, p as int, lit@),
{
    let l = chars_of(lit);
    has_prefix_at(s, p, l.as_slice())
}

fn ws_end_exec(s: &[char], p: usize) -> (r: usize)
    requires
        p <= s.len(),
    ensures
        r as int == ws_end(s@, p as int),
        p <= r <= s.len(),
{
    scan(s, p, CharClass::Whitespace)
}

pub(crate) fn find_from_exec(s: &[char], p: usize, c: char) -> (r: usize)
    requires
        p <= s.len(),
    ensures
        r as int == find_from(s@, p as int, c),
        p <= r <= s.len(),
{
    let mut i = p;
    while i < s.len() && s[i] != c
        invariant
            p <= i <= s.len(),
            find_from(s@, p as int, c) == find_from(s@, i as int, c),
        decreases s.len() - i,
    {
        i += 1;
    }
    i
}

pub(crate) fn past_gt_exec(s: &[char], p: usize) -> (r: usize)
    requires
        p <= s.len(),
    ensures
        r as int == past_gt(s@, p as int),
        p <= r <= s.len(),
        p < s.len() ==> p < r,
{
    let i = find_from_exec(s, p, '>');
    if i < s.len() {
        i + 1
    } else {
        i
    }
}

pub(crate) fn comment_end_exec(s: &[char], p: usize) -> (r: usize)
    requires
        p <= s.len(),
    ensures
        r as int == comment_end(s@, p as int),
        p <= r <= s.len(),
{
    let mut i = p;
    while i < s.len() && !at_exec(s, i, "-->")
        invariant
            p <= i <= s.len(),
            find_lit(s@, p as int, "-->"@) == find_lit(s@, i as int, "-->"@),
        decreases s.len() - i,
    {
        i += 1;
    }
    if at_exec(s, i, "-->") {
        proof {
            reveal_strlit("-->");
        }
        i + 3
    } else {
        i
    }
}

fn content_exec(s: &[char], p: usize) -> (r: (Vec<char>, usize))
    requires
        p <= s.len(),
    ensures
        (r.0@, r.1 as int) == content(s@, p as int),
        p <= r.1 <= s.len(),
{
    let e = find_from_exec(s, p, '<');
    let t = trim(slice_to_vec(s, p, e).as_slice());
    (t, e)
}

fn simple_exec(s: &[char], p: usize, close: &str) -> (r: (Vec<char>, usize))
    requires
        p <= s.len(),
    ensures
        (r.0@, r.1 as int) == simple(s@, p as int, close@),
        p <= r.1 <= s.len(),
        p < s.len() ==> p < r.1,
{
    let a = past_gt_exec(s, p);
    let (t, e) = content_exec(s, a);
    if at_exec(s, e, close) {
        (t, past_gt_exec(s, e))
    } else {
        (t, e)
    }
}

fn skip_element_exec(s: &[char], p: usize) -> (r: usize)
    requires
        p < s.len(),
        s@[p as int] == '<',
    ensures
        r as int == skip_element(s@, p as int),
        p < r <= s.len(),
{
    let a = p + 1;
    let b = scan(s, a, CharClass::TagName);
    if b == a {
        return b;
    }
    let name = slice_to_vec(s, a, b);
    let c = find_from_exec(s, b, '>');
    if c > 0 && c - 1 < s.len() && s[c - 1] == '/' {
        return if c < s.len() { c + 1 } else { c };
    }
    let mut close = vec!['<', '/'];
    let mut open = vec!['<'];
    let mut k: usize = 0;
    while k < name.len()
        invariant
            k <= name.len(),
            close@ == seq!['<', '/'] + name@.take(k as int),
            open@ == seq!['<'] + name@.take(k as int),
        decreases name.len() - k,
    {
        close.push(name[k]);
        open.push(name[k]);
        assert(name@.take(k + 1) =~= name@.take(k as int).push(name@[k as int]));
        assert(close@ =~= seq!['<', '/'] + name@.take(k + 1));
        assert(open@ =~= seq!['<'] + name@.take(k + 1));
        k += 1;
    }
    proof {
        reveal_strlit("</");
        reveal_strlit("<");
        assert(name@.take(k as int) =~= name@);
        assert(close@ =~= "</"@ + name@);
        assert(open@ =~= "<"@ + name@);
    }
    let mut q: usize = if c < s.len() { c + 1 } else { c };
    let mut depth: usize = 1;
    let ghost start_q = q;
    assert(skip_element(s@, p as int) == skip_nested(s@, start_q as int, close@, open@, 1));
    while q < s.len() && depth > 0
        invariant
            q <= s.len(),
            depth <= q,
            p < q,
            skip_element(s@, p as int) == skip_nested(s@, start_q as int, close@, open@, 1),
            skip_nested(s@, q as int, close@, open@, depth as nat) == skip_nested(s@, start_q as int, close@, open@, 1),
        decreases s.len() - q,
    {
        if has_prefix_at(s, q, close.as_slice()) {
            if depth == 1 {
                return past_gt_exec(s, q);
            }
            depth -= 1;
        } else if has_prefix_at(s, q, open.as_slice()) {
            let r = find_from_exec(s, q, '>');
            let closes_itself = r > 0 && r - 1 < s.len() && s[r - 1] == '/';
            if !closes_itself {
                depth += 1;
            }
        }
        q += 1;
    }
    q
}

fn u32_or_exec(t: &[char], d: u32) -> (r: u32)
    ensures
        r == u32_or(t@, d),
{
    assert(t@.subrange(0, t@.len() as int) =~= t@);
    match parse_unsigned(t, 0, t.len(), 10, u32::MAX as u64) {
        Ok(v) => v as u32,
        Err(_) => d,
    }
}

fn u8_or_exec(t: &[char], d: u8) -> (r: u8)
    ensures
        r == u8_or(t@, d),
{
    assert(t@.subrange(0, t@.len() as int) =~= t@);
    match parse_unsigned(t, 0, t.len(), 10, u8::MAX as u64) {
        Ok(v) => v as u8,
        Err(_) => d,
    }
}

pub(crate) fn u32_opt_exec(t: &[char]) -> (r: Option<u32>)
    ensures
        r == u32_opt(t@),
{
    assert(t@.subrange(0, t@.len() as int) =~= t@);
    match parse_unsigned(t, 0, t.len(), 10, u32::MAX as u64) {
        Ok(v) => Some(v as u32),
        Err(_) => None,
    }
}

fn float_opt_exec(t: &[char]) -> (r: Option<String>)
    ensures
        crate::a2l::opt_text(r) == float_opt(t@),
{
    if crate::ldf_parser::is_float_text_exec(t) {
        Some(string_from_chars(t))
    } else {
        None
    }
}

fn float_or_exec(t: &[char], d: &str) -> (r: String)
    ensures
        r@ == float_or(t@, d@),
{
    if crate::ldf_parser::is_float_text_exec(t) {
        string_from_chars(t)
    } else {
        d.to_string()
    }
}

// ---------------------------------------------------------------------------
// The elements
// ---------------------------------------------------------------------------

/// A child of a `i_signal` loop at `q` that it knows (SHORT-NAME, I-SIGNAL-LENGTH, INIT-VALUE, SYSTEM-SIGNAL-REF): the model after it and
/// the position after it.
pub open spec fn i_signal_step(s: Seq<char>, q: int, m: ISignalModel) -> Option<(ISignalModel, int)> {
    if at(s, q, "<SHORT-NAME"@) {
        let (t, e) = simple(s, q, "</SHORT-NAME"@);
        Some((ISignalModel { short_name: t, ..m }, e))
    } else if at(s, q, "<I-SIGNAL-LENGTH"@) || at(s, q, "<LENGTH"@) {
        let (t, e0) = content(s, past_gt(s, q));
        let e = if at(s, e0, "</I-SIGNAL-LENGTH"@) || at(s, e0, "</LENGTH"@) { past_gt(s, e0) } else { e0 };
        Some((ISignalModel { i_signal_length: u32_or(t, 0), ..m }, e))
    } else if at(s, q, "<INIT-VALUE"@) {
        let (t, e) = simple(s, q, "</INIT-VALUE"@);
        Some((ISignalModel { init_value: float_opt(t), ..m }, e))
    } else if at(s, q, "<SYSTEM-SIGNAL-REF"@) {
        let (t, e) = simple(s, q, "</SYSTEM-SIGNAL-REF"@);
        Some((ISignalModel { system_signal_ref: t, ..m }, e))
    } else {
        None
    }
}

/// The child reader of `i_signal` loops.
pub open spec fn i_signal_stepper(s: Seq<char>) -> spec_fn(int, ISignalModel) -> Option<(ISignalModel, int)> {
    |q: int, m: ISignalModel| i_signal_step(s, q, m)
}

/// The children from `q` up to `</I-SIGNAL`.
pub open spec fn i_signal_loop(s: Seq<char>, q: int, m: ISignalModel) -> (ISignalModel, int) {
    elem_loop(s, q, "</I-SIGNAL"@, "</I-SIGNAL"@, false, m, i_signal_stepper(s))
}

/// The element at `p`: after its opening tag, its children from a fresh
/// model.
pub open spec fn i_signal_elem(s: Seq<char>, p: int) -> (ISignalModel, int) {
    i_signal_loop(s, past_gt(s, p), ISignalModel { short_name: ""@, i_signal_length: 0, init_value: None, system_signal_ref: Seq::empty(), compu_method_ref: Seq::empty(), base_type_ref: Seq::empty() })
}

/// A child of a `signal_mapping` loop at `q` that it knows (SHORT-NAME, I-SIGNAL-REF, PACKING-BYTE-ORDER, START-POSITION): the model after it and
/// the position after it.
pub open spec fn signal_mapping_step(s: Seq<char>, q: int, m: SignalMappingModel) -> Option<(SignalMappingModel, int)> {
    if at(s, q, "<SHORT-NAME"@) {
        let (t, e) = simple(s, q, "</SHORT-NAME"@);
        Some((SignalMappingModel { short_name: t, ..m }, e))
    } else if at(s, q, "<I-SIGNAL-REF"@) {
        let (t, e) = simple(s, q, "</I-SIGNAL-REF"@);
        Some((SignalMappingModel { i_signal_ref: t, ..m }, e))
    } else if at(s, q, "<PACKING-BYTE-ORDER"@) {
        let (t, e) = simple(s, q, "</PACKING-BYTE-ORDER"@);
        Some((SignalMappingModel { packing_byte_order: byte_order_of_upper(unicode_uppercase(trim_spec(t))), ..m }, e))
    } else if at(s, q, "<START-POSITION"@) {
        let (t, e) = simple(s, q, "</START-POSITION"@);
        Some((SignalMappingModel { start_position: u32_or(t, 0), ..m }, e))
    } else {
        None
    }
}

/// The child reader of `signal_mapping` loops.
pub open spec fn signal_mapping_stepper(s: Seq<char>) -> spec_fn(int, SignalMappingModel) -> Option<(SignalMappingModel, int)> {
    |q: int, m: SignalMappingModel| signal_mapping_step(s, q, m)
}

/// The children from `q` up to `</I-SIGNAL-TO-PDU-MAPPING` or `</I-SIGNAL-TO-I-PDU-MAPPING`.
pub open spec fn signal_mapping_loop(s: Seq<char>, q: int, m: SignalMappingModel) -> (SignalMappingModel, int) {
    elem_loop(s, q, "</I-SIGNAL-TO-PDU-MAPPING"@, "</I-SIGNAL-TO-I-PDU-MAPPING"@, false, m, signal_mapping_stepper(s))
}

/// The element at `p`: after its opening tag, its children from a fresh
/// model.
pub open spec fn signal_mapping_elem(s: Seq<char>, p: int) -> (SignalMappingModel, int) {
    signal_mapping_loop(s, past_gt(s, p), SignalMappingModel { short_name: ""@, i_signal_ref: Seq::empty(), packing_byte_order: ArxmlByteOrder::MostSignificantByteFirst, start_position: 0 })
}

/// A child of a `signal_mappings` loop at `q` that it knows (I-SIGNAL-TO-PDU-MAPPING): the model after it and
/// the position after it.
pub open spec fn signal_mappings_step(s: Seq<char>, q: int, m: PduModel) -> Option<(PduModel, int)> {
    if at(s, q, "<I-SIGNAL-TO-PDU-MAPPING"@) || at(s, q, "<I-SIGNAL-TO-I-PDU-MAPPING"@) {
        let (c, e) = signal_mapping_elem(s, q);
        Some((PduModel { mappings: m.mappings.push(c), ..m }, e))
    } else {
        None
    }
}

/// The child reader of `signal_mappings` loops.
pub open spec fn signal_mappings_stepper(s: Seq<char>) -> spec_fn(int, PduModel) -> Option<(PduModel, int)> {
    |q: int, m: PduModel| signal_mappings_step(s, q, m)
}

/// The children from `q` up to `</I-SIGNAL-TO-PDU-MAPPINGS`.
pub open spec fn signal_mappings_loop(s: Seq<char>, q: int, m: PduModel) -> (PduModel, int) {
    elem_loop(s, q, "</I-SIGNAL-TO-PDU-MAPPINGS"@, "</I-SIGNAL-TO-PDU-MAPPINGS"@, false, m, signal_mappings_stepper(s))
}

/// A child of a `pdu` loop at `q` that it knows (SHORT-NAME, LENGTH, I-SIGNAL-TO-PDU-MAPPINGS): the model after it and
/// the position after it.
pub open spec fn pdu_step(s: Seq<char>, q: int, m: PduModel) -> Option<(PduModel, int)> {
    if at(s, q, "<SHORT-NAME"@) {
        let (t, e) = simple(s, q, "</SHORT-NAME"@);
        Some((PduModel { short_name: t, ..m }, e))
    } else if at(s, q, "<LENGTH"@) {
        let (t, e) = simple(s, q, "</LENGTH"@);
        Some((PduModel { length: u32_or(t, 0), ..m }, e))
    } else if at(s, q, "<I-SIGNAL-TO-PDU-MAPPINGS"@) {
        Some(signal_mappings_loop(s, past_gt(s, q), m))
    } else {
        None
    }
}

/// The child reader of `pdu` loops.
pub open spec fn pdu_stepper(s: Seq<char>) -> spec_fn(int, PduModel) -> Option<(PduModel, int)> {
    |q: int, m: PduModel| pdu_step(s, q, m)
}

/// The children from `q` up to `</I-SIGNAL-I-PDU`.
pub open spec fn pdu_loop(s: Seq<char>, q: int, m: PduModel) -> (PduModel, int) {
    elem_loop(s, q, "</I-SIGNAL-I-PDU"@, "</I-SIGNAL-I-PDU"@, false, m, pdu_stepper(s))
}

/// The element at `p`: after its opening tag, its children from a fresh
/// model.
pub open spec fn pdu_elem(s: Seq<char>, p: int) -> (PduModel, int) {
    pdu_loop(s, past_gt(s, p), PduModel { short_name: ""@, length: 0, mappings: Seq::empty() })
}

/// A child of a `frame_mapping` loop at `q` that it knows (SHORT-NAME, PDU-REF, PACKING-BYTE-ORDER, START-POSITION): the model after it and
/// the position after it.
pub open spec fn frame_mapping_step(s: Seq<char>, q: int, m: FrameMappingModel) -> Option<(FrameMappingModel, int)> {
    if at(s, q, "<SHORT-NAME"@) {
        let (t, e) = simple(s, q, "</SHORT-NAME"@);
        Some((FrameMappingModel { short_name: t, ..m }, e))
    } else if at(s, q, "<PDU-REF"@) {
        let (t, e) = simple(s, q, "</PDU-REF"@);
        Some((FrameMappingModel { pdu_ref: t, ..m }, e))
    } else if at(s, q, "<PACKING-BYTE-ORDER"@) {
        let (t, e) = simple(s, q, "</PACKING-BYTE-ORDER"@);
        Some((FrameMappingModel { packing_byte_order: byte_order_of_upper(unicode_uppercase(trim_spec(t))), ..m }, e))
    } else if at(s, q, "<START-POSITION"@) {
        let (t, e) = simple(s, q, "</START-POSITION"@);
        Some((FrameMappingModel { start_position: u32_or(t, 0), ..m }, e))
    } else {
        None
    }
}

/// The child reader of `frame_mapping` loops.
pub open spec fn frame_mapping_stepper(s: Seq<char>) -> spec_fn(int, FrameMappingModel) -> Option<(FrameMappingModel, int)> {
    |q: int, m: FrameMappingModel| frame_mapping_step(s, q, m)
}

/// The children from `q` up to `</PDU-TO-FRAME-MAPPING`.
pub open spec fn frame_mapping_loop(s: Seq<char>, q: int, m: FrameMappingModel) -> (FrameMappingModel, int) {
    elem_loop(s, q, "</PDU-TO-FRAME-MAPPING"@, "</PDU-TO-FRAME-MAPPING"@, false, m, frame_mapping_stepper(s))
}

/// The element at `p`: after its opening tag, its children from a fresh
/// model.
pub open spec fn frame_mapping_elem(s: Seq<char>, p: int) -> (FrameMappingModel, int) {
    frame_mapping_loop(s, past_gt(s, p), FrameMappingModel { short_name: ""@, packing_byte_order: ArxmlByteOrder::MostSignificantByteFirst, pdu_ref: Seq::empty(), start_position: 0 })
}

/// A child of a `frame_mappings` loop at `q` that it knows (PDU-TO-FRAME-MAPPING): the model after it and
/// the position after it.
pub open spec fn frame_mappings_step(s: Seq<char>, q: int, m: ArFrameModel) -> Option<(ArFrameModel, int)> {
    if at(s, q, "<PDU-TO-FRAME-MAPPING"@) {
        let (c, e) = frame_mapping_elem(s, q);
        Some((ArFrameModel { mappings: m.mappings.push(c), ..m }, e))
    } else {
        None
    }
}

/// The child reader of `frame_mappings` loops.
pub open spec fn frame_mappings_stepper(s: Seq<char>) -> spec_fn(int, ArFrameModel) -> Option<(ArFrameModel, int)> {
    |q: int, m: ArFrameModel| frame_mappings_step(s, q, m)
}

/// The children from `q` up to `</PDU-TO-FRAME-MAPPINGS`.
pub open spec fn frame_mappings_loop(s: Seq<char>, q: int, m: ArFrameModel) -> (ArFrameModel, int) {
    elem_loop(s, q, "</PDU-TO-FRAME-MAPPINGS"@, "</PDU-TO-FRAME-MAPPINGS"@, false, m, frame_mappings_stepper(s))
}

/// A child of a `can_frame` loop at `q` that it knows (SHORT-NAME, FRAME-LENGTH, PDU-TO-FRAME-MAPPINGS): the model after it and
/// the position after it.
pub open spec fn can_frame_step(s: Seq<char>, q: int, m: ArFrameModel) -> Option<(ArFrameModel, int)> {
    if at(s, q, "<SHORT-NAME"@) {
        let (t, e) = simple(s, q, "</SHORT-NAME"@);
        Some((ArFrameModel { short_name: t, ..m }, e))
    } else if at(s, q, "<FRAME-LENGTH"@) {
        let (t, e) = simple(s, q, "</FRAME-LENGTH"@);
        Some((ArFrameModel { frame_length: u8_or(t, 8), ..m }, e))
    } else if at(s, q, "<PDU-TO-FRAME-MAPPINGS"@) {
        Some(frame_mappings_loop(s, past_gt(s, q), m))
    } else {
        None
    }
}

/// The child reader of `can_frame` loops.
pub open spec fn can_frame_stepper(s: Seq<char>) -> spec_fn(int, ArFrameModel) -> Option<(ArFrameModel, int)> {
    |q: int, m: ArFrameModel| can_frame_step(s, q, m)
}

/// The children from `q` up to `</CAN-FRAME`.
pub open spec fn can_frame_loop(s: Seq<char>, q: int, m: ArFrameModel) -> (ArFrameModel, int) {
    elem_loop(s, q, "</CAN-FRAME"@, "</CAN-FRAME"@, false, m, can_frame_stepper(s))
}

/// The element at `p`: after its opening tag, its children from a fresh
/// model.
pub open spec fn can_frame_elem(s: Seq<char>, p: int) -> (ArFrameModel, int) {
    can_frame_loop(s, past_gt(s, p), ArFrameModel { short_name: ""@, frame_length: 8, mappings: Seq::empty() })
}

/// A child of a `can_cluster` loop at `q` that it knows (SHORT-NAME, BAUDRATE, CAN-FD-BAUDRATE): the model after it and
/// the position after it.
pub open spec fn can_cluster_step(s: Seq<char>, q: int, m: ClusterModel) -> Option<(ClusterModel, int)> {
    if at(s, q, "<SHORT-NAME"@) {
        let (t, e) = simple(s, q, "</SHORT-NAME"@);
        Some((ClusterModel { short_name: t, ..m }, e))
    } else if at(s, q, "<BAUDRATE"@) {
        let (t, e) = simple(s, q, "</BAUDRATE"@);
        Some((ClusterModel { baudrate: u32_or(t, 500_000), ..m }, e))
    } else if at(s, q, "<CAN-FD-BAUDRATE"@) {
        let (t, e) = simple(s, q, "</CAN-FD-BAUDRATE"@);
        Some((ClusterModel { can_fd_baudrate: u32_opt(t), ..m }, e))
    } else {
        None
    }
}

/// The child reader of `can_cluster` loops.
pub open spec fn can_cluster_stepper(s: Seq<char>) -> spec_fn(int, ClusterModel) -> Option<(ClusterModel, int)> {
    |q: int, m: ClusterModel| can_cluster_step(s, q, m)
}

/// The children from `q` up to `</CAN-CLUSTER`.
pub open spec fn can_cluster_loop(s: Seq<char>, q: int, m: ClusterModel) -> (ClusterModel, int) {
    elem_loop(s, q, "</CAN-CLUSTER"@, "</CAN-CLUSTER"@, false, m, can_cluster_stepper(s))
}

/// The element at `p`: after its opening tag, its children from a fresh
/// model.
pub open spec fn can_cluster_elem(s: Seq<char>, p: int) -> (ClusterModel, int) {
    can_cluster_loop(s, past_gt(s, p), ClusterModel { short_name: ""@, baudrate: 500_000, can_fd_baudrate: None, physical_channels: Seq::empty() })
}

/// A child of a `numerator_coeffs` loop at `q` that it knows (V): the model after it and
/// the position after it.
pub open spec fn numerator_coeffs_step(s: Seq<char>, q: int, m: CompuScaleModel) -> Option<(CompuScaleModel, int)> {
    if at(s, q, "<V"@) {
        let (t, e) = simple(s, q, "</V"@);
        Some((if is_float_text(t) { CompuScaleModel { numerator: m.numerator.push(t), ..m } } else { m }, e))
    } else {
        None
    }
}

/// The child reader of `numerator_coeffs` loops.
pub open spec fn numerator_coeffs_stepper(s: Seq<char>) -> spec_fn(int, CompuScaleModel) -> Option<(CompuScaleModel, int)> {
    |q: int, m: CompuScaleModel| numerator_coeffs_step(s, q, m)
}

/// The children from `q` up to `</COMPU-NUMERATOR` or `</COMPU-DENOMINATOR`.
pub open spec fn numerator_coeffs_loop(s: Seq<char>, q: int, m: CompuScaleModel) -> (CompuScaleModel, int) {
    elem_loop(s, q, "</COMPU-NUMERATOR"@, "</COMPU-DENOMINATOR"@, false, m, numerator_coeffs_stepper(s))
}

/// A child of a `denominator_coeffs` loop at `q` that it knows (V): the model after it and
/// the position after it.
pub open spec fn denominator_coeffs_step(s: Seq<char>, q: int, m: CompuScaleModel) -> Option<(CompuScaleModel, int)> {
    if at(s, q, "<V"@) {
        let (t, e) = simple(s, q, "</V"@);
        Some((if is_float_text(t) { CompuScaleModel { denominator: m.denominator.push(t), ..m } } else { m }, e))
    } else {
        None
    }
}

/// The child reader of `denominator_coeffs` loops.
pub open spec fn denominator_coeffs_stepper(s: Seq<char>) -> spec_fn(int, CompuScaleModel) -> Option<(CompuScaleModel, int)> {
    |q: int, m: CompuScaleModel| denominator_coeffs_step(s, q, m)
}

/// The children from `q` up to `</COMPU-NUMERATOR` or `</COMPU-DENOMINATOR`.
pub open spec fn denominator_coeffs_loop(s: Seq<char>, q: int, m: CompuScaleModel) -> (CompuScaleModel, int) {
    elem_loop(s, q, "</COMPU-NUMERATOR"@, "</COMPU-DENOMINATOR"@, false, m, denominator_coeffs_stepper(s))
}

/// A child of a `rational_coeffs` loop at `q` that it knows (COMPU-NUMERATOR, COMPU-DENOMINATOR): the model after it and
/// the position after it.
pub open spec fn rational_coeffs_step(s: Seq<char>, q: int, m: CompuScaleModel) -> Option<(CompuScaleModel, int)> {
    if at(s, q, "<COMPU-NUMERATOR"@) {
        Some(numerator_coeffs_loop(s, past_gt(s, q), m))
    } else if at(s, q, "<COMPU-DENOMINATOR"@) {
        Some(denominator_coeffs_loop(s, past_gt(s, q), m))
    } else {
        None
    }
}

/// The child reader of `rational_coeffs` loops.
pub open spec fn rational_coeffs_stepper(s: Seq<char>) -> spec_fn(int, CompuScaleModel) -> Option<(CompuScaleModel, int)> {
    |q: int, m: CompuScaleModel| rational_coeffs_step(s, q, m)
}

/// The children from `q` up to `</COMPU-RATIONAL-COEFFS`.
pub open spec fn rational_coeffs_loop(s: Seq<char>, q: int, m: CompuScaleModel) -> (CompuScaleModel, int) {
    elem_loop(s, q, "</COMPU-RATIONAL-COEFFS"@, "</COMPU-RATIONAL-COEFFS"@, false, m, rational_coeffs_stepper(s))
}

/// A child of a `compu_scale` loop at `q` that it knows (LOWER-LIMIT, UPPER-LIMIT, COMPU-RATIONAL-COEFFS, VT): the model after it and
/// the position after it.
pub open spec fn compu_scale_step(s: Seq<char>, q: int, m: CompuScaleModel) -> Option<(CompuScaleModel, int)> {
    if at(s, q, "<LOWER-LIMIT"@) {
        let (t, e) = simple(s, q, "</LOWER-LIMIT"@);
        Some((CompuScaleModel { lower_limit: float_or(t, "0.0"@), ..m }, e))
    } else if at(s, q, "<UPPER-LIMIT"@) {
        let (t, e) = simple(s, q, "</UPPER-LIMIT"@);
        Some((CompuScaleModel { upper_limit: float_or(t, "0.0"@), ..m }, e))
    } else if at(s, q, "<COMPU-RATIONAL-COEFFS"@) {
        Some(rational_coeffs_loop(s, past_gt(s, q), m))
    } else if at(s, q, "<VT"@) {
        let (t, e) = simple(s, q, "</VT"@);
        Some((CompuScaleModel { vt: t, ..m }, e))
    } else {
        None
    }
}

/// The child reader of `compu_scale` loops.
pub open spec fn compu_scale_stepper(s: Seq<char>) -> spec_fn(int, CompuScaleModel) -> Option<(CompuScaleModel, int)> {
    |q: int, m: CompuScaleModel| compu_scale_step(s, q, m)
}

/// The children from `q` up to `</COMPU-SCALE`.
pub open spec fn compu_scale_loop(s: Seq<char>, q: int, m: CompuScaleModel) -> (CompuScaleModel, int) {
    elem_loop(s, q, "</COMPU-SCALE"@, "</COMPU-SCALE"@, false, m, compu_scale_stepper(s))
}

/// The element at `p`: after its opening tag, its children from a fresh
/// model.
pub open spec fn compu_scale_elem(s: Seq<char>, p: int) -> (CompuScaleModel, int) {
    compu_scale_loop(s, past_gt(s, p), empty_scale())
}

/// A child of a `compu_scales` loop at `q` that it knows (COMPU-SCALE): the model after it and
/// the position after it.
pub open spec fn compu_scales_step(s: Seq<char>, q: int, m: CompuMethodModel) -> Option<(CompuMethodModel, int)> {
    if at(s, q, "<COMPU-SCALE"@) {
        let (c, e) = compu_scale_elem(s, q);
        Some((CompuMethodModel { compu_scales: m.compu_scales.push(c), ..m }, e))
    } else {
        None
    }
}

/// The child reader of `compu_scales` loops.
pub open spec fn compu_scales_stepper(s: Seq<char>) -> spec_fn(int, CompuMethodModel) -> Option<(CompuMethodModel, int)> {
    |q: int, m: CompuMethodModel| compu_scales_step(s, q, m)
}

/// The children from `q` up to `</COMPU-SCALES`.
pub open spec fn compu_scales_loop(s: Seq<char>, q: int, m: CompuMethodModel) -> (CompuMethodModel, int) {
    elem_loop(s, q, "</COMPU-SCALES"@, "</COMPU-SCALES"@, false, m, compu_scales_stepper(s))
}

/// A child of a `internal_to_phys` loop at `q` that it knows (COMPU-SCALES): the model after it and
/// the position after it.
pub open spec fn internal_to_phys_step(s: Seq<char>, q: int, m: CompuMethodModel) -> Option<(CompuMethodModel, int)> {
    if at(s, q, "<COMPU-SCALES"@) {
        Some(compu_scales_loop(s, past_gt(s, q), m))
    } else {
        None
    }
}

/// The child reader of `internal_to_phys` loops.
pub open spec fn internal_to_phys_stepper(s: Seq<char>) -> spec_fn(int, CompuMethodModel) -> Option<(CompuMethodModel, int)> {
    |q: int, m: CompuMethodModel| internal_to_phys_step(s, q, m)
}

/// The children from `q` up to `</COMPU-INTERNAL-TO-PHYS`.
pub open spec fn internal_to_phys_loop(s: Seq<char>, q: int, m: CompuMethodModel) -> (CompuMethodModel, int) {
    elem_loop(s, q, "</COMPU-INTERNAL-TO-PHYS"@, "</COMPU-INTERNAL-TO-PHYS"@, false, m, internal_to_phys_stepper(s))
}

/// A child of a `compu_method` loop at `q` that it knows (SHORT-NAME, CATEGORY, UNIT-REF, COMPU-INTERNAL-TO-PHYS): the model after it and
/// the position after it.
pub open spec fn compu_method_step(s: Seq<char>, q: int, m: CompuMethodModel) -> Option<(CompuMethodModel, int)> {
    if at(s, q, "<SHORT-NAME"@) {
        let (t, e) = simple(s, q, "</SHORT-NAME"@);
        Some((CompuMethodModel { short_name: t, ..m }, e))
    } else if at(s, q, "<CATEGORY"@) {
        let (t, e) = simple(s, q, "</CATEGORY"@);
        Some((CompuMethodModel { category: category_of_upper(unicode_uppercase(trim_spec(t))), ..m }, e))
    } else if at(s, q, "<UNIT-REF"@) {
        let (t, e) = simple(s, q, "</UNIT-REF"@);
        Some((CompuMethodModel { unit_ref: t, ..m }, e))
    } else if at(s, q, "<COMPU-INTERNAL-TO-PHYS"@) {
        Some(internal_to_phys_loop(s, past_gt(s, q), m))
    } else {
        None
    }
}

/// The child reader of `compu_method` loops.
pub open spec fn compu_method_stepper(s: Seq<char>) -> spec_fn(int, CompuMethodModel) -> Option<(CompuMethodModel, int)> {
    |q: int, m: CompuMethodModel| compu_method_step(s, q, m)
}

/// The children from `q` up to `</COMPU-METHOD`.
pub open spec fn compu_method_loop(s: Seq<char>, q: int, m: CompuMethodModel) -> (CompuMethodModel, int) {
    elem_loop(s, q, "</COMPU-METHOD"@, "</COMPU-METHOD"@, false, m, compu_method_stepper(s))
}

/// The element at `p`: after its opening tag, its children from a fresh
/// model.
pub open spec fn compu_method_elem(s: Seq<char>, p: int) -> (CompuMethodModel, int) {
    compu_method_loop(s, past_gt(s, p), CompuMethodModel { short_name: ""@, category: CompuMethodCategory::Identical, unit_ref: Seq::empty(), compu_scales: Seq::empty() })
}

/// A child of a `unit` loop at `q` that it knows (SHORT-NAME, DISPLAY-NAME, FACTOR-SI-TO-UNIT, OFFSET-SI-TO-UNIT): the model after it and
/// the position after it.
pub open spec fn unit_step(s: Seq<char>, q: int, m: ArUnitModel) -> Option<(ArUnitModel, int)> {
    if at(s, q, "<SHORT-NAME"@) {
        let (t, e) = simple(s, q, "</SHORT-NAME"@);
        Some((ArUnitModel { short_name: t, ..m }, e))
    } else if at(s, q, "<DISPLAY-NAME"@) {
        let (t, e) = simple(s, q, "</DISPLAY-NAME"@);
        Some((ArUnitModel { display_name: t, ..m }, e))
    } else if at(s, q, "<FACTOR-SI-TO-UNIT"@) {
        let (t, e) = simple(s, q, "</FACTOR-SI-TO-UNIT"@);
        Some((ArUnitModel { factor_si_to_unit: float_or(t, "1.0"@), ..m }, e))
    } else if at(s, q, "<OFFSET-SI-TO-UNIT"@) {
        let (t, e) = simple(s, q, "</OFFSET-SI-TO-UNIT"@);
        Some((ArUnitModel { offset_si_to_unit: float_or(t, "0.0"@), ..m }, e))
    } else {
        None
    }
}

/// The child reader of `unit` loops.
pub open spec fn unit_stepper(s: Seq<char>) -> spec_fn(int, ArUnitModel) -> Option<(ArUnitModel, int)> {
    |q: int, m: ArUnitModel| unit_step(s, q, m)
}

/// The children from `q` up to `</UNIT`.
pub open spec fn unit_loop(s: Seq<char>, q: int, m: ArUnitModel) -> (ArUnitModel, int) {
    elem_loop(s, q, "</UNIT"@, "</UNIT"@, false, m, unit_stepper(s))
}

/// The element at `p`: after its opening tag, its children from a fresh
/// model.
pub open spec fn unit_elem(s: Seq<char>, p: int) -> (ArUnitModel, int) {
    unit_loop(s, past_gt(s, p), ArUnitModel { short_name: ""@, display_name: Seq::empty(), factor_si_to_unit: "1.0"@, offset_si_to_unit: "0.0"@ })
}

/// A child of a `base_type` loop at `q` that it knows (SHORT-NAME, BASE-TYPE-SIZE, BASE-TYPE-ENCODING, NATIVE-DECLARATION): the model after it and
/// the position after it.
pub open spec fn base_type_step(s: Seq<char>, q: int, m: SwBaseTypeModel) -> Option<(SwBaseTypeModel, int)> {
    if at(s, q, "<SHORT-NAME"@) {
        let (t, e) = simple(s, q, "</SHORT-NAME"@);
        Some((SwBaseTypeModel { short_name: t, ..m }, e))
    } else if at(s, q, "<BASE-TYPE-SIZE"@) {
        let (t, e) = simple(s, q, "</BASE-TYPE-SIZE"@);
        Some((SwBaseTypeModel { base_type_size: u32_or(t, 0), ..m }, e))
    } else if at(s, q, "<BASE-TYPE-ENCODING"@) {
        let (t, e) = simple(s, q, "</BASE-TYPE-ENCODING"@);
        Some((SwBaseTypeModel { base_type_encoding: encoding_of_upper(unicode_uppercase(trim_spec(t))), ..m }, e))
    } else if at(s, q, "<NATIVE-DECLARATION"@) {
        let (t, e) = simple(s, q, "</NATIVE-DECLARATION"@);
        Some((SwBaseTypeModel { native_declaration: t, ..m }, e))
    } else {
        None
    }
}

/// The child reader of `base_type` loops.
pub open spec fn base_type_stepper(s: Seq<char>) -> spec_fn(int, SwBaseTypeModel) -> Option<(SwBaseTypeModel, int)> {
    |q: int, m: SwBaseTypeModel| base_type_step(s, q, m)
}

/// The children from `q` up to `</SW-BASE-TYPE`.
pub open spec fn base_type_loop(s: Seq<char>, q: int, m: SwBaseTypeModel) -> (SwBaseTypeModel, int) {
    elem_loop(s, q, "</SW-BASE-TYPE"@, "</SW-BASE-TYPE"@, false, m, base_type_stepper(s))
}

/// The element at `p`: after its opening tag, its children from a fresh
/// model.
pub open spec fn base_type_elem(s: Seq<char>, p: int) -> (SwBaseTypeModel, int) {
    base_type_loop(s, past_gt(s, p), SwBaseTypeModel { short_name: ""@, category: BaseTypeCategory::FixedLength, base_type_size: 0, base_type_encoding: BaseTypeEncoding::NoEncoding, native_declaration: Seq::empty() })
}

/// A child of a `ecu_instance` loop at `q` that it knows (SHORT-NAME, COM-I-PDU-GROUP-REF): the model after it and
/// the position after it.
pub open spec fn ecu_instance_step(s: Seq<char>, q: int, m: ArEcuModel) -> Option<(ArEcuModel, int)> {
    if at(s, q, "<SHORT-NAME"@) {
        let (t, e) = simple(s, q, "</SHORT-NAME"@);
        Some((ArEcuModel { short_name: t, ..m }, e))
    } else if at(s, q, "<COM-I-PDU-GROUP-REF"@) {
        let (t, e) = simple(s, q, "</COM-I-PDU-GROUP-REF"@);
        Some((ArEcuModel { com_i_pdu_groups: m.com_i_pdu_groups.push(t), ..m }, e))
    } else {
        None
    }
}

/// The child reader of `ecu_instance` loops.
pub open spec fn ecu_instance_stepper(s: Seq<char>) -> spec_fn(int, ArEcuModel) -> Option<(ArEcuModel, int)> {
    |q: int, m: ArEcuModel| ecu_instance_step(s, q, m)
}

/// The children from `q` up to `</ECU-INSTANCE`.
pub open spec fn ecu_instance_loop(s: Seq<char>, q: int, m: ArEcuModel) -> (ArEcuModel, int) {
    elem_loop(s, q, "</ECU-INSTANCE"@, "</ECU-INSTANCE"@, false, m, ecu_instance_stepper(s))
}

/// The element at `p`: after its opening tag, its children from a fresh
/// model.
pub open spec fn ecu_instance_elem(s: Seq<char>, p: int) -> (ArEcuModel, int) {
    ecu_instance_loop(s, past_gt(s, p), ArEcuModel { short_name: ""@, com_i_pdu_groups: Seq::empty() })
}

/// A child of a `elements` loop at `q` that it knows (I-SIGNAL, I-SIGNAL-I-PDU, CAN-FRAME, CAN-CLUSTER, COMPU-METHOD, UNIT, SW-BASE-TYPE, ECU-INSTANCE): the model after it and
/// the position after it.
pub open spec fn elements_step(s: Seq<char>, q: int, m: ArPackageModel) -> Option<(ArPackageModel, int)> {
    if at(s, q, "<I-SIGNAL>"@) || at(s, q, "<I-SIGNAL "@) {
        let (c, e) = i_signal_elem(s, q);
        Some((ArPackageModel { i_signals: m.i_signals.push(c), ..m }, e))
    } else if at(s, q, "<I-SIGNAL-I-PDU>"@) || at(s, q, "<I-SIGNAL-I-PDU "@) {
        let (c, e) = pdu_elem(s, q);
        Some((ArPackageModel { i_signal_i_pdus: m.i_signal_i_pdus.push(c), ..m }, e))
    } else if at(s, q, "<CAN-FRAME>"@) || at(s, q, "<CAN-FRAME "@) {
        let (c, e) = can_frame_elem(s, q);
        Some((ArPackageModel { can_frames: m.can_frames.push(c), ..m }, e))
    } else if at(s, q, "<CAN-CLUSTER>"@) || at(s, q, "<CAN-CLUSTER "@) {
        let (c, e) = can_cluster_elem(s, q);
        Some((ArPackageModel { can_clusters: m.can_clusters.push(c), ..m }, e))
    } else if at(s, q, "<COMPU-METHOD>"@) || at(s, q, "<COMPU-METHOD "@) {
        let (c, e) = compu_method_elem(s, q);
        Some((ArPackageModel { compu_methods: m.compu_methods.push(c), ..m }, e))
    } else if at(s, q, "<UNIT>"@) || at(s, q, "<UNIT "@) {
        let (c, e) = unit_elem(s, q);
        Some((ArPackageModel { units: m.units.push(c), ..m }, e))
    } else if at(s, q, "<SW-BASE-TYPE>"@) || at(s, q, "<SW-BASE-TYPE "@) {
        let (c, e) = base_type_elem(s, q);
        Some((ArPackageModel { base_types: m.base_types.push(c), ..m }, e))
    } else if at(s, q, "<ECU-INSTANCE>"@) || at(s, q, "<ECU-INSTANCE "@) {
        let (c, e) = ecu_instance_elem(s, q);
        Some((ArPackageModel { ecu_instances: m.ecu_instances.push(c), ..m }, e))
    } else {
        None
    }
}

/// The child reader of `elements` loops.
pub open spec fn elements_stepper(s: Seq<char>) -> spec_fn(int, ArPackageModel) -> Option<(ArPackageModel, int)> {
    |q: int, m: ArPackageModel| elements_step(s, q, m)
}

/// The children from `q` up to `</ELEMENTS`.
pub open spec fn elements_loop(s: Seq<char>, q: int, m: ArPackageModel) -> (ArPackageModel, int) {
    elem_loop(s, q, "</ELEMENTS"@, "</ELEMENTS"@, true, m, elements_stepper(s))
}

fn i_signal_step_exec(s: &[char], q: usize, m: &mut ISignal) -> (r: Option<usize>)
    requires
        q < s.len(),
    ensures
        match i_signal_step(s@, q as int, old(m)@) {
            Some((m2, e)) => r == Some(e as usize) && final(m)@ == m2 && q < e <= s.len(),
            None => r is None && final(m)@ == old(m)@,
        },
{
    if at_exec(s, q, "<SHORT-NAME") {
        let (t, e) = simple_exec(s, q, "</SHORT-NAME");
        m.short_name = string_from_chars(t.as_slice());
        Some(e)
    } else if at_exec(s, q, "<I-SIGNAL-LENGTH") || at_exec(s, q, "<LENGTH") {
        let (t, e0) = content_exec(s, past_gt_exec(s, q));
        let e = if at_exec(s, e0, "</I-SIGNAL-LENGTH") || at_exec(s, e0, "</LENGTH") { past_gt_exec(s, e0) } else { e0 };
        m.i_signal_length = u32_or_exec(t.as_slice(), 0);
        Some(e)
    } else if at_exec(s, q, "<INIT-VALUE") {
        let (t, e) = simple_exec(s, q, "</INIT-VALUE");
        m.init_value = float_opt_exec(t.as_slice());
        Some(e)
    } else if at_exec(s, q, "<SYSTEM-SIGNAL-REF") {
        let (t, e) = simple_exec(s, q, "</SYSTEM-SIGNAL-REF");
        m.system_signal_ref = string_from_chars(t.as_slice());
        Some(e)
    } else {
        None
    }
}

fn i_signal_loop_exec(s: &[char], q0: usize, m: &mut ISignal) -> (e: usize)
    requires
        q0 <= s.len(),
    ensures
        (final(m)@, e as int) == i_signal_loop(s@, q0 as int, old(m)@),
        q0 <= e <= s.len(),
{
    let mut q = q0;
    loop
        invariant_except_break
            i_signal_loop(s@, q0 as int, old(m)@) == i_signal_loop(s@, q as int, m@),
        invariant
            q0 <= q <= s.len(),
        ensures
            i_signal_loop(s@, q0 as int, old(m)@) == (m@, q as int),
            q0 <= q <= s.len(),
        decreases s.len() - q,
    {
        let q1 = ws_end_exec(s, q);
        if q1 >= s.len() {
            q = q1;
            break;
        }
        if at_exec(s, q1, "</I-SIGNAL") {
            q = past_gt_exec(s, q1);
            break;
        }
        let q2: usize = match i_signal_step_exec(s, q1, m) {
            Some(e) => e,
            None => if s[q1] == '<' {
                skip_element_exec(s, q1)
            } else {
                q1 + 1
            },
        };
        if q2 <= q {
            q = q2;
            break;
        }
        q = q2;
    }
    q
}

fn i_signal_elem_exec(s: &[char], p: usize) -> (r: (ISignal, usize))
    requires
        p < s.len(),
    ensures
        (r.0@, r.1 as int) == i_signal_elem(s@, p as int),
        p < r.1 <= s.len(),
{
    let q = past_gt_exec(s, p);
    let mut m = ISignal::new("");
    proof {
        assert(m@ == ISignalModel { short_name: ""@, i_signal_length: 0, init_value: None, system_signal_ref: Seq::empty(), compu_method_ref: Seq::empty(), base_type_ref: Seq::empty() });
    }
    let e = i_signal_loop_exec(s, q, &mut m);
    (m, e)
}

fn signal_mapping_step_exec(s: &[char], q: usize, m: &mut ISignalToPduMapping) -> (r: Option<usize>)
    requires
        q < s.len(),
    ensures
        match signal_mapping_step(s@, q as int, old(m)@) {
            Some((m2, e)) => r == Some(e as usize) && final(m)@ == m2 && q < e <= s.len(),
            None => r is None && final(m)@ == old(m)@,
        },
{
    if at_exec(s, q, "<SHORT-NAME") {
        let (t, e) = simple_exec(s, q, "</SHORT-NAME");
        m.short_name = string_from_chars(t.as_slice());
        Some(e)
    } else if at_exec(s, q, "<I-SIGNAL-REF") {
        let (t, e) = simple_exec(s, q, "</I-SIGNAL-REF");
        m.i_signal_ref = string_from_chars(t.as_slice());
        Some(e)
    } else if at_exec(s, q, "<PACKING-BYTE-ORDER") {
        let (t, e) = simple_exec(s, q, "</PACKING-BYTE-ORDER");
        m.packing_byte_order = ArxmlByteOrder::parse(string_from_chars(t.as_slice()).as_str());
        Some(e)
    } else if at_exec(s, q, "<START-POSITION") {
        let (t, e) = simple_exec(s, q, "</START-POSITION");
        m.start_position = u32_or_exec(t.as_slice(), 0);
        Some(e)
    } else {
        None
    }
}

fn signal_mapping_loop_exec(s: &[char], q0: usize, m: &mut ISignalToPduMapping) -> (e: usize)
    requires
        q0 <= s.len(),
    ensures
        (final(m)@, e as int) == signal_mapping_loop(s@, q0 as int, old(m)@),
        q0 <= e <= s.len(),
{
    let mut q = q0;
    loop
        invariant_except_break
            signal_mapping_loop(s@, q0 as int, old(m)@) == signal_mapping_loop(s@, q as int, m@),
        invariant
            q0 <= q <= s.len(),
        ensures
            signal_mapping_loop(s@, q0 as int, old(m)@) == (m@, q as int),
            q0 <= q <= s.len(),
        decreases s.len() - q,
    {
        let q1 = ws_end_exec(s, q);
        if q1 >= s.len() {
            q = q1;
            break;
        }
        if at_exec(s, q1, "</I-SIGNAL-TO-PDU-MAPPING") || at_exec(s, q1, "</I-SIGNAL-TO-I-PDU-MAPPING") {
            q = past_gt_exec(s, q1);
            break;
        }
        let q2: usize = match signal_mapping_step_exec(s, q1, m) {
            Some(e) => e,
            None => if s[q1] == '<' {
                skip_element_exec(s, q1)
            } else {
                q1 + 1
            },
        };
        if q2 <= q {
            q = q2;
            break;
        }
        q = q2;
    }
    q
}

fn signal_mapping_elem_exec(s: &[char], p: usize) -> (r: (ISignalToPduMapping, usize))
    requires
        p < s.len(),
    ensures
        (r.0@, r.1 as int) == signal_mapping_elem(s@, p as int),
        p < r.1 <= s.len(),
{
    let q = past_gt_exec(s, p);
    let mut m = ISignalToPduMapping::new("");
    proof {
        assert(m@ == SignalMappingModel { short_name: ""@, i_signal_ref: Seq::empty(), packing_byte_order: ArxmlByteOrder::MostSignificantByteFirst, start_position: 0 });
    }
    let e = signal_mapping_loop_exec(s, q, &mut m);
    (m, e)
}

fn signal_mappings_step_exec(s: &[char], q: usize, m: &mut ISignalIPdu) -> (r: Option<usize>)
    requires
        q < s.len(),
    ensures
        match signal_mappings_step(s@, q as int, old(m)@) {
            Some((m2, e)) => r == Some(e as usize) && final(m)@ == m2 && q < e <= s.len(),
            None => r is None && final(m)@ == old(m)@,
        },
{
    if at_exec(s, q, "<I-SIGNAL-TO-PDU-MAPPING") || at_exec(s, q, "<I-SIGNAL-TO-I-PDU-MAPPING") {
        let (c, e) = signal_mapping_elem_exec(s, q);
        let ghost before = m@;
        let ghost cv = c@;
        m.i_signal_to_pdu_mappings.push(c);
        assert(m@.mappings =~= before.mappings.push(cv));
        Some(e)
    } else {
        None
    }
}

fn signal_mappings_loop_exec(s: &[char], q0: usize, m: &mut ISignalIPdu) -> (e: usize)
    requires
        q0 <= s.len(),
    ensures
        (final(m)@, e as int) == signal_mappings_loop(s@, q0 as int, old(m)@),
        q0 <= e <= s.len(),
{
    let mut q = q0;
    loop
        invariant_except_break
            signal_mappings_loop(s@, q0 as int, old(m)@) == signal_mappings_loop(s@, q as int, m@),
        invariant
            q0 <= q <= s.len(),
        ensures
            signal_mappings_loop(s@, q0 as int, old(m)@) == (m@, q as int),
            q0 <= q <= s.len(),
        decreases s.len() - q,
    {
        let q1 = ws_end_exec(s, q);
        if q1 >= s.len() {
            q = q1;
            break;
        }
        if at_exec(s, q1, "</I-SIGNAL-TO-PDU-MAPPINGS") {
            q = past_gt_exec(s, q1);
            break;
        }
        let q2: usize = match signal_mappings_step_exec(s, q1, m) {
            Some(e) => e,
            None => if s[q1] == '<' {
                skip_element_exec(s, q1)
            } else {
                q1 + 1
            },
        };
        if q2 <= q {
            q = q2;
            break;
        }
        q = q2;
    }
    q
}

fn pdu_step_exec(s: &[char], q: usize, m: &mut ISignalIPdu) -> (r: Option<usize>)
    requires
        q < s.len(),
    ensures
        match pdu_step(s@, q as int, old(m)@) {
            Some((m2, e)) => r == Some(e as usize) && final(m)@ == m2 && q < e <= s.len(),
            None => r is None && final(m)@ == old(m)@,
        },
{
    if at_exec(s, q, "<SHORT-NAME") {
        let (t, e) = simple_exec(s, q, "</SHORT-NAME");
        m.short_name = string_from_chars(t.as_slice());
        Some(e)
    } else if at_exec(s, q, "<LENGTH") {
        let (t, e) = simple_exec(s, q, "</LENGTH");
        m.length = u32_or_exec(t.as_slice(), 0);
        Some(e)
    } else if at_exec(s, q, "<I-SIGNAL-TO-PDU-MAPPINGS") {
        let a = past_gt_exec(s, q);
        let e = signal_mappings_loop_exec(s, a, m);
        Some(e)
    } else {
        None
    }
}

fn pdu_loop_exec(s: &[char], q0: usize, m: &mut ISignalIPdu) -> (e: usize)
    requires
        q0 <= s.len(),
    ensures
        (final(m)@, e as int) == pdu_loop(s@, q0 as int, old(m)@),
        q0 <= e <= s.len(),
{
    let mut q = q0;
    loop
        invariant_except_break
            pdu_loop(s@, q0 as int, old(m)@) == pdu_loop(s@, q as int, m@),
        invariant
            q0 <= q <= s.len(),
        ensures
            pdu_loop(s@, q0 as int, old(m)@) == (m@, q as int),
            q0 <= q <= s.len(),
        decreases s.len() - q,
    {
        let q1 = ws_end_exec(s, q);
        if q1 >= s.len() {
            q = q1;
            break;
        }
        if at_exec(s, q1, "</I-SIGNAL-I-PDU") {
            q = past_gt_exec(s, q1);
            break;
        }
        let q2: usize = match pdu_step_exec(s, q1, m) {
            Some(e) => e,
            None => if s[q1] == '<' {
                skip_element_exec(s, q1)
            } else {
                q1 + 1
            },
        };
        if q2 <= q {
            q = q2;
            break;
        }
        q = q2;
    }
    q
}

fn pdu_elem_exec(s: &[char], p: usize) -> (r: (ISignalIPdu, usize))
    requires
        p < s.len(),
    ensures
        (r.0@, r.1 as int) == pdu_elem(s@, p as int),
        p < r.1 <= s.len(),
{
    let q = past_gt_exec(s, p);
    let mut m = ISignalIPdu::new("");
    proof {
        assert(m@.mappings =~= Seq::empty());
        assert(m@ == PduModel { short_name: ""@, length: 0, mappings: Seq::empty() });
    }
    let e = pdu_loop_exec(s, q, &mut m);
    (m, e)
}

fn frame_mapping_step_exec(s: &[char], q: usize, m: &mut PduToFrameMapping) -> (r: Option<usize>)
    requires
        q < s.len(),
    ensures
        match frame_mapping_step(s@, q as int, old(m)@) {
            Some((m2, e)) => r == Some(e as usize) && final(m)@ == m2 && q < e <= s.len(),
            None => r is None && final(m)@ == old(m)@,
        },
{
    if at_exec(s, q, "<SHORT-NAME") {
        let (t, e) = simple_exec(s, q, "</SHORT-NAME");
        m.short_name = string_from_chars(t.as_slice());
        Some(e)
    } else if at_exec(s, q, "<PDU-REF") {
        let (t, e) = simple_exec(s, q, "</PDU-REF");
        m.pdu_ref = string_from_chars(t.as_slice());
        Some(e)
    } else if at_exec(s, q, "<PACKING-BYTE-ORDER") {
        let (t, e) = simple_exec(s, q, "</PACKING-BYTE-ORDER");
        m.packing_byte_order = ArxmlByteOrder::parse(string_from_chars(t.as_slice()).as_str());
        Some(e)
    } else if at_exec(s, q, "<START-POSITION") {
        let (t, e) = simple_exec(s, q, "</START-POSITION");
        m.start_position = u32_or_exec(t.as_slice(), 0);
        Some(e)
    } else {
        None
    }
}

fn frame_mapping_loop_exec(s: &[char], q0: usize, m: &mut PduToFrameMapping) -> (e: usize)
    requires
        q0 <= s.len(),
    ensures
        (final(m)@, e as int) == frame_mapping_loop(s@, q0 as int, old(m)@),
        q0 <= e <= s.len(),
{
    let mut q = q0;
    loop
        invariant_except_break
            frame_mapping_loop(s@, q0 as int, old(m)@) == frame_mapping_loop(s@, q as int, m@),
        invariant
            q0 <= q <= s.len(),
        ensures
            frame_mapping_loop(s@, q0 as int, old(m)@) == (m@, q as int),
            q0 <= q <= s.len(),
        decreases s.len() - q,
    {
        let q1 = ws_end_exec(s, q);
        if q1 >= s.len() {
            q = q1;
            break;
        }
        if at_exec(s, q1, "</PDU-TO-FRAME-MAPPING") {
            q = past_gt_exec(s, q1);
            break;
        }
        let q2: usize = match frame_mapping_step_exec(s, q1, m) {
            Some(e) => e,
            None => if s[q1] == '<' {
                skip_element_exec(s, q1)
            } else {
                q1 + 1
            },
        };
        if q2 <= q {
            q = q2;
            break;
        }
        q = q2;
    }
    q
}

fn frame_mapping_elem_exec(s: &[char], p: usize) -> (r: (PduToFrameMapping, usize))
    requires
        p < s.len(),
    ensures
        (r.0@, r.1 as int) == frame_mapping_elem(s@, p as int),
        p < r.1 <= s.len(),
{
    let q = past_gt_exec(s, p);
    let mut m = PduToFrameMapping::new("");
    proof {
        assert(m@ == FrameMappingModel { short_name: ""@, packing_byte_order: ArxmlByteOrder::MostSignificantByteFirst, pdu_ref: Seq::empty(), start_position: 0 });
    }
    let e = frame_mapping_loop_exec(s, q, &mut m);
    (m, e)
}

fn frame_mappings_step_exec(s: &[char], q: usize, m: &mut CanFrame) -> (r: Option<usize>)
    requires
        q < s.len(),
    ensures
        match frame_mappings_step(s@, q as int, old(m)@) {
            Some((m2, e)) => r == Some(e as usize) && final(m)@ == m2 && q < e <= s.len(),
            None => r is None && final(m)@ == old(m)@,
        },
{
    if at_exec(s, q, "<PDU-TO-FRAME-MAPPING") {
        let (c, e) = frame_mapping_elem_exec(s, q);
        let ghost before = m@;
        let ghost cv = c@;
        m.pdu_to_frame_mappings.push(c);
        assert(m@.mappings =~= before.mappings.push(cv));
        Some(e)
    } else {
        None
    }
}

fn frame_mappings_loop_exec(s: &[char], q0: usize, m: &mut CanFrame) -> (e: usize)
    requires
        q0 <= s.len(),
    ensures
        (final(m)@, e as int) == frame_mappings_loop(s@, q0 as int, old(m)@),
        q0 <= e <= s.len(),
{
    let mut q = q0;
    loop
        invariant_except_break
            frame_mappings_loop(s@, q0 as int, old(m)@) == frame_mappings_loop(s@, q as int, m@),
        invariant
            q0 <= q <= s.len(),
        ensures
            frame_mappings_loop(s@, q0 as int, old(m)@) == (m@, q as int),
            q0 <= q <= s.len(),
        decreases s.len() - q,
    {
        let q1 = ws_end_exec(s, q);
        if q1 >= s.len() {
            q = q1;
            break;
        }
        if at_exec(s, q1, "</PDU-TO-FRAME-MAPPINGS") {
            q = past_gt_exec(s, q1);
            break;
        }
        let q2: usize = match frame_mappings_step_exec(s, q1, m) {
            Some(e) => e,
            None => if s[q1] == '<' {
                skip_element_exec(s, q1)
            } else {
                q1 + 1
            },
        };
        if q2 <= q {
            q = q2;
            break;
        }
        q = q2;
    }
    q
}

fn can_frame_step_exec(s: &[char], q: usize, m: &mut CanFrame) -> (r: Option<usize>)
    requires
        q < s.len(),
    ensures
        match can_frame_step(s@, q as int, old(m)@) {
            Some((m2, e)) => r == Some(e as usize) && final(m)@ == m2 && q < e <= s.len(),
            None => r is None && final(m)@ == old(m)@,
        },
{
    if at_exec(s, q, "<SHORT-NAME") {
        let (t, e) = simple_exec(s, q, "</SHORT-NAME");
        m.short_name = string_from_chars(t.as_slice());
        Some(e)
    } else if at_exec(s, q, "<FRAME-LENGTH") {
        let (t, e) = simple_exec(s, q, "</FRAME-LENGTH");
        m.frame_length = u8_or_exec(t.as_slice(), 8);
        Some(e)
    } else if at_exec(s, q, "<PDU-TO-FRAME-MAPPINGS") {
        let a = past_gt_exec(s, q);
        let e = frame_mappings_loop_exec(s, a, m);
        Some(e)
    } else {
        None
    }
}

fn can_frame_loop_exec(s: &[char], q0: usize, m: &mut CanFrame) -> (e: usize)
    requires
        q0 <= s.len(),
    ensures
        (final(m)@, e as int) == can_frame_loop(s@, q0 as int, old(m)@),
        q0 <= e <= s.len(),
{
    let mut q = q0;
    loop
        invariant_except_break
            can_frame_loop(s@, q0 as int, old(m)@) == can_frame_loop(s@, q as int, m@),
        invariant
            q0 <= q <= s.len(),
        ensures
            can_frame_loop(s@, q0 as int, old(m)@) == (m@, q as int),
            q0 <= q <= s.len(),
        decreases s.len() - q,
    {
        let q1 = ws_end_exec(s, q);
        if q1 >= s.len() {
            q = q1;
            break;
        }
        if at_exec(s, q1, "</CAN-FRAME") {
            q = past_gt_exec(s, q1);
            break;
        }
        let q2: usize = match can_frame_step_exec(s, q1, m) {
            Some(e) => e,
            None => if s[q1] == '<' {
                skip_element_exec(s, q1)
            } else {
                q1 + 1
            },
        };
        if q2 <= q {
            q = q2;
            break;
        }
        q = q2;
    }
    q
}

fn can_frame_elem_exec(s: &[char], p: usize) -> (r: (CanFrame, usize))
    requires
        p < s.len(),
    ensures
        (r.0@, r.1 as int) == can_frame_elem(s@, p as int),
        p < r.1 <= s.len(),
{
    let q = past_gt_exec(s, p);
    let mut m = CanFrame::new("");
    proof {
        assert(m@.mappings =~= Seq::empty());
        assert(m@ == ArFrameModel { short_name: ""@, frame_length: 8, mappings: Seq::empty() });
    }
    let e = can_frame_loop_exec(s, q, &mut m);
    (m, e)
}

fn can_cluster_step_exec(s: &[char], q: usize, m: &mut CanCluster) -> (r: Option<usize>)
    requires
        q < s.len(),
    ensures
        match can_cluster_step(s@, q as int, old(m)@) {
            Some((m2, e)) => r == Some(e as usize) && final(m)@ == m2 && q < e <= s.len(),
            None => r is None && final(m)@ == old(m)@,
        },
{
    if at_exec(s, q, "<SHORT-NAME") {
        let (t, e) = simple_exec(s, q, "</SHORT-NAME");
        m.short_name = string_from_chars(t.as_slice());
        Some(e)
    } else if at_exec(s, q, "<BAUDRATE") {
        let (t, e) = simple_exec(s, q, "</BAUDRATE");
        m.baudrate = u32_or_exec(t.as_slice(), 500_000);
        Some(e)
    } else if at_exec(s, q, "<CAN-FD-BAUDRATE") {
        let (t, e) = simple_exec(s, q, "</CAN-FD-BAUDRATE");
        m.can_fd_baudrate = u32_opt_exec(t.as_slice());
        Some(e)
    } else {
        None
    }
}

fn can_cluster_loop_exec(s: &[char], q0: usize, m: &mut CanCluster) -> (e: usize)
    requires
        q0 <= s.len(),
    ensures
        (final(m)@, e as int) == can_cluster_loop(s@, q0 as int, old(m)@),
        q0 <= e <= s.len(),
{
    let mut q = q0;
    loop
        invariant_except_break
            can_cluster_loop(s@, q0 as int, old(m)@) == can_cluster_loop(s@, q as int, m@),
        invariant
            q0 <= q <= s.len(),
        ensures
            can_cluster_loop(s@, q0 as int, old(m)@) == (m@, q as int),
            q0 <= q <= s.len(),
        decreases s.len() - q,
    {
        let q1 = ws_end_exec(s, q);
        if q1 >= s.len() {
            q = q1;
            break;
        }
        if at_exec(s, q1, "</CAN-CLUSTER") {
            q = past_gt_exec(s, q1);
            break;
        }
        let q2: usize = match can_cluster_step_exec(s, q1, m) {
            Some(e) => e,
            None => if s[q1] == '<' {
                skip_element_exec(s, q1)
            } else {
                q1 + 1
            },
        };
        if q2 <= q {
            q = q2;
            break;
        }
        q = q2;
    }
    q
}

fn can_cluster_elem_exec(s: &[char], p: usize) -> (r: (CanCluster, usize))
    requires
        p < s.len(),
    ensures
        (r.0@, r.1 as int) == can_cluster_elem(s@, p as int),
        p < r.1 <= s.len(),
{
    let q = past_gt_exec(s, p);
    let mut m = CanCluster::new("");
    proof {
        assert(m@.physical_channels =~= Seq::empty());
        assert(m@ == ClusterModel { short_name: ""@, baudrate: 500_000, can_fd_baudrate: None, physical_channels: Seq::empty() });
    }
    let e = can_cluster_loop_exec(s, q, &mut m);
    (m, e)
}

fn numerator_coeffs_step_exec(s: &[char], q: usize, m: &mut CompuScale) -> (r: Option<usize>)
    requires
        q < s.len(),
    ensures
        match numerator_coeffs_step(s@, q as int, old(m)@) {
            Some((m2, e)) => r == Some(e as usize) && final(m)@ == m2 && q < e <= s.len(),
            None => r is None && final(m)@ == old(m)@,
        },
{
    if at_exec(s, q, "<V") {
        let (t, e) = simple_exec(s, q, "</V");
        if crate::ldf_parser::is_float_text_exec(t.as_slice()) {
            let ghost before = m@;
            m.numerator.push(string_from_chars(t.as_slice()));
            assert(m@.numerator =~= before.numerator.push(t@));
        }
        Some(e)
    } else {
        None
    }
}

fn numerator_coeffs_loop_exec(s: &[char], q0: usize, m: &mut CompuScale) -> (e: usize)
    requires
        q0 <= s.len(),
    ensures
        (final(m)@, e as int) == numerator_coeffs_loop(s@, q0 as int, old(m)@),
        q0 <= e <= s.len(),
{
    let mut q = q0;
    loop
        invariant_except_break
            numerator_coeffs_loop(s@, q0 as int, old(m)@) == numerator_coeffs_loop(s@, q as int, m@),
        invariant
            q0 <= q <= s.len(),
        ensures
            numerator_coeffs_loop(s@, q0 as int, old(m)@) == (m@, q as int),
            q0 <= q <= s.len(),
        decreases s.len() - q,
    {
        let q1 = ws_end_exec(s, q);
        if q1 >= s.len() {
            q = q1;
            break;
        }
        if at_exec(s, q1, "</COMPU-NUMERATOR") || at_exec(s, q1, "</COMPU-DENOMINATOR") {
            q = past_gt_exec(s, q1);
            break;
        }
        let q2: usize = match numerator_coeffs_step_exec(s, q1, m) {
            Some(e) => e,
            None => if s[q1] == '<' {
                skip_element_exec(s, q1)
            } else {
                q1 + 1
            },
        };
        if q2 <= q {
            q = q2;
            break;
        }
        q = q2;
    }
    q
}

fn denominator_coeffs_step_exec(s: &[char], q: usize, m: &mut CompuScale) -> (r: Option<usize>)
    requires
        q < s.len(),
    ensures
        match denominator_coeffs_step(s@, q as int, old(m)@) {
            Some((m2, e)) => r == Some(e as usize) && final(m)@ == m2 && q < e <= s.len(),
            None => r is None && final(m)@ == old(m)@,
        },
{
    if at_exec(s, q, "<V") {
        let (t, e) = simple_exec(s, q, "</V");
        if crate::ldf_parser::is_float_text_exec(t.as_slice()) {
            let ghost before = m@;
            m.denominator.push(string_from_chars(t.as_slice()));
            assert(m@.denominator =~= before.denominator.push(t@));
        }
        Some(e)
    } else {
        None
    }
}

fn denominator_coeffs_loop_exec(s: &[char], q0: usize, m: &mut CompuScale) -> (e: usize)
    requires
        q0 <= s.len(),
    ensures
        (final(m)@, e as int) == denominator_coeffs_loop(s@, q0 as int, old(m)@),
        q0 <= e <= s.len(),
{
    let mut q = q0;
    loop
        invariant_except_break
            denominator_coeffs_loop(s@, q0 as int, old(m)@) == denominator_coeffs_loop(s@, q as int, m@),
        invariant
            q0 <= q <= s.len(),
        ensures
            denominator_coeffs_loop(s@, q0 as int, old(m)@) == (m@, q as int),
            q0 <= q <= s.len(),
        decreases s.len() - q,
    {
        let q1 = ws_end_exec(s, q);
        if q1 >= s.len() {
            q = q1;
            break;
        }
        if at_exec(s, q1, "</COMPU-NUMERATOR") || at_exec(s, q1, "</COMPU-DENOMINATOR") {
            q = past_gt_exec(s, q1);
            break;
        }
        let q2: usize = match denominator_coeffs_step_exec(s, q1, m) {
            Some(e) => e,
            None => if s[q1] == '<' {
                skip_element_exec(s, q1)
            } else {
                q1 + 1
            },
        };
        if q2 <= q {
            q = q2;
            break;
        }
        q = q2;
    }
    q
}

fn rational_coeffs_step_exec(s: &[char], q: usize, m: &mut CompuScale) -> (r: Option<usize>)
    requires
        q < s.len(),
    ensures
        match rational_coeffs_step(s@, q as int, old(m)@) {
            Some((m2, e)) => r == Some(e as usize) && final(m)@ == m2 && q < e <= s.len(),
            None => r is None && final(m)@ == old(m)@,
        },
{
    if at_exec(s, q, "<COMPU-NUMERATOR") {
        let a = past_gt_exec(s, q);
        let e = numerator_coeffs_loop_exec(s, a, m);
        Some(e)
    } else if at_exec(s, q, "<COMPU-DENOMINATOR") {
        let a = past_gt_exec(s, q);
        let e = denominator_coeffs_loop_exec(s, a, m);
        Some(e)
    } else {
        None
    }
}

fn rational_coeffs_loop_exec(s: &[char], q0: usize, m: &mut CompuScale) -> (e: usize)
    requires
        q0 <= s.len(),
    ensures
        (final(m)@, e as int) == rational_coeffs_loop(s@, q0 as int, old(m)@),
        q0 <= e <= s.len(),
{
    let mut q = q0;
    loop
        invariant_except_break
            rational_coeffs_loop(s@, q0 as int, old(m)@) == rational_coeffs_loop(s@, q as int, m@),
        invariant
            q0 <= q <= s.len(),
        ensures
            rational_coeffs_loop(s@, q0 as int, old(m)@) == (m@, q as int),
            q0 <= q <= s.len(),
        decreases s.len() - q,
    {
        let q1 = ws_end_exec(s, q);
        if q1 >= s.len() {
            q = q1;
            break;
        }
        if at_exec(s, q1, "</COMPU-RATIONAL-COEFFS") {
            q = past_gt_exec(s, q1);
            break;
        }
        let q2: usize = match rational_coeffs_step_exec(s, q1, m) {
            Some(e) => e,
            None => if s[q1] == '<' {
                skip_element_exec(s, q1)
            } else {
                q1 + 1
            },
        };
        if q2 <= q {
            q = q2;
            break;
        }
        q = q2;
    }
    q
}

fn compu_scale_step_exec(s: &[char], q: usize, m: &mut CompuScale) -> (r: Option<usize>)
    requires
        q < s.len(),
    ensures
        match compu_scale_step(s@, q as int, old(m)@) {
            Some((m2, e)) => r == Some(e as usize) && final(m)@ == m2 && q < e <= s.len(),
            None => r is None && final(m)@ == old(m)@,
        },
{
    if at_exec(s, q, "<LOWER-LIMIT") {
        let (t, e) = simple_exec(s, q, "</LOWER-LIMIT");
        m.lower_limit = float_or_exec(t.as_slice(), "0.0");
        Some(e)
    } else if at_exec(s, q, "<UPPER-LIMIT") {
        let (t, e) = simple_exec(s, q, "</UPPER-LIMIT");
        m.upper_limit = float_or_exec(t.as_slice(), "0.0");
        Some(e)
    } else if at_exec(s, q, "<COMPU-RATIONAL-COEFFS") {
        let a = past_gt_exec(s, q);
        let e = rational_coeffs_loop_exec(s, a, m);
        Some(e)
    } else if at_exec(s, q, "<VT") {
        let (t, e) = simple_exec(s, q, "</VT");
        m.vt = string_from_chars(t.as_slice());
        Some(e)
    } else {
        None
    }
}

fn compu_scale_loop_exec(s: &[char], q0: usize, m: &mut CompuScale) -> (e: usize)
    requires
        q0 <= s.len(),
    ensures
        (final(m)@, e as int) == compu_scale_loop(s@, q0 as int, old(m)@),
        q0 <= e <= s.len(),
{
    let mut q = q0;
    loop
        invariant_except_break
            compu_scale_loop(s@, q0 as int, old(m)@) == compu_scale_loop(s@, q as int, m@),
        invariant
            q0 <= q <= s.len(),
        ensures
            compu_scale_loop(s@, q0 as int, old(m)@) == (m@, q as int),
            q0 <= q <= s.len(),
        decreases s.len() - q,
    {
        let q1 = ws_end_exec(s, q);
        if q1 >= s.len() {
            q = q1;
            break;
        }
        if at_exec(s, q1, "</COMPU-SCALE") {
            q = past_gt_exec(s, q1);
            break;
        }
        let q2: usize = match compu_scale_step_exec(s, q1, m) {
            Some(e) => e,
            None => if s[q1] == '<' {
                skip_element_exec(s, q1)
            } else {
                q1 + 1
            },
        };
        if q2 <= q {
            q = q2;
            break;
        }
        q = q2;
    }
    q
}

fn compu_scale_elem_exec(s: &[char], p: usize) -> (r: (CompuScale, usize))
    requires
        p < s.len(),
    ensures
        (r.0@, r.1 as int) == compu_scale_elem(s@, p as int),
        p < r.1 <= s.len(),
{
    let q = past_gt_exec(s, p);
    let mut m = CompuScale::default();
    proof {
        assert(m@ == empty_scale());
    }
    let e = compu_scale_loop_exec(s, q, &mut m);
    (m, e)
}

fn compu_scales_step_exec(s: &[char], q: usize, m: &mut CompuMethod) -> (r: Option<usize>)
    requires
        q < s.len(),
    ensures
        match compu_scales_step(s@, q as int, old(m)@) {
            Some((m2, e)) => r == Some(e as usize) && final(m)@ == m2 && q < e <= s.len(),
            None => r is None && final(m)@ == old(m)@,
        },
{
    if at_exec(s, q, "<COMPU-SCALE") {
        let (c, e) = compu_scale_elem_exec(s, q);
        let ghost before = m@;
        let ghost cv = c@;
        m.compu_scales.push(c);
        assert(m@.compu_scales =~= before.compu_scales.push(cv));
        Some(e)
    } else {
        None
    }
}

fn compu_scales_loop_exec(s: &[char], q0: usize, m: &mut CompuMethod) -> (e: usize)
    requires
        q0 <= s.len(),
    ensures
        (final(m)@, e as int) == compu_scales_loop(s@, q0 as int, old(m)@),
        q0 <= e <= s.len(),
{
    let mut q = q0;
    loop
        invariant_except_break
            compu_scales_loop(s@, q0 as int, old(m)@) == compu_scales_loop(s@, q as int, m@),
        invariant
            q0 <= q <= s.len(),
        ensures
            compu_scales_loop(s@, q0 as int, old(m)@) == (m@, q as int),
            q0 <= q <= s.len(),
        decreases s.len() - q,
    {
        let q1 = ws_end_exec(s, q);
        if q1 >= s.len() {
            q = q1;
            break;
        }
        if at_exec(s, q1, "</COMPU-SCALES") {
            q = past_gt_exec(s, q1);
            break;
        }
        let q2: usize = match compu_scales_step_exec(s, q1, m) {
            Some(e) => e,
            None => if s[q1] == '<' {
                skip_element_exec(s, q1)
            } else {
                q1 + 1
            },
        };
        if q2 <= q {
            q = q2;
            break;
        }
        q = q2;
    }
    q
}

fn internal_to_phys_step_exec(s: &[char], q: usize, m: &mut CompuMethod) -> (r: Option<usize>)
    requires
        q < s.len(),
    ensures
        match internal_to_phys_step(s@, q as int, old(m)@) {
            Some((m2, e)) => r == Some(e as usize) && final(m)@ == m2 && q < e <= s.len(),
            None => r is None && final(m)@ == old(m)@,
        },
{
    if at_exec(s, q, "<COMPU-SCALES") {
        let a = past_gt_exec(s, q);
        let e = compu_scales_loop_exec(s, a, m);
        Some(e)
    } else {
        None
    }
}

fn internal_to_phys_loop_exec(s: &[char], q0: usize, m: &mut CompuMethod) -> (e: usize)
    requires
        q0 <= s.len(),
    ensures
        (final(m)@, e as int) == internal_to_phys_loop(s@, q0 as int, old(m)@),
        q0 <= e <= s.len(),
{
    let mut q = q0;
    loop
        invariant_except_break
            internal_to_phys_loop(s@, q0 as int, old(m)@) == internal_to_phys_loop(s@, q as int, m@),
        invariant
            q0 <= q <= s.len(),
        ensures
            internal_to_phys_loop(s@, q0 as int, old(m)@) == (m@, q as int),
            q0 <= q <= s.len(),
        decreases s.len() - q,
    {
        let q1 = ws_end_exec(s, q);
        if q1 >= s.len() {
            q = q1;
            break;
        }
        if at_exec(s, q1, "</COMPU-INTERNAL-TO-PHYS") {
            q = past_gt_exec(s, q1);
            break;
        }
        let q2: usize = match internal_to_phys_step_exec(s, q1, m) {
            Some(e) => e,
            None => if s[q1] == '<' {
                skip_element_exec(s, q1)
            } else {
                q1 + 1
            },
        };
        if q2 <= q {
            q = q2;
            break;
        }
        q = q2;
    }
    q
}

fn compu_method_step_exec(s: &[char], q: usize, m: &mut CompuMethod) -> (r: Option<usize>)
    requires
        q < s.len(),
    ensures
        match compu_method_step(s@, q as int, old(m)@) {
            Some((m2, e)) => r == Some(e as usize) && final(m)@ == m2 && q < e <= s.len(),
            None => r is None && final(m)@ == old(m)@,
        },
{
    if at_exec(s, q, "<SHORT-NAME") {
        let (t, e) = simple_exec(s, q, "</SHORT-NAME");
        m.short_name = string_from_chars(t.as_slice());
        Some(e)
    } else if at_exec(s, q, "<CATEGORY") {
        let (t, e) = simple_exec(s, q, "</CATEGORY");
        m.category = CompuMethodCategory::parse(string_from_chars(t.as_slice()).as_str());
        Some(e)
    } else if at_exec(s, q, "<UNIT-REF") {
        let (t, e) = simple_exec(s, q, "</UNIT-REF");
        m.unit_ref = string_from_chars(t.as_slice());
        Some(e)
    } else if at_exec(s, q, "<COMPU-INTERNAL-TO-PHYS") {
        let a = past_gt_exec(s, q);
        let e = internal_to_phys_loop_exec(s, a, m);
        Some(e)
    } else {
        None
    }
}

fn compu_method_loop_exec(s: &[char], q0: usize, m: &mut CompuMethod) -> (e: usize)
    requires
        q0 <= s.len(),
    ensures
        (final(m)@, e as int) == compu_method_loop(s@, q0 as int, old(m)@),
        q0 <= e <= s.len(),
{
    let mut q = q0;
    loop
        invariant_except_break
            compu_method_loop(s@, q0 as int, old(m)@) == compu_method_loop(s@, q as int, m@),
        invariant
            q0 <= q <= s.len(),
        ensures
            compu_method_loop(s@, q0 as int, old(m)@) == (m@, q as int),
            q0 <= q <= s.len(),
        decreases s.len() - q,
    {
        let q1 = ws_end_exec(s, q);
        if q1 >= s.len() {
            q = q1;
            break;
        }
        if at_exec(s, q1, "</COMPU-METHOD") {
            q = past_gt_exec(s, q1);
            break;
        }
        let q2: usize = match compu_method_step_exec(s, q1, m) {
            Some(e) => e,
            None => if s[q1] == '<' {
                skip_element_exec(s, q1)
            } else {
                q1 + 1
            },
        };
        if q2 <= q {
            q = q2;
            break;
        }
        q = q2;
    }
    q
}

fn compu_method_elem_exec(s: &[char], p: usize) -> (r: (CompuMethod, usize))
    requires
        p < s.len(),
    ensures
        (r.0@, r.1 as int) == compu_method_elem(s@, p as int),
        p < r.1 <= s.len(),
{
    let q = past_gt_exec(s, p);
    let mut m = CompuMethod::new("");
    proof {
        assert(m@ == CompuMethodModel { short_name: ""@, category: CompuMethodCategory::Identical, unit_ref: Seq::empty(), compu_scales: Seq::empty() });
    }
    let e = compu_method_loop_exec(s, q, &mut m);
    (m, e)
}

fn unit_step_exec(s: &[char], q: usize, m: &mut Unit) -> (r: Option<usize>)
    requires
        q < s.len(),
    ensures
        match unit_step(s@, q as int, old(m)@) {
            Some((m2, e)) => r == Some(e as usize) && final(m)@ == m2 && q < e <= s.len(),
            None => r is None && final(m)@ == old(m)@,
        },
{
    if at_exec(s, q, "<SHORT-NAME") {
        let (t, e) = simple_exec(s, q, "</SHORT-NAME");
        m.short_name = string_from_chars(t.as_slice());
        Some(e)
    } else if at_exec(s, q, "<DISPLAY-NAME") {
        let (t, e) = simple_exec(s, q, "</DISPLAY-NAME");
        m.display_name = string_from_chars(t.as_slice());
        Some(e)
    } else if at_exec(s, q, "<FACTOR-SI-TO-UNIT") {
        let (t, e) = simple_exec(s, q, "</FACTOR-SI-TO-UNIT");
        m.factor_si_to_unit = float_or_exec(t.as_slice(), "1.0");
        Some(e)
    } else if at_exec(s, q, "<OFFSET-SI-TO-UNIT") {
        let (t, e) = simple_exec(s, q, "</OFFSET-SI-TO-UNIT");
        m.offset_si_to_unit = float_or_exec(t.as_slice(), "0.0");
        Some(e)
    } else {
        None
    }
}

fn unit_loop_exec(s: &[char], q0: usize, m: &mut Unit) -> (e: usize)
    requires
        q0 <= s.len(),
    ensures
        (final(m)@, e as int) == unit_loop(s@, q0 as int, old(m)@),
        q0 <= e <= s.len(),
{
    let mut q = q0;
    loop
        invariant_except_break
            unit_loop(s@, q0 as int, old(m)@) == unit_loop(s@, q as int, m@),
        invariant
            q0 <= q <= s.len(),
        ensures
            unit_loop(s@, q0 as int, old(m)@) == (m@, q as int),
            q0 <= q <= s.len(),
        decreases s.len() - q,
    {
        let q1 = ws_end_exec(s, q);
        if q1 >= s.len() {
            q = q1;
            break;
        }
        if at_exec(s, q1, "</UNIT") {
            q = past_gt_exec(s, q1);
            break;
        }
        let q2: usize = match unit_step_exec(s, q1, m) {
            Some(e) => e,
            None => if s[q1] == '<' {
                skip_element_exec(s, q1)
            } else {
                q1 + 1
            },
        };
        if q2 <= q {
            q = q2;
            break;
        }
        q = q2;
    }
    q
}

fn unit_elem_exec(s: &[char], p: usize) -> (r: (Unit, usize))
    requires
        p < s.len(),
    ensures
        (r.0@, r.1 as int) == unit_elem(s@, p as int),
        p < r.1 <= s.len(),
{
    let q = past_gt_exec(s, p);
    let mut m = Unit::new("");
    proof {
        assert(m@ == ArUnitModel { short_name: ""@, display_name: Seq::empty(), factor_si_to_unit: "1.0"@, offset_si_to_unit: "0.0"@ });
    }
    let e = unit_loop_exec(s, q, &mut m);
    (m, e)
}

fn base_type_step_exec(s: &[char], q: usize, m: &mut SwBaseType) -> (r: Option<usize>)
    requires
        q < s.len(),
    ensures
        match base_type_step(s@, q as int, old(m)@) {
            Some((m2, e)) => r == Some(e as usize) && final(m)@ == m2 && q < e <= s.len(),
            None => r is None && final(m)@ == old(m)@,
        },
{
    if at_exec(s, q, "<SHORT-NAME") {
        let (t, e) = simple_exec(s, q, "</SHORT-NAME");
        m.short_name = string_from_chars(t.as_slice());
        Some(e)
    } else if at_exec(s, q, "<BASE-TYPE-SIZE") {
        let (t, e) = simple_exec(s, q, "</BASE-TYPE-SIZE");
        m.base_type_size = u32_or_exec(t.as_slice(), 0);
        Some(e)
    } else if at_exec(s, q, "<BASE-TYPE-ENCODING") {
        let (t, e) = simple_exec(s, q, "</BASE-TYPE-ENCODING");
        m.base_type_encoding = BaseTypeEncoding::parse(string_from_chars(t.as_slice()).as_str());
        Some(e)
    } else if at_exec(s, q, "<NATIVE-DECLARATION") {
        let (t, e) = simple_exec(s, q, "</NATIVE-DECLARATION");
        m.native_declaration = string_from_chars(t.as_slice());
        Some(e)
    } else {
        None
    }
}

fn base_type_loop_exec(s: &[char], q0: usize, m: &mut SwBaseType) -> (e: usize)
    requires
        q0 <= s.len(),
    ensures
        (final(m)@, e as int) == base_type_loop(s@, q0 as int, old(m)@),
        q0 <= e <= s.len(),
{
    let mut q = q0;
    loop
        invariant_except_break
            base_type_loop(s@, q0 as int, old(m)@) == base_type_loop(s@, q as int, m@),
        invariant
            q0 <= q <= s.len(),
        ensures
            base_type_loop(s@, q0 as int, old(m)@) == (m@, q as int),
            q0 <= q <= s.len(),
        decreases s.len() - q,
    {
        let q1 = ws_end_exec(s, q);
        if q1 >= s.len() {
            q = q1;
            break;
        }
        if at_exec(s, q1, "</SW-BASE-TYPE") {
            q = past_gt_exec(s, q1);
            break;
        }
        let q2: usize = match base_type_step_exec(s, q1, m) {
            Some(e) => e,
            None => if s[q1] == '<' {
                skip_element_exec(s, q1)
            } else {
                q1 + 1
            },
        };
        if q2 <= q {
            q = q2;
            break;
        }
        q = q2;
    }
    q
}

fn base_type_elem_exec(s: &[char], p: usize) -> (r: (SwBaseType, usize))
    requires
        p < s.len(),
    ensures
        (r.0@, r.1 as int) == base_type_elem(s@, p as int),
        p < r.1 <= s.len(),
{
    let q = past_gt_exec(s, p);
    let mut m = SwBaseType::new("");
    proof {
        assert(m@ == SwBaseTypeModel { short_name: ""@, category: BaseTypeCategory::FixedLength, base_type_size: 0, base_type_encoding: BaseTypeEncoding::NoEncoding, native_declaration: Seq::empty() });
    }
    let e = base_type_loop_exec(s, q, &mut m);
    (m, e)
}

fn ecu_instance_step_exec(s: &[char], q: usize, m: &mut EcuInstance) -> (r: Option<usize>)
    requires
        q < s.len(),
    ensures
        match ecu_instance_step(s@, q as int, old(m)@) {
            Some((m2, e)) => r == Some(e as usize) && final(m)@ == m2 && q < e <= s.len(),
            None => r is None && final(m)@ == old(m)@,
        },
{
    if at_exec(s, q, "<SHORT-NAME") {
        let (t, e) = simple_exec(s, q, "</SHORT-NAME");
        m.short_name = string_from_chars(t.as_slice());
        Some(e)
    } else if at_exec(s, q, "<COM-I-PDU-GROUP-REF") {
        let (t, e) = simple_exec(s, q, "</COM-I-PDU-GROUP-REF");
        let ghost before = m@;
        m.com_i_pdu_groups.push(string_from_chars(t.as_slice()));
        assert(m@.com_i_pdu_groups =~= before.com_i_pdu_groups.push(t@));
        Some(e)
    } else {
        None
    }
}

fn ecu_instance_loop_exec(s: &[char], q0: usize, m: &mut EcuInstance) -> (e: usize)
    requires
        q0 <= s.len(),
    ensures
        (final(m)@, e as int) == ecu_instance_loop(s@, q0 as int, old(m)@),
        q0 <= e <= s.len(),
{
    let mut q = q0;
    loop
        invariant_except_break
            ecu_instance_loop(s@, q0 as int, old(m)@) == ecu_instance_loop(s@, q as int, m@),
        invariant
            q0 <= q <= s.len(),
        ensures
            ecu_instance_loop(s@, q0 as int, old(m)@) == (m@, q as int),
            q0 <= q <= s.len(),
        decreases s.len() - q,
    {
        let q1 = ws_end_exec(s, q);
        if q1 >= s.len() {
            q = q1;
            break;
        }
        if at_exec(s, q1, "</ECU-INSTANCE") {
            q = past_gt_exec(s, q1);
            break;
        }
        let q2: usize = match ecu_instance_step_exec(s, q1, m) {
            Some(e) => e,
            None => if s[q1] == '<' {
                skip_element_exec(s, q1)
            } else {
                q1 + 1
            },
        };
        if q2 <= q {
            q = q2;
            break;
        }
        q = q2;
    }
    q
}

fn ecu_instance_elem_exec(s: &[char], p: usize) -> (r: (EcuInstance, usize))
    requires
        p < s.len(),
    ensures
        (r.0@, r.1 as int) == ecu_instance_elem(s@, p as int),
        p < r.1 <= s.len(),
{
    let q = past_gt_exec(s, p);
    let mut m = EcuInstance::new("");
    proof {
        assert(m@.com_i_pdu_groups =~= Seq::empty());
        assert(m@ == ArEcuModel { short_name: ""@, com_i_pdu_groups: Seq::empty() });
    }
    let e = ecu_instance_loop_exec(s, q, &mut m);
    (m, e)
}

fn elements_step_exec(s: &[char], q: usize, m: &mut ArPackage) -> (r: Option<usize>)
    requires
        q < s.len(),
    ensures
        match elements_step(s@, q as int, package_view(*old(m))) {
            Some((m2, e)) => r == Some(e as usize) && package_view(*final(m)) == m2 && q < e <= s.len(),
            None => r is None && package_view(*final(m)) == package_view(*old(m)),
        },
{
    if at_exec(s, q, "<I-SIGNAL>") || at_exec(s, q, "<I-SIGNAL ") {
        let (c, e) = i_signal_elem_exec(s, q);
        let ghost before = package_view(*m);
        let ghost cv = c@;
        m.i_signals.push(c);
        assert(package_view(*m).i_signals =~= before.i_signals.push(cv));
        Some(e)
    } else if at_exec(s, q, "<I-SIGNAL-I-PDU>") || at_exec(s, q, "<I-SIGNAL-I-PDU ") {
        let (c, e) = pdu_elem_exec(s, q);
        let ghost before = package_view(*m);
        let ghost cv = c@;
        m.i_signal_i_pdus.push(c);
        assert(package_view(*m).i_signal_i_pdus =~= before.i_signal_i_pdus.push(cv));
        Some(e)
    } else if at_exec(s, q, "<CAN-FRAME>") || at_exec(s, q, "<CAN-FRAME ") {
        let (c, e) = can_frame_elem_exec(s, q);
        let ghost before = package_view(*m);
        let ghost cv = c@;
        m.can_frames.push(c);
        assert(package_view(*m).can_frames =~= before.can_frames.push(cv));
        Some(e)
    } else if at_exec(s, q, "<CAN-CLUSTER>") || at_exec(s, q, "<CAN-CLUSTER ") {
        let (c, e) = can_cluster_elem_exec(s, q);
        let ghost before = package_view(*m);
        let ghost cv = c@;
        m.can_clusters.push(c);
        assert(package_view(*m).can_clusters =~= before.can_clusters.push(cv));
        Some(e)
    } else if at_exec(s, q, "<COMPU-METHOD>") || at_exec(s, q, "<COMPU-METHOD ") {
        let (c, e) = compu_method_elem_exec(s, q);
        let ghost before = package_view(*m);
        let ghost cv = c@;
        m.compu_methods.push(c);
        assert(package_view(*m).compu_methods =~= before.compu_methods.push(cv));
        Some(e)
    } else if at_exec(s, q, "<UNIT>") || at_exec(s, q, "<UNIT ") {
        let (c, e) = unit_elem_exec(s, q);
        let ghost before = package_view(*m);
        let ghost cv = c@;
        m.units.push(c);
        assert(package_view(*m).units =~= before.units.push(cv));
        Some(e)
    } else if at_exec(s, q, "<SW-BASE-TYPE>") || at_exec(s, q, "<SW-BASE-TYPE ") {
        let (c, e) = base_type_elem_exec(s, q);
        let ghost before = package_view(*m);
        let ghost cv = c@;
        m.base_types.push(c);
        assert(package_view(*m).base_types =~= before.base_types.push(cv));
        Some(e)
    } else if at_exec(s, q, "<ECU-INSTANCE>") || at_exec(s, q, "<ECU-INSTANCE ") {
        let (c, e) = ecu_instance_elem_exec(s, q);
        let ghost before = package_view(*m);
        let ghost cv = c@;
        m.ecu_instances.push(c);
        assert(package_view(*m).ecu_instances =~= before.ecu_instances.push(cv));
        Some(e)
    } else {
        None
    }
}

fn elements_loop_exec(s: &[char], q0: usize, m: &mut ArPackage) -> (e: usize)
    requires
        q0 <= s.len(),
    ensures
        (package_view(*final(m)), e as int) == elements_loop(s@, q0 as int, package_view(*old(m))),
        q0 <= e <= s.len(),
{
    let mut q = q0;
    loop
        invariant_except_break
            elements_loop(s@, q0 as int, package_view(*old(m))) == elements_loop(s@, q as int, package_view(*m)),
        invariant
            q0 <= q <= s.len(),
        ensures
            elements_loop(s@, q0 as int, package_view(*old(m))) == (package_view(*m), q as int),
            q0 <= q <= s.len(),
        decreases s.len() - q,
    {
        let q1 = ws_end_exec(s, q);
        if q1 >= s.len() {
            q = q1;
            break;
        }
        if at_exec(s, q1, "</ELEMENTS") {
            q = past_gt_exec(s, q1);
            break;
        }
        let q2: usize = if at_exec(s, q1, "<!--") {
            comment_end_exec(s, q1)
        } else {
            match elements_step_exec(s, q1, m) {
                Some(e) => e,
                None => if s[q1] == '<' {
                    skip_element_exec(s, q1)
                } else {
                    q1 + 1
                },
            }
        };
        if q2 <= q {
            q = q2;
            break;
        }
        q = q2;
    }
    q
}

// ---------------------------------------------------------------------------
// Packages
// ---------------------------------------------------------------------------

/// `find_from` lands between `p` and the end.
pub proof fn lemma_find_from(s: Seq<char>, p: int, c: char)
    requires
        0 <= p <= s.len(),
    ensures
        p <= find_from(s, p, c) <= s.len(),
    decreases s.len() - p,
{
    if p < s.len() && s[p] != c {
        lemma_find_from(s, p + 1, c);
    }
}

/// Past the next `>` lies after `p` and not after the end.
pub proof fn lemma_past_gt(s: Seq<char>, p: int)
    requires
        0 <= p < s.len(),
    ensures
        p < past_gt(s, p) <= s.len(),
{
    lemma_find_from(s, p, '>');
}

/// A package whose opening tag is at `p`: its model, read from its
/// children into an empty package, and the position after it.
pub open spec fn ar_package(s: Seq<char>, p: int) -> (ArPackageModel, int)
    decreases s.len() - p, 0int,
{
    if 0 <= p < s.len() {
        proof {
            lemma_past_gt(s, p);
        }
        package_loop(s, past_gt(s, p), empty_package(Seq::empty()))
    } else {
        (empty_package(Seq::empty()), p)
    }
}

/// The children of a package from `q` up to `</AR-PACKAGE`: its short name,
/// its sub-packages and its elements.
pub open spec fn package_loop(s: Seq<char>, q: int, m: ArPackageModel) -> (ArPackageModel, int)
    decreases s.len() - q, 0int,
{
    let q1 = ws_end(s, q);
    if q < 0 || q > s.len() || q1 >= s.len() {
        (m, q1)
    } else if at(s, q1, "</AR-PACKAGE"@) {
        (m, past_gt(s, q1))
    } else {
        proof {
            lemma_scan_bounds(s, q, CharClass::Whitespace);
            lemma_past_gt(s, q1);
        }
        let (m2, q2) = if at(s, q1, "<!--"@) {
            (m, comment_end(s, q1))
        } else if at(s, q1, "<SHORT-NAME"@) {
            let (t, e) = simple(s, q1, "</SHORT-NAME"@);
            (ArPackageModel { short_name: t, ..m }, e)
        } else if at(s, q1, "<AR-PACKAGES"@) {
            sub_packages_loop(s, past_gt(s, q1), m)
        } else if at(s, q1, "<ELEMENTS"@) {
            elements_loop(s, past_gt(s, q1), m)
        } else if s[q1] == '<' {
            (m, skip_element(s, q1))
        } else {
            (m, q1 + 1)
        };
        if q2 <= q || q2 > s.len() {
            (m2, q2)
        } else {
            package_loop(s, q2, m2)
        }
    }
}

/// The sub-packages of a package from `q` up to `</AR-PACKAGES`, each added
/// at the end.
pub open spec fn sub_packages_loop(s: Seq<char>, q: int, m: ArPackageModel) -> (ArPackageModel, int)
    decreases s.len() - q, 1int,
{
    let q1 = ws_end(s, q);
    if q < 0 || q > s.len() || q1 >= s.len() {
        (m, q1)
    } else if at(s, q1, "</AR-PACKAGES"@) {
        (m, past_gt(s, q1))
    } else {
        proof {
            lemma_scan_bounds(s, q, CharClass::Whitespace);
        }
        let (m2, q2) = if at(s, q1, "<!--"@) {
            (m, comment_end(s, q1))
        } else if at(s, q1, "<AR-PACKAGE"@) {
            let (c, e) = ar_package(s, q1);
            (ArPackageModel { sub_packages: m.sub_packages.push(c), ..m }, e)
        } else if s[q1] == '<' {
            (m, skip_element(s, q1))
        } else {
            (m, q1 + 1)
        };
        if q2 <= q || q2 > s.len() {
            (m2, q2)
        } else {
            sub_packages_loop(s, q2, m2)
        }
    }
}

fn ar_package_exec(s: &[char], p: usize) -> (r: (ArPackage, usize))
    requires
        p < s.len(),
    ensures
        (package_view(r.0), r.1 as int) == ar_package(s@, p as int),
        p < r.1 <= s.len(),
    decreases s.len() - p, 0int,
{
    let q = past_gt_exec(s, p);
    let mut m = ArPackage::new("");
    proof {
        reveal_strlit("");
        assert(""@ =~= Seq::<char>::empty());
    }
    let e = package_loop_exec(s, q, &mut m);
    (m, e)
}

fn package_loop_exec(s: &[char], q0: usize, m: &mut ArPackage) -> (e: usize)
    requires
        q0 <= s.len(),
    ensures
        (package_view(*final(m)), e as int) == package_loop(s@, q0 as int, package_view(*old(m))),
        q0 <= e <= s.len(),
    decreases s.len() - q0, 0int,
{
    let mut q = q0;
    loop
        invariant_except_break
            package_loop(s@, q0 as int, package_view(*old(m))) == package_loop(s@, q as int, package_view(*m)),
        invariant
            q0 <= q <= s.len(),
        ensures
            package_loop(s@, q0 as int, package_view(*old(m))) == (package_view(*m), q as int),
            q0 <= q <= s.len(),
        decreases s.len() - q,
    {
        let q1 = ws_end_exec(s, q);
        if q1 >= s.len() {
            q = q1;
            break;
        }
        if at_exec(s, q1, "</AR-PACKAGE") {
            q = past_gt_exec(s, q1);
            break;
        }
        let q2: usize = if at_exec(s, q1, "<!--") {
            comment_end_exec(s, q1)
        } else if at_exec(s, q1, "<SHORT-NAME") {
            let (t, e) = simple_exec(s, q1, "</SHORT-NAME");
            let ghost before = package_view(*m);
            m.short_name = string_from_chars(t.as_slice());
            assert(package_view(*m).sub_packages =~= before.sub_packages);
            e
        } else if at_exec(s, q1, "<AR-PACKAGES") {
            let a = past_gt_exec(s, q1);
            sub_packages_loop_exec(s, a, m)
        } else if at_exec(s, q1, "<ELEMENTS") {
            let a = past_gt_exec(s, q1);
            elements_loop_exec(s, a, m)
        } else if s[q1] == '<' {
            skip_element_exec(s, q1)
        } else {
            q1 + 1
        };
        if q2 <= q {
            q = q2;
            break;
        }
        q = q2;
    }
    q
}

fn sub_packages_loop_exec(s: &[char], q0: usize, m: &mut ArPackage) -> (e: usize)
    requires
        q0 <= s.len(),
    ensures
        (package_view(*final(m)), e as int) == sub_packages_loop(s@, q0 as int, package_view(*old(m))),
        q0 <= e <= s.len(),
    decreases s.len() - q0, 1int,
{
    let mut q = q0;
    loop
        invariant_except_break
            sub_packages_loop(s@, q0 as int, package_view(*old(m))) == sub_packages_loop(s@, q as int, package_view(*m)),
        invariant
            q0 <= q <= s.len(),
        ensures
            sub_packages_loop(s@, q0 as int, package_view(*old(m))) == (package_view(*m), q as int),
            q0 <= q <= s.len(),
        decreases s.len() - q,
    {
        let q1 = ws_end_exec(s, q);
        if q1 >= s.len() {
            q = q1;
            break;
        }
        if at_exec(s, q1, "</AR-PACKAGES") {
            q = past_gt_exec(s, q1);
            break;
        }
        let q2: usize = if at_exec(s, q1, "<!--") {
            comment_end_exec(s, q1)
        } else if at_exec(s, q1, "<AR-PACKAGE") {
            let (c, e) = ar_package_exec(s, q1);
            m.add_sub_package(c);
            e
        } else if s[q1] == '<' {
            skip_element_exec(s, q1)
        } else {
            q1 + 1
        };
        if q2 <= q {
            q = q2;
            break;
        }
        q = q2;
    }
    q
}

// ---------------------------------------------------------------------------
// The document
// ---------------------------------------------------------------------------

/// The position after the comments (and the whitespace after each) that
/// start at `p`.
pub open spec fn skip_comments(s: Seq<char>, p: int) -> int
    decreases s.len() - p,
{
    if at(s, p, "<!--"@) {
        let q = ws_end(s, comment_end(s, p));
        if p < q <= s.len() {
            skip_comments(s, q)
        } else {
            q
        }
    } else {
        p
    }
}

/// Where the root element is looked for: after leading whitespace, an XML
/// declaration if there is one, whitespace, and comments.
pub open spec fn prolog_end(s: Seq<char>) -> int {
    let p0 = ws_end(s, 0);
    let p1 = if at(s, p0, "<?xml"@) {
        let q = find_lit(s, p0, "?>"@);
        if at(s, q, "?>"@) {
            q + 2
        } else {
            q
        }
    } else {
        p0
    };
    skip_comments(s, ws_end(s, p1))
}

/// An attribute value after the `=` at `p`: the text between quotes (`"` or
/// `'`) and the position after the closing quote; without a quote, nothing.
pub open spec fn attr_value(s: Seq<char>, p: int) -> (Seq<char>, int) {
    let p1 = ws_end(s, p);
    if 0 <= p1 < s.len() && (s[p1] == '"' || s[p1] == '\'') {
        let e = find_from(s, p1 + 1, s[p1]);
        (s.subrange(p1 + 1, e), step1(s, e))
    } else {
        (Seq::empty(), p1)
    }
}

/// Whether `name` declares an XML namespace.
pub open spec fn is_xmlns(name: Seq<char>) -> bool {
    name == "xmlns"@ || (name.len() >= 6 && name.take(6) == "xmlns:"@)
}

/// The database after an attribute of the root element: a namespace whose
/// URL names a release sets the version, a schema location is kept.
pub open spec fn apply_attr(db: ArxmlDatabaseModel, name: Seq<char>, value: Seq<char>) -> ArxmlDatabaseModel {
    if is_xmlns(name) {
        match version_of_url(value) {
            Some(v) => ArxmlDatabaseModel { version: v, ..db },
            None => db,
        }
    } else if contains_seq(name, "schemaLocation"@) {
        ArxmlDatabaseModel { schema_location: value, ..db }
    } else {
        db
    }
}

/// The attributes of the root element from `q` up to `>` or `/>`: a name,
/// and after `=` its value. The reading stops where it would not move on.
pub open spec fn attrs_loop(s: Seq<char>, q: int, db: ArxmlDatabaseModel) -> (ArxmlDatabaseModel, int)
    decreases s.len() - q,
{
    let q1 = ws_end(s, q);
    if q < 0 || q1 >= s.len() || s[q1] == '>' || at(s, q1, "/>"@) {
        (db, q1)
    } else {
        let n = tag_end(s, q1);
        let q3 = ws_end(s, n);
        let (db2, q4) = if 0 <= q3 < s.len() && s[q3] == '=' {
            let (v, e) = attr_value(s, q3 + 1);
            (apply_attr(db, s.subrange(q1, n), v), e)
        } else {
            (db, q3)
        };
        if q4 <= q || q4 > s.len() {
            (db2, q4)
        } else {
            attrs_loop(s, q4, db2)
        }
    }
}

/// The root packages from `q` up to `</AR-PACKAGES`, each added at the end.
pub open spec fn packages_loop(s: Seq<char>, q: int, db: ArxmlDatabaseModel) -> (ArxmlDatabaseModel, int)
    decreases s.len() - q,
{
    let q1 = ws_end(s, q);
    if q < 0 || q1 >= s.len() {
        (db, q1)
    } else if at(s, q1, "</AR-PACKAGES"@) {
        (db, past_gt(s, q1))
    } else {
        let (db2, q2) = if at(s, q1, "<!--"@) {
            (db, comment_end(s, q1))
        } else if at(s, q1, "<AR-PACKAGE"@) {
            let (c, e) = ar_package(s, q1);
            (ArxmlDatabaseModel { packages: db.packages.push(c), ..db }, e)
        } else if s[q1] == '<' {
            (db, skip_element(s, q1))
        } else {
            (db, q1 + 1)
        };
        if q2 <= q || q2 > s.len() {
            (db2, q2)
        } else {
            packages_loop(s, q2, db2)
        }
    }
}

/// The content of the root element from `q` up to `</AUTOSAR` or the end.
pub open spec fn autosar_content(s: Seq<char>, q: int, db: ArxmlDatabaseModel) -> (ArxmlDatabaseModel, int)
    decreases s.len() - q,
{
    let q1 = ws_end(s, q);
    if q < 0 || q1 >= s.len() || at(s, q1, "</AUTOSAR"@) {
        (db, q1)
    } else {
        let (db2, q2) = if at(s, q1, "<!--"@) {
            (db, comment_end(s, q1))
        } else if at(s, q1, "<AR-PACKAGES"@) {
            packages_loop(s, past_gt(s, q1), db)
        } else if s[q1] == '<' {
            (db, skip_element(s, q1))
        } else {
            (db, q1 + 1)
        };
        if q2 <= q || q2 > s.len() {
            (db2, q2)
        } else {
            autosar_content(s, q2, db2)
        }
    }
}

/// The database read from a document, or `None` when no `<AUTOSAR` root
/// element follows the prolog.
pub open spec fn arxml_spec(s: Seq<char>) -> Option<ArxmlDatabaseModel> {
    let p = prolog_end(s);
    if !at(s, p, "<AUTOSAR"@) {
        None
    } else {
        let (db, q) = attrs_loop(s, tag_end(s, p + 1), empty_arxml());
        let q2 = if 0 <= q < s.len() && s[q] == '>' {
            q + 1
        } else {
            q
        };
        Some(autosar_content(s, q2, db).0)
    }
}

fn skip_comments_exec(s: &[char], p0: usize) -> (r: usize)
    requires
        p0 <= s.len(),
    ensures
        r as int == skip_comments(s@, p0 as int),
        r <= s.len(),
{
    let mut p = p0;
    while at_exec(s, p, "<!--")
        invariant
            p <= s.len(),
            skip_comments(s@, p0 as int) == skip_comments(s@, p as int),
        decreases s.len() - p,
    {
        let c = comment_end_exec(s, p);
        let q = ws_end_exec(s, c);
        if q <= p {
            return q;
        }
        p = q;
    }
    p
}

fn prolog_end_exec(s: &[char]) -> (r: usize)
    ensures
        r as int == prolog_end(s@),
        r <= s.len(),
{
    let p0 = ws_end_exec(s, 0);
    let p1 = if at_exec(s, p0, "<?xml") {
        let mut q = p0;
        while q < s.len() && !at_exec(s, q, "?>")
            invariant
                p0 <= q <= s.len(),
                find_lit(s@, p0 as int, "?>"@) == find_lit(s@, q as int, "?>"@),
            decreases s.len() - q,
        {
            q += 1;
        }
        if at_exec(s, q, "?>") {
            proof {
                reveal_strlit("?>");
            }
            q + 2
        } else {
            q
        }
    } else {
        p0
    };
    let p2 = ws_end_exec(s, p1);
    skip_comments_exec(s, p2)
}

fn attr_value_exec(s: &[char], p: usize) -> (r: (Vec<char>, usize))
    requires
        p <= s.len(),
    ensures
        (r.0@, r.1 as int) == attr_value(s@, p as int),
        p <= r.1 <= s.len(),
{
    let p1 = ws_end_exec(s, p);
    if p1 < s.len() && (s[p1] == '"' || s[p1] == '\'') {
        let e = find_from_exec(s, p1 + 1, s[p1]);
        let v = slice_to_vec(s, p1 + 1, e);
        (v, if e < s.len() { e + 1 } else { e })
    } else {
        (Vec::new(), p1)
    }
}

fn apply_attr_exec(db: &mut ArxmlDatabase, name: &[char], value: &[char])
    ensures
        final(db)@ == apply_attr(old(db)@, name@, value@),
{
    let xmlns = chars_of("xmlns");
    let xmlns_colon = chars_of("xmlns:");
    let schema = chars_of("schemaLocation");
    let is_ns = chars_eq(name, xmlns.as_slice()) || has_prefix_at(name, 0, xmlns_colon.as_slice());
    proof {
        reveal_strlit("xmlns:");
        if name@.len() >= 6 {
            assert(name@.subrange(0, 6) =~= name@.take(6));
        }
    }
    if is_ns {
        let url = string_from_chars(value);
        match AutosarVersion::from_schema_url(url.as_str()) {
            Some(v) => {
                db.version = v;
            },
            None => {},
        }
    } else if contains_exec(name, schema.as_slice()) {
        db.schema_location = string_from_chars(value);
    }
}

fn attrs_loop_exec(s: &[char], q0: usize, db: &mut ArxmlDatabase) -> (e: usize)
    requires
        q0 <= s.len(),
    ensures
        (final(db)@, e as int) == attrs_loop(s@, q0 as int, old(db)@),
        e <= s.len(),
{
    let mut q = q0;
    loop
        invariant_except_break
            attrs_loop(s@, q0 as int, old(db)@) == attrs_loop(s@, q as int, db@),
        invariant
            q <= s.len(),
        ensures
            attrs_loop(s@, q0 as int, old(db)@) == (db@, q as int),
            q <= s.len(),
        decreases s.len() - q,
    {
        let q1 = ws_end_exec(s, q);
        if q1 >= s.len() || s[q1] == '>' || at_exec(s, q1, "/>") {
            q = q1;
            break;
        }
        let n = scan(s, q1, CharClass::TagName);
        proof {
            lemma_scan_bounds(s@, q1 as int, CharClass::TagName);
        }
        let q3 = ws_end_exec(s, n);
        let q4 = if q3 < s.len() && s[q3] == '=' {
            let (v, e) = attr_value_exec(s, q3 + 1);
            let name = slice_to_vec(s, q1, n);
            apply_attr_exec(db, name.as_slice(), v.as_slice());
            e
        } else {
            q3
        };
        if q4 <= q {
            q = q4;
            break;
        }
        q = q4;
    }
    q
}

fn packages_loop_exec(s: &[char], q0: usize, db: &mut ArxmlDatabase) -> (e: usize)
    requires
        q0 <= s.len(),
    ensures
        (final(db)@, e as int) == packages_loop(s@, q0 as int, old(db)@),
        q0 <= e <= s.len(),
{
    let mut q = q0;
    loop
        invariant_except_break
            packages_loop(s@, q0 as int, old(db)@) == packages_loop(s@, q as int, db@),
        invariant
            q0 <= q <= s.len(),
        ensures
            packages_loop(s@, q0 as int, old(db)@) == (db@, q as int),
            q0 <= q <= s.len(),
        decreases s.len() - q,
    {
        let q1 = ws_end_exec(s, q);
        if q1 >= s.len() {
            q = q1;
            break;
        }
        if at_exec(s, q1, "</AR-PACKAGES") {
            q = past_gt_exec(s, q1);
            break;
        }
        let q2: usize = if at_exec(s, q1, "<!--") {
            comment_end_exec(s, q1)
        } else if at_exec(s, q1, "<AR-PACKAGE") {
            let (c, e) = ar_package_exec(s, q1);
            db.add_package(c);
            e
        } else if s[q1] == '<' {
            skip_element_exec(s, q1)
        } else {
            q1 + 1
        };
        if q2 <= q {
            q = q2;
            break;
        }
        q = q2;
    }
    q
}

fn autosar_content_exec(s: &[char], q0: usize, db: &mut ArxmlDatabase) -> (e: usize)
    requires
        q0 <= s.len(),
    ensures
        (final(db)@, e as int) == autosar_content(s@, q0 as int, old(db)@),
        q0 <= e <= s.len(),
{
    let mut q = q0;
    loop
        invariant_except_break
            autosar_content(s@, q0 as int, old(db)@) == autosar_content(s@, q as int, db@),
        invariant
            q0 <= q <= s.len(),
        ensures
            autosar_content(s@, q0 as int, old(db)@) == (db@, q as int),
            q0 <= q <= s.len(),
        decreases s.len() - q,
    {
        let q1 = ws_end_exec(s, q);
        if q1 >= s.len() || at_exec(s, q1, "</AUTOSAR") {
            q = q1;
            break;
        }
        let q2: usize = if at_exec(s, q1, "<!--") {
            comment_end_exec(s, q1)
        } else if at_exec(s, q1, "<AR-PACKAGES") {
            let a = past_gt_exec(s, q1);
            packages_loop_exec(s, a, db)
        } else if s[q1] == '<' {
            skip_element_exec(s, q1)
        } else {
            q1 + 1
        };
        if q2 <= q {
            q = q2;
            break;
        }
        q = q2;
    }
    q
}

/// Reader of AUTOSAR XML text.
pub struct ArxmlParser<'a> {
    input: &'a str,
    pos: usize,
}

impl<'a> ArxmlParser<'a> {
    /// The text this reader reads.
    pub closed spec fn text(&self) -> Seq<char> {
        self.input@
    }

    /// Where this reader stands in its text.
    pub closed spec fn position(&self) -> nat {
        self.pos as nat
    }

    /// A reader at the start of `input`.
    pub fn new(input: &'a str) -> (r: Self)
        ensures
            r.text() == input@,
            r.position() == 0,
    {
        ArxmlParser { input, pos: 0 }
    }

    /// Read an ARXML document: `MissingElement("AUTOSAR")` when no
    /// `<AUTOSAR` root element follows the prolog, else the database read
    /// from it.
    pub fn parse(input: &str) -> (r: Result<ArxmlDatabase, ArxmlParseError>)
        ensures
            match arxml_spec(input@) {
                Some(m) => r matches Ok(db) && db@ == m,
                None => r matches Err(ArxmlParseError::MissingElement(x)) && x@ == "AUTOSAR"@,
            },
    {
        let v = chars_of(input);
        let s = v.as_slice();
        let p = prolog_end_exec(s);
        if !at_exec(s, p, "<AUTOSAR") {
            return Err(ArxmlParseError::MissingElement(owned("AUTOSAR")));
        }
        proof {
            reveal_strlit("<AUTOSAR");
        }
        let a = scan(s, p + 1, CharClass::TagName);
        proof {
            lemma_scan_bounds(s@, p + 1, CharClass::TagName);
        }
        let mut db = ArxmlDatabase::new();
        let q = attrs_loop_exec(s, a, &mut db);
        let q2 = if q < s.len() && s[q] == '>' {
            q + 1
        } else {
            q
        };
        autosar_content_exec(s, q2, &mut db);
        Ok(db)
    }
}

/// `find_from` over a run without `c` that `c` ends: the position of that `c`.
pub proof fn lemma_find_run(s: Seq<char>, p: int, k: int, c: char)
    requires
        0 <= p,
        0 <= k,
        p + k < s.len(),
        forall|i: int| p <= i < p + k ==> #[trigger] s[i] != c,
        s[p + k] == c,
    ensures
        find_from(s, p, c) == p + k,
    decreases k,
{
    if k > 0 {
        lemma_find_run(s, p + 1, k - 1, c);
    }
}

/// Inside a `PDU-TO-FRAME-MAPPING`, a `<PDU-REF>` child holding a text
/// (without angle brackets) sets the mapping's PDU reference to that text,
/// trimmed, and leaves everything else as it was; reading goes on after
/// its closing tag.
pub proof fn lemma_pdu_ref_child(s: Seq<char>, q: int, t: Seq<char>, m: FrameMappingModel)
    requires
        at(s, q, "<PDU-REF>"@ + t + "</PDU-REF>"@),
        forall|i: int| 0 <= i < t.len() ==> #[trigger] t[i] != '<' && t[i] != '>',
    ensures
        frame_mapping_step(s, q, m) == Some((FrameMappingModel { pdu_ref: trim_spec(t), ..m }, q + 19 + t.len())),
{
    reveal_strlit("<PDU-REF>");
    reveal_strlit("</PDU-REF>");
    reveal_strlit("<PDU-REF");
    reveal_strlit("</PDU-REF");
    reveal_strlit("<SHORT-NAME");
    let l = "<PDU-REF>"@ + t + "</PDU-REF>"@;
    let n = t.len() as int;
    assert(l.len() == n + 19);
    assert forall|i: int| 0 <= i < l.len() implies #[trigger] s[q + i] == l[i] by {
        assert(s.subrange(q, q + l.len())[i] == s[q + i]);
    }
    assert(s[q + 1] == 'P');
    assert(!at(s, q, "<SHORT-NAME"@)) by {
        if at(s, q, "<SHORT-NAME"@) {
            assert(s.subrange(q, q + 11)[1] == 'S');
        }
    }
    assert(s.subrange(q, q + 8) =~= "<PDU-REF"@) by {
        assert forall|i: int| 0 <= i < 8 implies s.subrange(q, q + 8)[i] == "<PDU-REF"@[i] by {
            assert(s[q + i] == l[i]);
        }
    }
    assert forall|i: int| q <= i < q + 8 implies #[trigger] s[i] != '>' by {
        assert(s[q + (i - q)] == l[i - q]);
    }
    assert(s[q + 8] == l[8]);
    lemma_find_run(s, q, 8, '>');
    assert forall|i: int| q + 9 <= i < q + 9 + n implies #[trigger] s[i] != '<' by {
        assert(s[q + (i - q)] == l[i - q]);
        assert(l[i - q] == t[i - q - 9]);
    }
    assert(s[q + 9 + n] == l[9 + n]);
    lemma_find_run(s, q + 9, n, '<');
    assert(s.subrange(q + 9, q + 9 + n) =~= t) by {
        assert forall|i: int| 0 <= i < n implies s.subrange(q + 9, q + 9 + n)[i] == t[i] by {
            assert(s[q + 9 + i] == l[9 + i]);
        }
    }
    let e = q + 9 + n;
    assert(s.subrange(e, e + 9) =~= "</PDU-REF"@) by {
        assert forall|i: int| 0 <= i < 9 implies s.subrange(e, e + 9)[i] == "</PDU-REF"@[i] by {
            assert(s[e + i] == l[9 + n + i]);
        }
    }
    assert forall|i: int| e <= i < e + 9 implies #[trigger] s[i] != '>' by {
        assert(s[q + (i - q)] == l[i - q]);
    }
    assert(s[e + 9] == l[18 + n]);
    lemma_find_run(s, e, 9, '>');
}

/// A `PDU-TO-FRAME-MAPPING` element whose one child is `<PDU-REF>` holding a
/// text (without angle brackets) is read as a mapping whose PDU reference
/// is that text, trimmed, with the other fields at their defaults; reading
/// goes on after the element.
#[verifier::rlimit(40)]
pub proof fn lemma_pdu_ref_mapping(s: Seq<char>, p: int, t: Seq<char>)
    requires
        at(s, p, "<PDU-TO-FRAME-MAPPING>"@ + ("<PDU-REF>"@ + t + "</PDU-REF>"@) + "</PDU-TO-FRAME-MAPPING>"@),
        forall|i: int| 0 <= i < t.len() ==> #[trigger] t[i] != '<' && t[i] != '>',
    ensures
        frame_mapping_elem(s, p) == (
            FrameMappingModel {
                short_name: ""@,
                packing_byte_order: ArxmlByteOrder::MostSignificantByteFirst,
                pdu_ref: trim_spec(t),
                start_position: 0,
            },
            p + 64 + t.len(),
        ),
{
    reveal_strlit("<PDU-TO-FRAME-MAPPING>");
    reveal_strlit("</PDU-TO-FRAME-MAPPING>");
    reveal_strlit("</PDU-TO-FRAME-MAPPING");
    reveal_strlit("<PDU-REF>");
    reveal_strlit("</PDU-REF>");
    let a = "<PDU-TO-FRAME-MAPPING>"@;
    let b = "<PDU-REF>"@ + t + "</PDU-REF>"@;
    let c = "</PDU-TO-FRAME-MAPPING>"@;
    let n = t.len() as int;
    let l = a + b + c;
    assert(l.len() == n + 64);
    assert forall|i: int| 0 <= i < l.len() implies #[trigger] s[p + i] == l[i] by {
        assert(s.subrange(p, p + l.len())[i] == s[p + i]);
    }
    assert forall|i: int| p <= i < p + 21 implies #[trigger] s[i] != '>' by {
        assert(s[p + (i - p)] == l[i - p]);
    }
    assert(s[p + 21] == l[21]);
    lemma_find_run(s, p, 21, '>');
    let q = p + 22;
    assert(past_gt(s, p) == q);
    assert(s.subrange(q, q + b.len()) =~= b) by {
        assert forall|i: int| 0 <= i < b.len() implies s.subrange(q, q + b.len())[i] == b[i] by {
            assert(s[q + i] == l[22 + i]);
        }
    }
    assert(s[q] == b[0]);
    assert(s[q + 1] == b[1]);
    assert(s[q] == '<');
    crate::dbf_roundtrip::lemma_scan_run(s, q, 0, CharClass::Whitespace);
    assert(s[q + 1] == 'P');
    assert(!at(s, q, "</PDU-TO-FRAME-MAPPING"@)) by {
        if at(s, q, "</PDU-TO-FRAME-MAPPING"@) {
            assert(s.subrange(q, q + 22)[1] == '/');
        }
    }
    let m0 = FrameMappingModel {
        short_name: ""@,
        packing_byte_order: ArxmlByteOrder::MostSignificantByteFirst,
        pdu_ref: Seq::empty(),
        start_position: 0,
    };
    lemma_pdu_ref_child(s, q, t, m0);
    let q2 = q + 19 + n;
    assert(frame_mapping_stepper(s)(q, m0) == frame_mapping_step(s, q, m0));
    assert(s[q2] == l[41 + n]);
    assert(s[q2] == '<');
    crate::dbf_roundtrip::lemma_scan_run(s, q2, 0, CharClass::Whitespace);
    assert(s.subrange(q2, q2 + 22) =~= "</PDU-TO-FRAME-MAPPING"@) by {
        assert forall|i: int| 0 <= i < 22 implies s.subrange(q2, q2 + 22)[i] == "</PDU-TO-FRAME-MAPPING"@[i] by {
            assert(s[q2 + i] == l[41 + n + i]);
        }
    }
    assert forall|i: int| q2 <= i < q2 + 22 implies #[trigger] s[i] != '>' by {
        assert(s[p + (i - p)] == l[i - p]);
    }
    assert(s[q2 + 22] == l[63 + n]);
    lemma_find_run(s, q2, 22, '>');
    let m1 = FrameMappingModel { pdu_ref: trim_spec(t), ..m0 };
    assert(frame_mapping_loop(s, q2, m1) == (m1, q2 + 23));
    assert(frame_mapping_loop(s, q, m0) == frame_mapping_loop(s, q2, m1));
}

} // verus!
