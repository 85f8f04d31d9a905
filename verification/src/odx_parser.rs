//! Reading ODX: a forward reader over the characters of the file. Each
//! element reader takes the attributes it needs from the opening tag, steps
//! past it, and reads children until its closing tag (or, for some, any
//! closing tag); children it does not know are skipped whole, other
//! characters one by one. A reader that reaches the end of the input, or
//! whose step would not move forward, stops there.
use vstd::prelude::*;
use crate::arxml_parser::{
    at, at_exec, comment_end, comment_end_exec, find_from, find_from_exec, find_lit, past_gt, past_gt_exec,
    step1, u32_opt, u32_opt_exec,
};
use crate::number::{parse_unsigned, parse_unsigned_spec};
use crate::odx::{
    empty_layer, empty_odx, odx_number_spec, Comparam, ComparamClass, ComparamModel, ComparamSpec,
    ComparamSpecModel, DiagLayer, DiagLayerType, DiagService, Dtc, DtcModel, DtcSeverity, JobModel, LayerModel,
    LinkModel, LogicalLink, MessageModel, OdxDatabase, OdxModel, OdxParseError, OdxParser, Param, ParamModel,
    ParamSemantic, ParamType, Request, Response, ServiceModel, SingleEcuJob, VehicleInfo, VehicleInfoModel,
};
use crate::scan::{scan, scan_spec, CharClass};
use crate::text::{chars_eq, chars_of, has_prefix_at, slice_to_vec, string_from_chars, to_uppercase, trim, trim_spec, unicode_uppercase};

verus! {

broadcast use vstd::string::group_string_axioms;

// ---------------------------------------------------------------------------
// Reading the characters
// ---------------------------------------------------------------------------

/// The position after the spaces, tabs, carriage returns and line feeds at
/// `p`.
pub open spec fn oskip(s: Seq<char>, p: int) -> int {
    scan_spec(s, p, CharClass::MultiSpace)
}

/// From `q` inside an opening tag: whether it closes itself (`/>`) and the
/// position after that, else the position of its `>` (or the end).
pub open spec fn tag_close(s: Seq<char>, q: int) -> (bool, int)
    decreases s.len() - q,
{
    if q < 0 || q >= s.len() || s[q] == '>' {
        (false, q)
    } else if at(s, q, "/>"@) {
        (true, q + 2)
    } else {
        tag_close(s, q + 1)
    }
}

/// Inside an element being skipped, from `q` with `depth` elements of its
/// name open: its closing tag `close` closes one (the last ends the skip
/// after its `>`); `open` followed by a space, `>` or `/` (at `n + 1` past
/// the `<`) opens one.
pub open spec fn onested(s: Seq<char>, q: int, close: Seq<char>, open: Seq<char>, n: int, depth: nat) -> int
    decreases s.len() - q,
{
    if q < 0 || q >= s.len() || depth == 0 {
        q
    } else if at(s, q, close) {
        if depth == 1 {
            past_gt(s, q)
        } else {
            onested(s, q + 1, close, open, n, (depth - 1) as nat)
        }
    } else if at(s, q, open) {
        let a = q + n + 1;
        let opens = a < s.len() && (s[a] == ' ' || s[a] == '>' || s[a] == '/');
        onested(s, q + 1, close, open, n, if opens { depth + 1 } else { depth })
    } else {
        onested(s, q + 1, close, open, n, depth)
    }
}

/// The position after the element whose `<` is at `p`: its name runs up to
/// a space, `>` or `/`; a tag that closes itself ends after its `/>`, any
/// other after the matching closing tag. Not at a `<`, nothing is skipped.
pub open spec fn oskip_element(s: Seq<char>, p: int) -> int {
    if !(0 <= p < s.len() && s[p] == '<') {
        p
    } else {
        let b = scan_spec(s, p + 1, CharClass::OpenTagName);
        let name = s.subrange(p + 1, b);
        let (closes, c) = tag_close(s, b);
        if closes {
            c
        } else {
            onested(s, step1(s, c), "</"@ + name + ">"@, "<"@ + name, name.len() as int, 1)
        }
    }
}

/// The value of the attribute `pat` (its name and `=`) in the tag from `q`
/// up to its `>`: the text between quotes and the position after the
/// closing quote, or `None`.
pub open spec fn attr_scan(s: Seq<char>, q: int, pat: Seq<char>) -> Option<(Seq<char>, int)>
    decreases s.len() - q,
{
    if q < 0 || q >= s.len() || s[q] == '>' {
        None
    } else {
        let q1 = oskip(s, q);
        if at(s, q1, pat) {
            let q3 = oskip(s, q1 + pat.len());
            if q3 >= s.len() || (s[q3] != '"' && s[q3] != '\'') {
                None
            } else {
                let e = find_from(s, q3 + 1, s[q3]);
                Some((s.subrange(q3 + 1, e), step1(s, e)))
            }
        } else {
            let q2 = step1(s, q1);
            if q2 <= q || q2 > s.len() {
                None
            } else {
                attr_scan(s, q2, pat)
            }
        }
    }
}

/// The attribute `name` of the tag at `p` and the position after it; where
/// it is not found, `None` and `p` itself.
pub open spec fn parse_attribute(s: Seq<char>, p: int, name: Seq<char>) -> (Option<Seq<char>>, int) {
    match attr_scan(s, p, name + "="@) {
        Some((v, e)) => (Some(v), e),
        None => (None, p),
    }
}

/// An attribute value, or nothing.
pub open spec fn or_empty(v: Option<Seq<char>>) -> Seq<char> {
    match v {
        Some(t) => t,
        None => Seq::empty(),
    }
}

/// From `q`: elements other than the closing tag `end_tag` are skipped,
/// with the whitespace after each.
pub open spec fn nested_skip(s: Seq<char>, q: int, end_tag: Seq<char>) -> int
    decreases s.len() - q,
{
    if 0 <= q < s.len() && s[q] == '<' && !at(s, q, end_tag) {
        let r = oskip(s, oskip_element(s, q));
        if q < r <= s.len() {
            nested_skip(s, r, end_tag)
        } else {
            r
        }
    } else {
        q
    }
}

/// A text element `tag` at `p`: its text up to the first `<`, trimmed, and
/// the position after its closing tag (elements before it are skipped).
pub open spec fn text_elem(s: Seq<char>, p: int, tag: Seq<char>) -> (Seq<char>, int) {
    let a = oskip(s, past_gt(s, p));
    let end_tag = "</"@ + tag + ">"@;
    let b = find_from(s, a, '<');
    let c = nested_skip(s, b, end_tag);
    (trim_spec(s.subrange(a, b)), if at(s, c, end_tag) { past_gt(s, c) } else { c })
}

/// From `q` up to the first closing tag: elements are skipped whole.
pub open spec fn any_end(s: Seq<char>, q: int) -> int
    decreases s.len() - q,
{
    if q < 0 || q >= s.len() || at(s, q, "</"@) {
        q
    } else {
        let r = if s[q] == '<' { oskip_element(s, q) } else { q + 1 };
        if q < r <= s.len() {
            any_end(s, r)
        } else {
            r
        }
    }
}

/// A text element of any name at `p`: everything up to the first closing
/// tag, trimmed, and the position after that closing tag.
pub open spec fn text_any(s: Seq<char>, p: int) -> (Seq<char>, int) {
    let a = oskip(s, past_gt(s, p));
    let b = any_end(s, a);
    (trim_spec(s.subrange(a, b)), past_gt(s, b))
}

/// The children of an element from `q`: the loop stops at `end_a` or
/// `end_b` (before whitespace), at the end of the input, and, where
/// `stop_close`, at any closing tag; it skips whitespace, lets `step` read a
/// child it knows, skips comments and other elements, and other characters
/// one by one.
pub open spec fn odx_loop<M>(
    s: Seq<char>,
    q: int,
    end_a: Seq<char>,
    end_b: Seq<char>,
    stop_close: bool,
    m: M,
    step: spec_fn(int, M) -> Option<(M, int)>,
) -> (M, int)
    decreases s.len() - q,
{
    if q < 0 || q >= s.len() || at(s, q, end_a) || at(s, q, end_b) {
        (m, q)
    } else {
        let q1 = oskip(s, q);
        if q1 >= s.len() {
            (m, q1)
        } else if step(q1, m) is None && !at(s, q1, "<!--"@) && stop_close && at(s, q1, "</"@) {
            (m, q1)
        } else {
            let (m2, q2) = match step(q1, m) {
                Some(x) => x,
                None => if at(s, q1, "<!--"@) {
                    (m, comment_end(s, q1))
                } else if s[q1] == '<' {
                    (m, oskip_element(s, q1))
                } else {
                    (m, q1 + 1)
                },
            };
            if q2 <= q || q2 > s.len() {
                (m2, q2)
            } else {
                odx_loop(s, q2, end_a, end_b, stop_close, m2, step)
            }
        }
    }
}

/// A `u8` read from text, if it reads.
pub open spec fn u8_opt(t: Seq<char>) -> Option<u8> {
    match parse_unsigned_spec(t, 10, u8::MAX as nat) {
        Ok(v) => Some(v as u8),
        Err(_) => None,
    }
}

/// A trouble code read from text: its number cut to 32 bits, or 0.
pub open spec fn dtc_code_of(t: Seq<char>) -> u32 {
    match odx_number_spec(t) {
        Some(v) => v as u32,
        None => 0,
    }
}

/// The semantic that an uppercased `SEMANTIC` attribute names.
pub open spec fn semantic_of_upper(u: Seq<char>) -> ParamSemantic {
    if u == "ID"@ || u == "SERVICE-ID"@ {
        ParamSemantic::ServiceId
    } else if u == "SUBFUNCTION"@ {
        ParamSemantic::SubFunction
    } else {
        ParamSemantic::Data
    }
}

/// The class that an uppercased `PARAM-CLASS` attribute names.
pub open spec fn class_of_upper(u: Seq<char>) -> ComparamClass {
    if u == "INIT"@ {
        ComparamClass::Init
    } else if u == "ERRHDL"@ || u == "ERROR-HANDLING"@ {
        ComparamClass::ErrorHandling
    } else if u == "UNIQUERESPID"@ || u == "UNIQUE-RESP-ID"@ {
        ComparamClass::UniqueRespId
    } else if u == "BUSTYPE"@ || u == "BUS-TYPE"@ {
        ComparamClass::BusType
    } else {
        ComparamClass::Timing
    }
}

/// Characters as an optional text.
pub open spec fn opt_chars(o: Option<Vec<char>>) -> Option<Seq<char>> {
    match o {
        Some(v) => Some(v@),
        None => None,
    }
}

// ---------------------------------------------------------------------------
// Executable reading
// ---------------------------------------------------------------------------

fn oskip_exec(s: &[char], p: usize) -> (r: usize)
    requires
        p <= s.len(),
    ensures
        r as int == oskip(s@, p as int),
        p <= r <= s.len(),
{
    scan(s, p, CharClass::MultiSpace)
}

fn tag_close_exec(s: &[char], q0: usize) -> (r: (bool, usize))
    requires
        q0 <= s.len(),
    ensures
        (r.0, r.1 as int) == tag_close(s@, q0 as int),
        q0 <= r.1 <= s.len(),
{
    let mut q = q0;
    while q < s.len() && s[q] != '>'
        invariant
            q0 <= q <= s.len(),
            tag_close(s@, q0 as int) == tag_close(s@, q as int),
        decreases s.len() - q,
    {
        if at_exec(s, q, "/>") {
            proof {
                reveal_strlit("/>");
            }
            return (true, q + 2);
        }
        q += 1;
    }
    (false, q)
}

fn oskip_element_exec(s: &[char], p: usize) -> (r: usize)
    requires
        p <= s.len(),
    ensures
        r as int == oskip_element(s@, p as int),
        p <= r <= s.len(),
        p < s.len() && s@[p as int] == '<' ==> p < r,
{
    if !(p < s.len() && s[p] == '<') {
        return p;
    }
    let b = scan(s, p + 1, CharClass::OpenTagName);
    let name = slice_to_vec(s, p + 1, b);
    let (closes, c) = tag_close_exec(s, b);
    if closes {
        return c;
    }
    let mut close = vec!['<', '/'];
    let mut open = vec!['<'];
    let mut k: usize = 0;
    while k < name.len()
        invariant
            k <= name.len(),
            close@ == seq!['<', '/'] + name@.take(k as int),
            open@ == seq!['<'] + name@.take(k as int),
        decreases name.len() - k,
    {
        close.push(name[k]);
        open.push(name[k]);
        assert(name@.take(k + 1) =~= name@.take(k as int).push(name@[k as int]));
        assert(close@ =~= seq!['<', '/'] + name@.take(k + 1));
        assert(open@ =~= seq!['<'] + name@.take(k + 1));
        k += 1;
    }
    close.push('>');
    proof {
        reveal_strlit("</");
        reveal_strlit("<");
        reveal_strlit(">");
        assert(name@.take(k as int) =~= name@);
        assert(close@ =~= "</"@ + name@ + ">"@);
        assert(open@ =~= "<"@ + name@);
    }
    let n = name.len();
    let mut q: usize = if c < s.len() { c + 1 } else { c };
    let mut depth: usize = 1;
    let ghost start_q = q;
    assert(oskip_element(s@, p as int) == onested(s@, start_q as int, close@, open@, n as int, 1));
    while q < s.len() && depth > 0
        invariant
            q <= s.len(),
            depth <= q,
            p < q,
            n == name@.len(),
            oskip_element(s@, p as int) == onested(s@, start_q as int, close@, open@, n as int, 1),
            onested(s@, q as int, close@, open@, n as int, depth as nat) == onested(s@, start_q as int, close@, open@, n as int, 1),
        decreases s.len() - q,
    {
        if has_prefix_at(s, q, close.as_slice()) {
            if depth == 1 {
                return past_gt_exec(s, q);
            }
            depth -= 1;
        } else if has_prefix_at(s, q, open.as_slice()) {
            let opens = n < s.len() - q - 1 && (s[q + n + 1] == ' ' || s[q + n + 1] == '>' || s[q + n + 1] == '/');
            if opens {
                depth += 1;
            }
        }
        q += 1;
    }
    q
}

fn parse_attribute_exec(s: &[char], p: usize, name: &str) -> (r: (Option<Vec<char>>, usize))
    requires
        p <= s.len(),
    ensures
        (opt_chars(r.0), r.1 as int) == parse_attribute(s@, p as int, name@),
        p <= r.1 <= s.len(),
        r.0 is Some ==> p < r.1,
{
    let mut pat = chars_of(name);
    pat.push('=');
    proof {
        reveal_strlit("=");
        assert(pat@ =~= name@ + "="@);
    }
    let ghost pv = pat@;
    let mut q = p;
    while q < s.len() && s[q] != '>'
        invariant
            p <= q <= s.len(),
            pat@ == pv,
            pv == name@ + "="@,
            attr_scan(s@, p as int, pv) == attr_scan(s@, q as int, pv),
        decreases s.len() - q,
    {
        let q1 = oskip_exec(s, q);
        if has_prefix_at(s, q1, pat.as_slice()) {
            let q3 = oskip_exec(s, q1 + pat.len());
            if q3 >= s.len() || (s[q3] != '"' && s[q3] != '\'') {
                return (None, p);
            }
            let e = find_from_exec(s, q3 + 1, s[q3]);
            let v = slice_to_vec(s, q3 + 1, e);
            return (Some(v), if e < s.len() { e + 1 } else { e });
        }
        let q2 = if q1 < s.len() { q1 + 1 } else { q1 };
        if q2 <= q {
            return (None, p);
        }
        q = q2;
    }
    (None, p)
}

fn nested_skip_exec(s: &[char], q0: usize, end_tag: &[char]) -> (r: usize)
    requires
        q0 <= s.len(),
    ensures
        r as int == nested_skip(s@, q0 as int, end_tag@),
        q0 <= r <= s.len(),
{
    let mut q = q0;
    while q < s.len() && s[q] == '<' && !has_prefix_at(s, q, end_tag)
        invariant
            q0 <= q <= s.len(),
            nested_skip(s@, q0 as int, end_tag@) == nested_skip(s@, q as int, end_tag@),
        decreases s.len() - q,
    {
        let r = oskip_exec(s, oskip_element_exec(s, q));
        if r <= q {
            return r;
        }
        q = r;
    }
    q
}

fn text_elem_exec(s: &[char], p: usize, tag: &str) -> (r: (Vec<char>, usize))
    requires
        p <= s.len(),
    ensures
        (r.0@, r.1 as int) == text_elem(s@, p as int, tag@),
        p <= r.1 <= s.len(),
        p < s.len() ==> p < r.1,
{
    let a = oskip_exec(s, past_gt_exec(s, p));
    let mut end_tag = vec!['<', '/'];
    let tv = chars_of(tag);
    let mut k: usize = 0;
    while k < tv.len()
        invariant
            k <= tv.len(),
            end_tag@ == seq!['<', '/'] + tv@.take(k as int),
        decreases tv.len() - k,
    {
        end_tag.push(tv[k]);
        assert(tv@.take(k + 1) =~= tv@.take(k as int).push(tv@[k as int]));
        assert(end_tag@ =~= seq!['<', '/'] + tv@.take(k + 1));
        k += 1;
    }
    end_tag.push('>');
    proof {
        reveal_strlit("</");
        reveal_strlit(">");
        assert(tv@.take(k as int) =~= tv@);
        assert(end_tag@ =~= "</"@ + tag@ + ">"@);
    }
    let b = find_from_exec(s, a, '<');
    let c = nested_skip_exec(s, b, end_tag.as_slice());
    let t = trim(slice_to_vec(s, a, b).as_slice());
    if has_prefix_at(s, c, end_tag.as_slice()) {
        (t, past_gt_exec(s, c))
    } else {
        (t, c)
    }
}

fn text_any_exec(s: &[char], p: usize) -> (r: (Vec<char>, usize))
    requires
        p <= s.len(),
    ensures
        (r.0@, r.1 as int) == text_any(s@, p as int),
        p <= r.1 <= s.len(),
        p < s.len() ==> p < r.1,
{
    let a = oskip_exec(s, past_gt_exec(s, p));
    let mut q = a;
    while q < s.len() && !at_exec(s, q, "</")
        invariant
            a <= q <= s.len(),
            any_end(s@, a as int) == any_end(s@, q as int),
        decreases s.len() - q,
    {
        let r = if s[q] == '<' { oskip_element_exec(s, q) } else { q + 1 };
        q = r;
    }
    let t = trim(slice_to_vec(s, a, q).as_slice());
    (t, past_gt_exec(s, q))
}

fn u8_opt_exec(t: &[char]) -> (r: Option<u8>)
    ensures
        r == u8_opt(t@),
{
    assert(t@.subrange(0, t@.len() as int) =~= t@);
    match parse_unsigned(t, 0, t.len(), 10, u8::MAX as u64) {
        Ok(v) => Some(v as u8),
        Err(_) => None,
    }
}

fn number_exec(t: &[char]) -> (r: Option<i64>)
    ensures
        r == odx_number_spec(t@),
{
    let st = string_from_chars(t);
    OdxParser::parse_number(st.as_str())
}

fn dtc_code_exec(t: &[char]) -> (r: u32)
    ensures
        r == dtc_code_of(t@),
{
    match number_exec(t) {
        Some(v) => v as u32,
        None => 0,
    }
}

fn is_text(u: &[char], lit: &str) -> (r: bool)
    ensures
        r == (u@ == lit@),
{
    let l = chars_of(lit);
    chars_eq(u, l.as_slice())
}

fn semantic_exec(v: &[char]) -> (r: ParamSemantic)
    ensures
        r == semantic_of_upper(unicode_uppercase(v@)),
{
    let u = chars_of(to_uppercase(string_from_chars(v).as_str()).as_str());
    let us = u.as_slice();
    if is_text(us, "ID") || is_text(us, "SERVICE-ID") {
        ParamSemantic::ServiceId
    } else if is_text(us, "SUBFUNCTION") {
        ParamSemantic::SubFunction
    } else {
        ParamSemantic::Data
    }
}

fn class_exec(v: &[char]) -> (r: ComparamClass)
    ensures
        r == class_of_upper(unicode_uppercase(v@)),
{
    let u = chars_of(to_uppercase(string_from_chars(v).as_str()).as_str());
    let us = u.as_slice();
    if is_text(us, "INIT") {
        ComparamClass::Init
    } else if is_text(us, "ERRHDL") || is_text(us, "ERROR-HANDLING") {
        ComparamClass::ErrorHandling
    } else if is_text(us, "UNIQUERESPID") || is_text(us, "UNIQUE-RESP-ID") {
        ComparamClass::UniqueRespId
    } else if is_text(us, "BUSTYPE") || is_text(us, "BUS-TYPE") {
        ComparamClass::BusType
    } else {
        ComparamClass::Timing
    }
}

fn or_empty_exec(v: Option<Vec<char>>) -> (r: Vec<char>)
    ensures
        r@ == or_empty(opt_chars(v)),
{
    match v {
        Some(t) => t,
        None => Vec::new(),
    }
}

fn opt_string(v: Option<Vec<char>>) -> (r: Option<String>)
    ensures
        crate::a2l::opt_text(r) == opt_chars(v),
{
    match v {
        Some(t) => Some(string_from_chars(t.as_slice())),
        None => None,
    }
}

// ---------------------------------------------------------------------------
// The elements
// ---------------------------------------------------------------------------

/// A child that a `param` reader knows (SHORT-NAME, BYTE-POSITION, BIT-POSITION, CODED-VALUE, DOP-REF) at `q`: the model after it
/// and the position after it.
pub open spec fn param_step(s: Seq<char>, q: int, m: ParamModel) -> Option<(ParamModel, int)> {
    if at(s, q, "<SHORT-NAME"@) {
        let (t, e) = text_elem(s, q, "SHORT-NAME"@);
        Some((ParamModel { short_name: t, ..m }, e))
    } else if at(s, q, "<BYTE-POSITION"@) {
        let (t, e) = text_elem(s, q, "BYTE-POSITION"@);
        Some((ParamModel { byte_position: u32_opt(t), ..m }, e))
    } else if at(s, q, "<BIT-POSITION"@) {
        let (t, e) = text_elem(s, q, "BIT-POSITION"@);
        Some((ParamModel { bit_position: u8_opt(t), ..m }, e))
    } else if at(s, q, "<CODED-VALUE"@) {
        let (t, e) = text_elem(s, q, "CODED-VALUE"@);
        Some((ParamModel { coded_value: odx_number_spec(t), param_type: ParamType::CodedConst, ..m }, e))
    } else if at(s, q, "<DOP-REF"@) {
        let (v, e0) = parse_attribute(s, q, "ID-REF"@);
        Some((ParamModel { dop_ref: v, ..m }, oskip_element(s, e0)))
    } else {
        None
    }
}

/// The child reader of `param`.
pub open spec fn param_stepper(s: Seq<char>) -> spec_fn(int, ParamModel) -> Option<(ParamModel, int)> {
    |q: int, m: ParamModel| param_step(s, q, m)
}

/// The children from `q` up to `</PARAM` or any closing tag.
pub open spec fn param_loop(s: Seq<char>, q: int, m: ParamModel) -> (ParamModel, int) {
    odx_loop(s, q, "</PARAM"@, "</PARAM"@, true, m, param_stepper(s))
}

/// The element at `p`: its attributes, then its children from a fresh
/// model, and the position after its closing `>`.
pub open spec fn param_elem(s: Seq<char>, p: int) -> (ParamModel, int) {
    let (sv, p1) = parse_attribute(s, p, "SEMANTIC"@);
    let sem = semantic_of_upper(unicode_uppercase(or_empty(sv)));
    let (m, b) = param_loop(s, oskip(s, past_gt(s, p1)), ParamModel { id: Seq::empty(), short_name: Seq::empty(), long_name: None, description: None, param_type: ParamType::Value, semantic: sem, byte_position: None, bit_position: None, byte_size: None, bit_size: None, coded_value: None, dop_ref: None, physical_default: None, mandatory: true });
    (m, past_gt(s, b))
}

/// A child that a `request` reader knows (SHORT-NAME, PARAM) at `q`: the model after it
/// and the position after it.
pub open spec fn request_step(s: Seq<char>, q: int, m: MessageModel) -> Option<(MessageModel, int)> {
    if at(s, q, "<SHORT-NAME"@) {
        let (t, e) = text_elem(s, q, "SHORT-NAME"@);
        Some((MessageModel { short_name: t, ..m }, e))
    } else if at(s, q, "<PARAM"@) {
        let (c, e) = param_elem(s, q);
        Some((MessageModel { params: m.params.push(c), ..m }, e))
    } else {
        None
    }
}

/// The child reader of `request`.
pub open spec fn request_stepper(s: Seq<char>) -> spec_fn(int, MessageModel) -> Option<(MessageModel, int)> {
    |q: int, m: MessageModel| request_step(s, q, m)
}

/// The children from `q` up to `</REQUEST` or any closing tag.
pub open spec fn request_loop(s: Seq<char>, q: int, m: MessageModel) -> (MessageModel, int) {
    odx_loop(s, q, "</REQUEST"@, "</REQUEST"@, true, m, request_stepper(s))
}

/// The element at `p`: its attributes, then its children from a fresh
/// model, and the position after its closing `>`.
pub open spec fn request_elem(s: Seq<char>, p: int) -> (MessageModel, int) {
    let (idv, p1) = parse_attribute(s, p, "ID"@);
    let id = or_empty(idv);
    if at(s, p1, "/>"@) {
        (MessageModel { id: id, short_name: Seq::empty(), params: Seq::empty() }, past_gt(s, p1))
    } else {
        let (m, b) = request_loop(s, oskip(s, past_gt(s, p1)), MessageModel { id: id, short_name: Seq::empty(), params: Seq::empty() });
        (m, past_gt(s, b))
    }
}

/// A child that a `response` reader knows (SHORT-NAME, PARAM) at `q`: the model after it
/// and the position after it.
pub open spec fn response_step(s: Seq<char>, q: int, m: MessageModel) -> Option<(MessageModel, int)> {
    if at(s, q, "<SHORT-NAME"@) {
        let (t, e) = text_elem(s, q, "SHORT-NAME"@);
        Some((MessageModel { short_name: t, ..m }, e))
    } else if at(s, q, "<PARAM"@) {
        let (c, e) = param_elem(s, q);
        Some((MessageModel { params: m.params.push(c), ..m }, e))
    } else {
        None
    }
}

/// The child reader of `response`.
pub open spec fn response_stepper(s: Seq<char>) -> spec_fn(int, MessageModel) -> Option<(MessageModel, int)> {
    |q: int, m: MessageModel| response_step(s, q, m)
}

/// The children from `q` up to `</POS-RESPONSE` or `</NEG-RESPONSE` or any closing tag.
pub open spec fn response_loop(s: Seq<char>, q: int, m: MessageModel) -> (MessageModel, int) {
    odx_loop(s, q, "</POS-RESPONSE"@, "</NEG-RESPONSE"@, true, m, response_stepper(s))
}

/// The element at `p`: its attributes, then its children from a fresh
/// model, and the position after its closing `>`.
pub open spec fn response_elem(s: Seq<char>, p: int) -> (MessageModel, int) {
    let (idv, p1) = parse_attribute(s, p, "ID"@);
    let id = or_empty(idv);
    if at(s, p1, "/>"@) {
        (MessageModel { id: id, short_name: Seq::empty(), params: Seq::empty() }, past_gt(s, p1))
    } else {
        let (m, b) = response_loop(s, oskip(s, past_gt(s, p1)), MessageModel { id: id, short_name: Seq::empty(), params: Seq::empty() });
        (m, past_gt(s, b))
    }
}

/// A child that a `service` reader knows (SHORT-NAME, LONG-NAME, DESC, SEMANTIC, REQUEST-REF, POS-RESPONSE-REF, NEG-RESPONSE-REF) at `q`: the model after it
/// and the position after it.
pub open spec fn service_step(s: Seq<char>, q: int, m: ServiceModel) -> Option<(ServiceModel, int)> {
    if at(s, q, "<SHORT-NAME"@) {
        let (t, e) = text_elem(s, q, "SHORT-NAME"@);
        Some((ServiceModel { short_name: t, ..m }, e))
    } else if at(s, q, "<LONG-NAME"@) {
        let (t, e) = text_elem(s, q, "LONG-NAME"@);
        Some((ServiceModel { long_name: Some(t), ..m }, e))
    } else if at(s, q, "<DESC"@) {
        let (t, e) = text_elem(s, q, "DESC"@);
        Some((ServiceModel { description: Some(t), ..m }, e))
    } else if at(s, q, "<SEMANTIC"@) {
        let (t, e) = text_elem(s, q, "SEMANTIC"@);
        Some((ServiceModel { semantic: Some(t), ..m }, e))
    } else if at(s, q, "<REQUEST-REF"@) || at(s, q, "<REQUEST"@) {
        let (c, e) = request_elem(s, q);
        Some((ServiceModel { request: Some(c), ..m }, e))
    } else if at(s, q, "<POS-RESPONSE-REF"@) || at(s, q, "<POS-RESPONSE"@) {
        let (c, e) = response_elem(s, q);
        Some((ServiceModel { positive_response: Some(c), ..m }, e))
    } else if at(s, q, "<NEG-RESPONSE-REF"@) || at(s, q, "<NEG-RESPONSE"@) {
        let (c, e) = response_elem(s, q);
        Some((ServiceModel { negative_response: Some(c), ..m }, e))
    } else {
        None
    }
}

/// The child reader of `service`.
pub open spec fn service_stepper(s: Seq<char>) -> spec_fn(int, ServiceModel) -> Option<(ServiceModel, int)> {
    |q: int, m: ServiceModel| service_step(s, q, m)
}

/// The children from `q` up to `</DIAG-SERVICE`.
pub open spec fn service_loop(s: Seq<char>, q: int, m: ServiceModel) -> (ServiceModel, int) {
    odx_loop(s, q, "</DIAG-SERVICE"@, "</DIAG-SERVICE"@, false, m, service_stepper(s))
}

/// The element at `p`: its attributes, then its children from a fresh
/// model, and the position after its closing `>`.
pub open spec fn service_elem(s: Seq<char>, p: int) -> (ServiceModel, int) {
    let (idv, p1) = parse_attribute(s, p, "ID"@);
    let id = or_empty(idv);
    let (m, b) = service_loop(s, oskip(s, past_gt(s, p1)), ServiceModel { id: id, short_name: Seq::empty(), long_name: None, description: None, service_id: None, semantic: None, request: None, positive_response: None, negative_response: None, functional_class_refs: Seq::empty(), audience: None, addressing_physical: true, addressing_functional: false });
    (m, past_gt(s, b))
}

/// A child that a `dtc` reader knows (SHORT-NAME, LONG-NAME, DESC, TROUBLE-CODE, DISPLAY-TROUBLE-CODE) at `q`: the model after it
/// and the position after it.
pub open spec fn dtc_step(s: Seq<char>, q: int, m: DtcModel) -> Option<(DtcModel, int)> {
    if at(s, q, "<SHORT-NAME"@) {
        let (t, e) = text_elem(s, q, "SHORT-NAME"@);
        Some((DtcModel { short_name: t, ..m }, e))
    } else if at(s, q, "<LONG-NAME"@) {
        let (t, e) = text_elem(s, q, "LONG-NAME"@);
        Some((DtcModel { long_name: Some(t), ..m }, e))
    } else if at(s, q, "<DESC"@) || at(s, q, "<TEXT"@) {
        let (t, e) = text_any(s, q);
        Some((DtcModel { text: Some(t), ..m }, e))
    } else if at(s, q, "<TROUBLE-CODE"@) {
        let (t, e) = text_elem(s, q, "TROUBLE-CODE"@);
        Some((DtcModel { code: dtc_code_of(t), ..m }, e))
    } else if at(s, q, "<DISPLAY-TROUBLE-CODE"@) {
        let (t, e) = text_elem(s, q, "DISPLAY-TROUBLE-CODE"@);
        Some((DtcModel { display_code: Some(t), ..m }, e))
    } else {
        None
    }
}

/// The child reader of `dtc`.
pub open spec fn dtc_stepper(s: Seq<char>) -> spec_fn(int, DtcModel) -> Option<(DtcModel, int)> {
    |q: int, m: DtcModel| dtc_step(s, q, m)
}

/// The children from `q` up to `</DTC>` or any closing tag.
pub open spec fn dtc_loop(s: Seq<char>, q: int, m: DtcModel) -> (DtcModel, int) {
    odx_loop(s, q, "</DTC>"@, "</DTC>"@, true, m, dtc_stepper(s))
}

/// The element at `p`: its attributes, then its children from a fresh
/// model, and the position after its closing `>`.
pub open spec fn dtc_elem(s: Seq<char>, p: int) -> (DtcModel, int) {
    let (idv, p1) = parse_attribute(s, p, "ID"@);
    let id = or_empty(idv);
    let (m, b) = dtc_loop(s, oskip(s, past_gt(s, p1)), DtcModel { id: id, short_name: Seq::empty(), long_name: None, description: None, code: 0, display_code: None, severity: DtcSeverity::NoSeverity, functional_class_refs: Seq::empty(), text: None, level: None });
    (m, past_gt(s, b))
}

/// A child that a `dtcs` reader knows (DTC) at `q`: the model after it
/// and the position after it.
pub open spec fn dtcs_step(s: Seq<char>, q: int, m: LayerModel) -> Option<(LayerModel, int)> {
    if at(s, q, "<DTC "@) || at(s, q, "<DTC>"@) {
        let (c, e) = dtc_elem(s, q);
        Some((LayerModel { dtcs: m.dtcs.push(c), ..m }, e))
    } else {
        None
    }
}

/// The child reader of `dtcs`.
pub open spec fn dtcs_stepper(s: Seq<char>) -> spec_fn(int, LayerModel) -> Option<(LayerModel, int)> {
    |q: int, m: LayerModel| dtcs_step(s, q, m)
}

/// The children from `q` up to `</DTCS>`.
pub open spec fn dtcs_loop(s: Seq<char>, q: int, m: LayerModel) -> (LayerModel, int) {
    odx_loop(s, q, "</DTCS>"@, "</DTCS>"@, false, m, dtcs_stepper(s))
}

/// A `dtcs` container at `q`: after its opening tag and whitespace, its
/// children, then past its closing `>`.
pub open spec fn dtcs_in(s: Seq<char>, q: int, m: LayerModel) -> (LayerModel, int) {
    let (m2, b) = dtcs_loop(s, oskip(s, past_gt(s, q)), m);
    (m2, past_gt(s, b))
}

/// A child that a `all_dtc` reader knows (DTC) at `q`: the model after it
/// and the position after it.
pub open spec fn all_dtc_step(s: Seq<char>, q: int, m: LayerModel) -> Option<(LayerModel, int)> {
    if at(s, q, "<DTC "@) || at(s, q, "<DTC>"@) {
        let (c, e) = dtc_elem(s, q);
        Some((LayerModel { dtcs: m.dtcs.push(c), ..m }, e))
    } else {
        None
    }
}

/// The child reader of `all_dtc`.
pub open spec fn all_dtc_stepper(s: Seq<char>) -> spec_fn(int, LayerModel) -> Option<(LayerModel, int)> {
    |q: int, m: LayerModel| all_dtc_step(s, q, m)
}

/// The children from `q` up to `</ALL-DTC>`.
pub open spec fn all_dtc_loop(s: Seq<char>, q: int, m: LayerModel) -> (LayerModel, int) {
    odx_loop(s, q, "</ALL-DTC>"@, "</ALL-DTC>"@, false, m, all_dtc_stepper(s))
}

/// A `all_dtc` container at `q`: after its opening tag and whitespace, its
/// children, then past its closing `>`.
pub open spec fn all_dtc_in(s: Seq<char>, q: int, m: LayerModel) -> (LayerModel, int) {
    let (m2, b) = all_dtc_loop(s, oskip(s, past_gt(s, q)), m);
    (m2, past_gt(s, b))
}

/// A child that a `prog_code` reader knows (CODE-FILE, SYNTAX, SOURCE-CODE) at `q`: the model after it
/// and the position after it.
pub open spec fn prog_code_step(s: Seq<char>, q: int, m: JobModel) -> Option<(JobModel, int)> {
    if at(s, q, "<CODE-FILE"@) {
        let (t, e) = text_elem(s, q, "CODE-FILE"@);
        Some((JobModel { code: Some(t), ..m }, e))
    } else if at(s, q, "<SYNTAX"@) {
        let (t, e) = text_elem(s, q, "SYNTAX"@);
        Some((JobModel { prog_language: Some(t), ..m }, e))
    } else if at(s, q, "<SOURCE-CODE"@) {
        let (t, e) = text_elem(s, q, "SOURCE-CODE"@);
        Some((JobModel { code: Some(t), ..m }, e))
    } else {
        None
    }
}

/// The child reader of `prog_code`.
pub open spec fn prog_code_stepper(s: Seq<char>) -> spec_fn(int, JobModel) -> Option<(JobModel, int)> {
    |q: int, m: JobModel| prog_code_step(s, q, m)
}

/// The children from `q` up to `</PROG-CODE`.
pub open spec fn prog_code_loop(s: Seq<char>, q: int, m: JobModel) -> (JobModel, int) {
    odx_loop(s, q, "</PROG-CODE"@, "</PROG-CODE"@, false, m, prog_code_stepper(s))
}

/// A `prog_code` container at `q`: after its opening tag and whitespace, its
/// children, then past its closing `>`.
pub open spec fn prog_code_in(s: Seq<char>, q: int, m: JobModel) -> (JobModel, int) {
    let (m2, b) = prog_code_loop(s, oskip(s, past_gt(s, q)), m);
    (m2, past_gt(s, b))
}

/// A child that a `job` reader knows (SHORT-NAME, DESC, PROG-CODE) at `q`: the model after it
/// and the position after it.
pub open spec fn job_step(s: Seq<char>, q: int, m: JobModel) -> Option<(JobModel, int)> {
    if at(s, q, "<SHORT-NAME"@) {
        let (t, e) = text_elem(s, q, "SHORT-NAME"@);
        Some((JobModel { short_name: t, ..m }, e))
    } else if at(s, q, "<DESC"@) {
        let (t, e) = text_elem(s, q, "DESC"@);
        Some((JobModel { description: Some(t), ..m }, e))
    } else if at(s, q, "<PROG-CODE"@) {
        Some(prog_code_in(s, q, m))
    } else {
        None
    }
}

/// The child reader of `job`.
pub open spec fn job_stepper(s: Seq<char>) -> spec_fn(int, JobModel) -> Option<(JobModel, int)> {
    |q: int, m: JobModel| job_step(s, q, m)
}

/// The children from `q` up to `</SINGLE-ECU-JOB`.
pub open spec fn job_loop(s: Seq<char>, q: int, m: JobModel) -> (JobModel, int) {
    odx_loop(s, q, "</SINGLE-ECU-JOB"@, "</SINGLE-ECU-JOB"@, false, m, job_stepper(s))
}

/// The element at `p`: its attributes, then its children from a fresh
/// model, and the position after its closing `>`.
pub open spec fn job_elem(s: Seq<char>, p: int) -> (JobModel, int) {
    let (idv, p1) = parse_attribute(s, p, "ID"@);
    let id = or_empty(idv);
    let (m, b) = job_loop(s, oskip(s, past_gt(s, p1)), JobModel { id: id, short_name: Seq::empty(), description: None, functional_class_refs: Seq::empty(), audience: None, prog_language: None, code: None });
    (m, past_gt(s, b))
}

/// A child that a `comms` reader knows (DIAG-SERVICE, SINGLE-ECU-JOB) at `q`: the model after it
/// and the position after it.
pub open spec fn comms_step(s: Seq<char>, q: int, m: LayerModel) -> Option<(LayerModel, int)> {
    if at(s, q, "<DIAG-SERVICE"@) {
        let (c, e) = service_elem(s, q);
        Some((LayerModel { services: m.services.push(c), ..m }, e))
    } else if at(s, q, "<SINGLE-ECU-JOB"@) {
        let (c, e) = job_elem(s, q);
        Some((LayerModel { single_ecu_jobs: m.single_ecu_jobs.push(c), ..m }, e))
    } else {
        None
    }
}

/// The child reader of `comms`.
pub open spec fn comms_stepper(s: Seq<char>) -> spec_fn(int, LayerModel) -> Option<(LayerModel, int)> {
    |q: int, m: LayerModel| comms_step(s, q, m)
}

/// The children from `q` up to `</DIAG-COMMS`.
pub open spec fn comms_loop(s: Seq<char>, q: int, m: LayerModel) -> (LayerModel, int) {
    odx_loop(s, q, "</DIAG-COMMS"@, "</DIAG-COMMS"@, false, m, comms_stepper(s))
}

/// A `comms` container at `q`: after its opening tag and whitespace, its
/// children, then past its closing `>`.
pub open spec fn comms_in(s: Seq<char>, q: int, m: LayerModel) -> (LayerModel, int) {
    let (m2, b) = comms_loop(s, oskip(s, past_gt(s, q)), m);
    (m2, past_gt(s, b))
}

/// A child that a `services` reader knows (DIAG-SERVICE) at `q`: the model after it
/// and the position after it.
pub open spec fn services_step(s: Seq<char>, q: int, m: LayerModel) -> Option<(LayerModel, int)> {
    if at(s, q, "<DIAG-SERVICE"@) {
        let (c, e) = service_elem(s, q);
        Some((LayerModel { services: m.services.push(c), ..m }, e))
    } else {
        None
    }
}

/// The child reader of `services`.
pub open spec fn services_stepper(s: Seq<char>) -> spec_fn(int, LayerModel) -> Option<(LayerModel, int)> {
    |q: int, m: LayerModel| services_step(s, q, m)
}

/// The children from `q` up to `</DIAG-SERVICES`.
pub open spec fn services_loop(s: Seq<char>, q: int, m: LayerModel) -> (LayerModel, int) {
    odx_loop(s, q, "</DIAG-SERVICES"@, "</DIAG-SERVICES"@, false, m, services_stepper(s))
}

/// A `services` container at `q`: after its opening tag and whitespace, its
/// children, then past its closing `>`.
pub open spec fn services_in(s: Seq<char>, q: int, m: LayerModel) -> (LayerModel, int) {
    let (m2, b) = services_loop(s, oskip(s, past_gt(s, q)), m);
    (m2, past_gt(s, b))
}

/// A child that a `layer` reader knows (SHORT-NAME, LONG-NAME, DESC, DIAG-COMMS, DIAG-SERVICES, ALL-DTC, DTCS) at `q`: the model after it
/// and the position after it.
pub open spec fn layer_step(s: Seq<char>, q: int, m: LayerModel) -> Option<(LayerModel, int)> {
    if at(s, q, "<SHORT-NAME"@) {
        let (t, e) = text_elem(s, q, "SHORT-NAME"@);
        Some((LayerModel { short_name: t, ..m }, e))
    } else if at(s, q, "<LONG-NAME"@) {
        let (t, e) = text_elem(s, q, "LONG-NAME"@);
        Some((LayerModel { long_name: Some(t), ..m }, e))
    } else if at(s, q, "<DESC"@) {
        let (t, e) = text_elem(s, q, "DESC"@);
        Some((LayerModel { description: Some(t), ..m }, e))
    } else if at(s, q, "<DIAG-COMMS"@) {
        Some(comms_in(s, q, m))
    } else if at(s, q, "<DIAG-SERVICES"@) {
        Some(services_in(s, q, m))
    } else if at(s, q, "<ALL-DTC"@) {
        Some(all_dtc_in(s, q, m))
    } else if at(s, q, "<DTCS"@) {
        Some(dtcs_in(s, q, m))
    } else {
        None
    }
}

/// The child reader of `layer`.
pub open spec fn layer_stepper(s: Seq<char>) -> spec_fn(int, LayerModel) -> Option<(LayerModel, int)> {
    |q: int, m: LayerModel| layer_step(s, q, m)
}

/// A child that a `comparam` reader knows (SHORT-NAME, DESC, PHYSICAL-DEFAULT-VALUE, DOP-REF) at `q`: the model after it
/// and the position after it.
pub open spec fn comparam_step(s: Seq<char>, q: int, m: ComparamModel) -> Option<(ComparamModel, int)> {
    if at(s, q, "<SHORT-NAME"@) {
        let (t, e) = text_elem(s, q, "SHORT-NAME"@);
        Some((ComparamModel { short_name: t, ..m }, e))
    } else if at(s, q, "<DESC"@) {
        let (t, e) = text_elem(s, q, "DESC"@);
        Some((ComparamModel { description: Some(t), ..m }, e))
    } else if at(s, q, "<PHYSICAL-DEFAULT-VALUE"@) {
        let (t, e) = text_elem(s, q, "PHYSICAL-DEFAULT-VALUE"@);
        Some((ComparamModel { physical_default: Some(t), ..m }, e))
    } else if at(s, q, "<DOP-REF"@) {
        let (v, e0) = parse_attribute(s, q, "ID-REF"@);
        Some((ComparamModel { dop_ref: v, ..m }, oskip_element(s, e0)))
    } else {
        None
    }
}

/// The child reader of `comparam`.
pub open spec fn comparam_stepper(s: Seq<char>) -> spec_fn(int, ComparamModel) -> Option<(ComparamModel, int)> {
    |q: int, m: ComparamModel| comparam_step(s, q, m)
}

/// The children from `q` up to `</COMPARAM`.
pub open spec fn comparam_loop(s: Seq<char>, q: int, m: ComparamModel) -> (ComparamModel, int) {
    odx_loop(s, q, "</COMPARAM"@, "</COMPARAM"@, false, m, comparam_stepper(s))
}

/// The element at `p`: its attributes, then its children from a fresh
/// model, and the position after its closing `>`.
pub open spec fn comparam_elem(s: Seq<char>, p: int) -> (ComparamModel, int) {
    let (idv, p0) = parse_attribute(s, p, "ID"@);
    let id = or_empty(idv);
    let (cv, p1) = parse_attribute(s, p0, "PARAM-CLASS"@);
    let class = class_of_upper(unicode_uppercase(or_empty(cv)));
    let (m, b) = comparam_loop(s, oskip(s, past_gt(s, p1)), ComparamModel { id: id, short_name: Seq::empty(), description: None, param_class: class, physical_default: None, dop_ref: None });
    (m, past_gt(s, b))
}

/// A child that a `comparams` reader knows (COMPARAM) at `q`: the model after it
/// and the position after it.
pub open spec fn comparams_step(s: Seq<char>, q: int, m: ComparamSpecModel) -> Option<(ComparamSpecModel, int)> {
    if at(s, q, "<COMPARAM"@) {
        let (c, e) = comparam_elem(s, q);
        Some((ComparamSpecModel { comparams: m.comparams.push(c), ..m }, e))
    } else {
        None
    }
}

/// The child reader of `comparams`.
pub open spec fn comparams_stepper(s: Seq<char>) -> spec_fn(int, ComparamSpecModel) -> Option<(ComparamSpecModel, int)> {
    |q: int, m: ComparamSpecModel| comparams_step(s, q, m)
}

/// The children from `q` up to `</COMPARAMS`.
pub open spec fn comparams_loop(s: Seq<char>, q: int, m: ComparamSpecModel) -> (ComparamSpecModel, int) {
    odx_loop(s, q, "</COMPARAMS"@, "</COMPARAMS"@, false, m, comparams_stepper(s))
}

/// A `comparams` container at `q`: after its opening tag and whitespace, its
/// children, then past its closing `>`.
pub open spec fn comparams_in(s: Seq<char>, q: int, m: ComparamSpecModel) -> (ComparamSpecModel, int) {
    let (m2, b) = comparams_loop(s, oskip(s, past_gt(s, q)), m);
    (m2, past_gt(s, b))
}

/// A child that a `comparam_spec` reader knows (SHORT-NAME, DESC, PROT-STACK-SNREF, COMPARAMS) at `q`: the model after it
/// and the position after it.
pub open spec fn comparam_spec_step(s: Seq<char>, q: int, m: ComparamSpecModel) -> Option<(ComparamSpecModel, int)> {
    if at(s, q, "<SHORT-NAME"@) {
        let (t, e) = text_elem(s, q, "SHORT-NAME"@);
        Some((ComparamSpecModel { short_name: t, ..m }, e))
    } else if at(s, q, "<DESC"@) {
        let (t, e) = text_elem(s, q, "DESC"@);
        Some((ComparamSpecModel { description: Some(t), ..m }, e))
    } else if at(s, q, "<PROT-STACK-SNREF"@) {
        let (v, e0) = parse_attribute(s, q, "SHORT-NAME"@);
        Some((ComparamSpecModel { protocol_type: v, ..m }, oskip_element(s, e0)))
    } else if at(s, q, "<COMPARAMS"@) {
        Some(comparams_in(s, q, m))
    } else {
        None
    }
}

/// The child reader of `comparam_spec`.
pub open spec fn comparam_spec_stepper(s: Seq<char>) -> spec_fn(int, ComparamSpecModel) -> Option<(ComparamSpecModel, int)> {
    |q: int, m: ComparamSpecModel| comparam_spec_step(s, q, m)
}

/// The children from `q` up to `</COMPARAM-SPEC`.
pub open spec fn comparam_spec_loop(s: Seq<char>, q: int, m: ComparamSpecModel) -> (ComparamSpecModel, int) {
    odx_loop(s, q, "</COMPARAM-SPEC"@, "</COMPARAM-SPEC"@, false, m, comparam_spec_stepper(s))
}

/// The element at `p`: its attributes, then its children from a fresh
/// model, and the position after its closing `>`.
pub open spec fn comparam_spec_elem(s: Seq<char>, p: int) -> (ComparamSpecModel, int) {
    let (idv, p1) = parse_attribute(s, p, "ID"@);
    let id = or_empty(idv);
    let (m, b) = comparam_spec_loop(s, oskip(s, past_gt(s, p1)), ComparamSpecModel { id: id, short_name: Seq::empty(), description: None, protocol_type: None, comparams: Seq::empty() });
    (m, past_gt(s, b))
}

/// A child that a `link` reader knows (SHORT-NAME, DESC, PROTOCOL-REF, PHYSICAL-VEHICLE-LINK-REF) at `q`: the model after it
/// and the position after it.
pub open spec fn link_step(s: Seq<char>, q: int, m: LinkModel) -> Option<(LinkModel, int)> {
    if at(s, q, "<SHORT-NAME"@) {
        let (t, e) = text_elem(s, q, "SHORT-NAME"@);
        Some((LinkModel { short_name: t, ..m }, e))
    } else if at(s, q, "<DESC"@) {
        let (t, e) = text_elem(s, q, "DESC"@);
        Some((LinkModel { description: Some(t), ..m }, e))
    } else if at(s, q, "<PROTOCOL-REF"@) {
        let (v, e0) = parse_attribute(s, q, "ID-REF"@);
        Some((LinkModel { protocol_ref: v, ..m }, oskip_element(s, e0)))
    } else if at(s, q, "<PHYSICAL-VEHICLE-LINK-REF"@) {
        let (v, e0) = parse_attribute(s, q, "ID-REF"@);
        Some((LinkModel { physical_vehicle_link_ref: v, ..m }, oskip_element(s, e0)))
    } else {
        None
    }
}

/// The child reader of `link`.
pub open spec fn link_stepper(s: Seq<char>) -> spec_fn(int, LinkModel) -> Option<(LinkModel, int)> {
    |q: int, m: LinkModel| link_step(s, q, m)
}

/// The children from `q` up to `</LOGICAL-LINK`.
pub open spec fn link_loop(s: Seq<char>, q: int, m: LinkModel) -> (LinkModel, int) {
    odx_loop(s, q, "</LOGICAL-LINK"@, "</LOGICAL-LINK"@, false, m, link_stepper(s))
}

/// The element at `p`: its attributes, then its children from a fresh
/// model, and the position after its closing `>`.
pub open spec fn link_elem(s: Seq<char>, p: int) -> (LinkModel, int) {
    let p1 = p;
    let (m, b) = link_loop(s, oskip(s, past_gt(s, p1)), LinkModel { short_name: Seq::empty(), description: None, protocol_ref: None, physical_vehicle_link_ref: None });
    (m, past_gt(s, b))
}

/// A child that a `links` reader knows (LOGICAL-LINK) at `q`: the model after it
/// and the position after it.
pub open spec fn links_step(s: Seq<char>, q: int, m: VehicleInfoModel) -> Option<(VehicleInfoModel, int)> {
    if at(s, q, "<LOGICAL-LINK"@) {
        let (c, e) = link_elem(s, q);
        Some((VehicleInfoModel { logical_links: m.logical_links.push(c), ..m }, e))
    } else {
        None
    }
}

/// The child reader of `links`.
pub open spec fn links_stepper(s: Seq<char>) -> spec_fn(int, VehicleInfoModel) -> Option<(VehicleInfoModel, int)> {
    |q: int, m: VehicleInfoModel| links_step(s, q, m)
}

/// The children from `q` up to `</LOGICAL-LINKS`.
pub open spec fn links_loop(s: Seq<char>, q: int, m: VehicleInfoModel) -> (VehicleInfoModel, int) {
    odx_loop(s, q, "</LOGICAL-LINKS"@, "</LOGICAL-LINKS"@, false, m, links_stepper(s))
}

/// A `links` container at `q`: after its opening tag and whitespace, its
/// children, then past its closing `>`.
pub open spec fn links_in(s: Seq<char>, q: int, m: VehicleInfoModel) -> (VehicleInfoModel, int) {
    let (m2, b) = links_loop(s, oskip(s, past_gt(s, q)), m);
    (m2, past_gt(s, b))
}

/// A child that a `vehicle` reader knows (SHORT-NAME, LONG-NAME, DESC, LOGICAL-LINKS) at `q`: the model after it
/// and the position after it.
pub open spec fn vehicle_step(s: Seq<char>, q: int, m: VehicleInfoModel) -> Option<(VehicleInfoModel, int)> {
    if at(s, q, "<SHORT-NAME"@) {
        let (t, e) = text_elem(s, q, "SHORT-NAME"@);
        Some((VehicleInfoModel { short_name: t, ..m }, e))
    } else if at(s, q, "<LONG-NAME"@) {
        let (t, e) = text_elem(s, q, "LONG-NAME"@);
        Some((VehicleInfoModel { long_name: Some(t), ..m }, e))
    } else if at(s, q, "<DESC"@) {
        let (t, e) = text_elem(s, q, "DESC"@);
        Some((VehicleInfoModel { description: Some(t), ..m }, e))
    } else if at(s, q, "<LOGICAL-LINKS"@) {
        Some(links_in(s, q, m))
    } else {
        None
    }
}

/// The child reader of `vehicle`.
pub open spec fn vehicle_stepper(s: Seq<char>) -> spec_fn(int, VehicleInfoModel) -> Option<(VehicleInfoModel, int)> {
    |q: int, m: VehicleInfoModel| vehicle_step(s, q, m)
}

/// The children from `q` up to `</VEHICLE-INFO`.
pub open spec fn vehicle_loop(s: Seq<char>, q: int, m: VehicleInfoModel) -> (VehicleInfoModel, int) {
    odx_loop(s, q, "</VEHICLE-INFO"@, "</VEHICLE-INFO"@, false, m, vehicle_stepper(s))
}

/// The element at `p`: its attributes, then its children from a fresh
/// model, and the position after its closing `>`.
pub open spec fn vehicle_elem(s: Seq<char>, p: int) -> (VehicleInfoModel, int) {
    let p1 = p;
    let (m, b) = vehicle_loop(s, oskip(s, past_gt(s, p1)), VehicleInfoModel { short_name: Seq::empty(), long_name: None, description: None, logical_links: Seq::empty() });
    (m, past_gt(s, b))
}

/// A child that a `container` reader knows (PROTOCOL) at `q`: the model after it
/// and the position after it.
pub open spec fn container_step(s: Seq<char>, q: int, m: OdxModel) -> Option<(OdxModel, int)> {
    if at(s, q, "<PROTOCOL"@) || at(s, q, "<BASE-VARIANT"@) || at(s, q, "<ECU-VARIANT"@) || at(s, q, "<FUNCTIONAL-GROUP"@) {
        let (c, e) = layer_elem(s, q);
        Some((OdxModel { diag_layers: m.diag_layers.push(c), ..m }, e))
    } else {
        None
    }
}

/// The child reader of `container`.
pub open spec fn container_stepper(s: Seq<char>) -> spec_fn(int, OdxModel) -> Option<(OdxModel, int)> {
    |q: int, m: OdxModel| container_step(s, q, m)
}

/// The children from `q` up to `</DIAG-LAYER-CONTAINER`.
pub open spec fn container_loop(s: Seq<char>, q: int, m: OdxModel) -> (OdxModel, int) {
    odx_loop(s, q, "</DIAG-LAYER-CONTAINER"@, "</DIAG-LAYER-CONTAINER"@, false, m, container_stepper(s))
}

/// A `container` container at `q`: after its opening tag and whitespace, its
/// children, then past its closing `>`.
pub open spec fn container_in(s: Seq<char>, q: int, m: OdxModel) -> (OdxModel, int) {
    let (m2, b) = container_loop(s, oskip(s, past_gt(s, q)), m);
    (m2, past_gt(s, b))
}

/// A child that a `root` reader knows (COMPARAM-SPEC, DIAG-LAYER-CONTAINER, VEHICLE-INFO) at `q`: the model after it
/// and the position after it.
pub open spec fn root_step(s: Seq<char>, q: int, m: OdxModel) -> Option<(OdxModel, int)> {
    if at(s, q, "<COMPARAM-SPEC"@) {
        let (c, e) = comparam_spec_elem(s, q);
        Some((OdxModel { comparam_specs: m.comparam_specs.push(c), ..m }, e))
    } else if at(s, q, "<DIAG-LAYER-CONTAINER"@) {
        Some(container_in(s, q, m))
    } else if at(s, q, "<VEHICLE-INFO"@) {
        let (c, e) = vehicle_elem(s, q);
        Some((OdxModel { vehicle_info: Some(c), ..m }, e))
    } else {
        None
    }
}

/// The child reader of `root`.
pub open spec fn root_stepper(s: Seq<char>) -> spec_fn(int, OdxModel) -> Option<(OdxModel, int)> {
    |q: int, m: OdxModel| root_step(s, q, m)
}

/// The children from `q` up to `</ODX`.
pub open spec fn root_loop(s: Seq<char>, q: int, m: OdxModel) -> (OdxModel, int) {
    odx_loop(s, q, "</ODX"@, "</ODX"@, false, m, root_stepper(s))
}

/// A `root` element at `q`: after its opening tag and whitespace, its
/// children.
pub open spec fn root_in(s: Seq<char>, q: int, m: OdxModel) -> (OdxModel, int) {
    root_loop(s, oskip(s, past_gt(s, q)), m)
}

/// A child that a `catalog` reader knows (SHORT-NAME, LONG-NAME, DIAG-LAYER) at `q`: the model after it
/// and the position after it.
pub open spec fn catalog_step(s: Seq<char>, q: int, m: OdxModel) -> Option<(OdxModel, int)> {
    if at(s, q, "<SHORT-NAME"@) {
        let (t, e) = text_elem(s, q, "SHORT-NAME"@);
        Some((OdxModel { short_name: t, ..m }, e))
    } else if at(s, q, "<LONG-NAME"@) {
        let (t, e) = text_elem(s, q, "LONG-NAME"@);
        Some((OdxModel { long_name: Some(t), ..m }, e))
    } else if at(s, q, "<DIAG-LAYER"@) && !at(s, q, "<DIAG-LAYER-CONTAINER"@) {
        let (c, e) = layer_elem(s, q);
        Some((OdxModel { diag_layers: m.diag_layers.push(c), ..m }, e))
    } else {
        None
    }
}

/// The child reader of `catalog`.
pub open spec fn catalog_stepper(s: Seq<char>) -> spec_fn(int, OdxModel) -> Option<(OdxModel, int)> {
    |q: int, m: OdxModel| catalog_step(s, q, m)
}

/// The children from `q` up to `</CATALOG`.
pub open spec fn catalog_loop(s: Seq<char>, q: int, m: OdxModel) -> (OdxModel, int) {
    odx_loop(s, q, "</CATALOG"@, "</CATALOG"@, false, m, catalog_stepper(s))
}

/// A `catalog` element at `q`: after its opening tag and whitespace, its
/// children.
pub open spec fn catalog_in(s: Seq<char>, q: int, m: OdxModel) -> (OdxModel, int) {
    catalog_loop(s, oskip(s, past_gt(s, q)), m)
}

fn param_step_exec(s: &[char], q: usize, m: &mut Param) -> (r: Option<usize>)
    requires
        q < s.len(),
    ensures
        match param_step(s@, q as int, old(m)@) {
            Some((m2, e)) => r == Some(e as usize) && final(m)@ == m2 && q < e <= s.len(),
            None => r is None && final(m)@ == old(m)@,
        },
{
    if at_exec(s, q, "<SHORT-NAME") {
        let (t, e) = text_elem_exec(s, q, "SHORT-NAME");
        m.short_name = string_from_chars(t.as_slice());
        Some(e)
    } else if at_exec(s, q, "<BYTE-POSITION") {
        let (t, e) = text_elem_exec(s, q, "BYTE-POSITION");
        m.byte_position = u32_opt_exec(t.as_slice());
        Some(e)
    } else if at_exec(s, q, "<BIT-POSITION") {
        let (t, e) = text_elem_exec(s, q, "BIT-POSITION");
        m.bit_position = u8_opt_exec(t.as_slice());
        Some(e)
    } else if at_exec(s, q, "<CODED-VALUE") {
        let (t, e) = text_elem_exec(s, q, "CODED-VALUE");
        m.coded_value = number_exec(t.as_slice());
        m.param_type = ParamType::CodedConst;
        Some(e)
    } else if at_exec(s, q, "<DOP-REF") {
        proof {
            reveal_strlit("<DOP-REF");
            if at(s@, q as int, "<DOP-REF"@) {
                assert(s@.subrange(q as int, q + 8)[0] == s@[q as int]);
            }
        }
        let (v, e0) = parse_attribute_exec(s, q, "ID-REF");
        m.dop_ref = opt_string(v);
        Some(oskip_element_exec(s, e0))
    } else {
        None
    }
}

fn param_loop_exec(s: &[char], q0: usize, m: &mut Param) -> (e: usize)
    requires
        q0 <= s.len(),
    ensures
        (final(m)@, e as int) == param_loop(s@, q0 as int, old(m)@),
        q0 <= e <= s.len(),
{
    let mut q = q0;
    loop
        invariant_except_break
            param_loop(s@, q0 as int, old(m)@) == param_loop(s@, q as int, m@),
        invariant
            q0 <= q <= s.len(),
        ensures
            param_loop(s@, q0 as int, old(m)@) == (m@, q as int),
            q0 <= q <= s.len(),
        decreases s.len() - q,
    {
        if q >= s.len() || at_exec(s, q, "</PARAM") || at_exec(s, q, "</PARAM") {
            break;
        }
        let q1 = oskip_exec(s, q);
        if q1 >= s.len() {
            q = q1;
            break;
        }
        let r = param_step_exec(s, q1, m);
        let stop = r.is_none() && !at_exec(s, q1, "<!--") && at_exec(s, q1, "</");
        if stop {
            q = q1;
            break;
        }
        let q2: usize = match r {
            Some(e) => e,
            None => if at_exec(s, q1, "<!--") {
                comment_end_exec(s, q1)
            } else if s[q1] == '<' {
                oskip_element_exec(s, q1)
            } else {
                q1 + 1
            },
        };
        if q2 <= q {
            q = q2;
            break;
        }
        q = q2;
    }
    q
}

fn param_elem_exec(s: &[char], p: usize) -> (r: (Param, usize))
    requires
        p < s.len(),
    ensures
        (r.0@, r.1 as int) == param_elem(s@, p as int),
        p < r.1 <= s.len(),
{
    let (sv, p1) = parse_attribute_exec(s, p, "SEMANTIC");
    let svv = or_empty_exec(sv);
    let sem = semantic_exec(svv.as_slice());
    let mut m = Param { id: String::new(), short_name: String::new(), long_name: None, description: None, param_type: ParamType::Value, semantic: sem, byte_position: None, bit_position: None, byte_size: None, bit_size: None, coded_value: None, dop_ref: None, physical_default: None, mandatory: true };
    proof {
        assert(m@ == ParamModel { id: Seq::empty(), short_name: Seq::empty(), long_name: None, description: None, param_type: ParamType::Value, semantic: sem, byte_position: None, bit_position: None, byte_size: None, bit_size: None, coded_value: None, dop_ref: None, physical_default: None, mandatory: true });
    }
    let a = oskip_exec(s, past_gt_exec(s, p1));
    let b = param_loop_exec(s, a, &mut m);
    let e = past_gt_exec(s, b);
    (m, e)
}

fn request_step_exec(s: &[char], q: usize, m: &mut Request) -> (r: Option<usize>)
    requires
        q < s.len(),
    ensures
        match request_step(s@, q as int, old(m)@) {
            Some((m2, e)) => r == Some(e as usize) && final(m)@ == m2 && q < e <= s.len(),
            None => r is None && final(m)@ == old(m)@,
        },
{
    if at_exec(s, q, "<SHORT-NAME") {
        let (t, e) = text_elem_exec(s, q, "SHORT-NAME");
        m.short_name = string_from_chars(t.as_slice());
        Some(e)
    } else if at_exec(s, q, "<PARAM") {
        let (c, e) = param_elem_exec(s, q);
        let ghost before = m@;
        let ghost cv = c@;
        m.params.push(c);
        assert(m@.params =~= before.params.push(cv));
        Some(e)
    } else {
        None
    }
}

fn request_loop_exec(s: &[char], q0: usize, m: &mut Request) -> (e: usize)
    requires
        q0 <= s.len(),
    ensures
        (final(m)@, e as int) == request_loop(s@, q0 as int, old(m)@),
        q0 <= e <= s.len(),
{
    let mut q = q0;
    loop
        invariant_except_break
            request_loop(s@, q0 as int, old(m)@) == request_loop(s@, q as int, m@),
        invariant
            q0 <= q <= s.len(),
        ensures
            request_loop(s@, q0 as int, old(m)@) == (m@, q as int),
            q0 <= q <= s.len(),
        decreases s.len() - q,
    {
        if q >= s.len() || at_exec(s, q, "</REQUEST") || at_exec(s, q, "</REQUEST") {
            break;
        }
        let q1 = oskip_exec(s, q);
        if q1 >= s.len() {
            q = q1;
            break;
        }
        let r = request_step_exec(s, q1, m);
        let stop = r.is_none() && !at_exec(s, q1, "<!--") && at_exec(s, q1, "</");
        if stop {
            q = q1;
            break;
        }
        let q2: usize = match r {
            Some(e) => e,
            None => if at_exec(s, q1, "<!--") {
                comment_end_exec(s, q1)
            } else if s[q1] == '<' {
                oskip_element_exec(s, q1)
            } else {
                q1 + 1
            },
        };
        if q2 <= q {
            q = q2;
            break;
        }
        q = q2;
    }
    q
}

fn request_elem_exec(s: &[char], p: usize) -> (r: (Request, usize))
    requires
        p < s.len(),
    ensures
        (r.0@, r.1 as int) == request_elem(s@, p as int),
        p < r.1 <= s.len(),
{
    let (idv, p1) = parse_attribute_exec(s, p, "ID");
    let id = or_empty_exec(idv);
    let mut m = Request { id: string_from_chars(id.as_slice()), short_name: String::new(), params: Vec::new() };
    proof {
        assert(m@.params =~= Seq::empty());
        assert(m@ == MessageModel { id: id@, short_name: Seq::empty(), params: Seq::empty() });
    }
    if at_exec(s, p1, "/>") {
        let e = past_gt_exec(s, p1);
        return (m, e);
    }
    let a = oskip_exec(s, past_gt_exec(s, p1));
    let b = request_loop_exec(s, a, &mut m);
    let e = past_gt_exec(s, b);
    (m, e)
}

fn response_step_exec(s: &[char], q: usize, m: &mut Response) -> (r: Option<usize>)
    requires
        q < s.len(),
    ensures
        match response_step(s@, q as int, old(m)@) {
            Some((m2, e)) => r == Some(e as usize) && final(m)@ == m2 && q < e <= s.len(),
            None => r is None && final(m)@ == old(m)@,
        },
{
    if at_exec(s, q, "<SHORT-NAME") {
        let (t, e) = text_elem_exec(s, q, "SHORT-NAME");
        m.short_name = string_from_chars(t.as_slice());
        Some(e)
    } else if at_exec(s, q, "<PARAM") {
        let (c, e) = param_elem_exec(s, q);
        let ghost before = m@;
        let ghost cv = c@;
        m.params.push(c);
        assert(m@.params =~= before.params.push(cv));
        Some(e)
    } else {
        None
    }
}

fn response_loop_exec(s: &[char], q0: usize, m: &mut Response) -> (e: usize)
    requires
        q0 <= s.len(),
    ensures
        (final(m)@, e as int) == response_loop(s@, q0 as int, old(m)@),
        q0 <= e <= s.len(),
{
    let mut q = q0;
    loop
        invariant_except_break
            response_loop(s@, q0 as int, old(m)@) == response_loop(s@, q as int, m@),
        invariant
            q0 <= q <= s.len(),
        ensures
            response_loop(s@, q0 as int, old(m)@) == (m@, q as int),
            q0 <= q <= s.len(),
        decreases s.len() - q,
    {
        if q >= s.len() || at_exec(s, q, "</POS-RESPONSE") || at_exec(s, q, "</NEG-RESPONSE") {
            break;
        }
        let q1 = oskip_exec(s, q);
        if q1 >= s.len() {
            q = q1;
            break;
        }
        let r = response_step_exec(s, q1, m);
        let stop = r.is_none() && !at_exec(s, q1, "<!--") && at_exec(s, q1, "</");
        if stop {
            q = q1;
            break;
        }
        let q2: usize = match r {
            Some(e) => e,
            None => if at_exec(s, q1, "<!--") {
                comment_end_exec(s, q1)
            } else if s[q1] == '<' {
                oskip_element_exec(s, q1)
            } else {
                q1 + 1
            },
        };
        if q2 <= q {
            q = q2;
            break;
        }
        q = q2;
    }
    q
}

fn response_elem_exec(s: &[char], p: usize) -> (r: (Response, usize))
    requires
        p < s.len(),
    ensures
        (r.0@, r.1 as int) == response_elem(s@, p as int),
        p < r.1 <= s.len(),
{
    let (idv, p1) = parse_attribute_exec(s, p, "ID");
    let id = or_empty_exec(idv);
    let mut m = Response { id: string_from_chars(id.as_slice()), short_name: String::new(), params: Vec::new() };
    proof {
        assert(m@.params =~= Seq::empty());
        assert(m@ == MessageModel { id: id@, short_name: Seq::empty(), params: Seq::empty() });
    }
    if at_exec(s, p1, "/>") {
        let e = past_gt_exec(s, p1);
        return (m, e);
    }
    let a = oskip_exec(s, past_gt_exec(s, p1));
    let b = response_loop_exec(s, a, &mut m);
    let e = past_gt_exec(s, b);
    (m, e)
}

fn service_step_exec(s: &[char], q: usize, m: &mut DiagService) -> (r: Option<usize>)
    requires
        q < s.len(),
    ensures
        match service_step(s@, q as int, old(m)@) {
            Some((m2, e)) => r == Some(e as usize) && final(m)@ == m2 && q < e <= s.len(),
            None => r is None && final(m)@ == old(m)@,
        },
{
    if at_exec(s, q, "<SHORT-NAME") {
        let (t, e) = text_elem_exec(s, q, "SHORT-NAME");
        m.short_name = string_from_chars(t.as_slice());
        Some(e)
    } else if at_exec(s, q, "<LONG-NAME") {
        let (t, e) = text_elem_exec(s, q, "LONG-NAME");
        m.long_name = Some(string_from_chars(t.as_slice()));
        Some(e)
    } else if at_exec(s, q, "<DESC") {
        let (t, e) = text_elem_exec(s, q, "DESC");
        m.description = Some(string_from_chars(t.as_slice()));
        Some(e)
    } else if at_exec(s, q, "<SEMANTIC") {
        let (t, e) = text_elem_exec(s, q, "SEMANTIC");
        m.semantic = Some(string_from_chars(t.as_slice()));
        Some(e)
    } else if at_exec(s, q, "<REQUEST-REF") || at_exec(s, q, "<REQUEST") {
        let (c, e) = request_elem_exec(s, q);
        m.request = Some(c);
        Some(e)
    } else if at_exec(s, q, "<POS-RESPONSE-REF") || at_exec(s, q, "<POS-RESPONSE") {
        let (c, e) = response_elem_exec(s, q);
        m.positive_response = Some(c);
        Some(e)
    } else if at_exec(s, q, "<NEG-RESPONSE-REF") || at_exec(s, q, "<NEG-RESPONSE") {
        let (c, e) = response_elem_exec(s, q);
        m.negative_response = Some(c);
        Some(e)
    } else {
        None
    }
}

fn service_loop_exec(s: &[char], q0: usize, m: &mut DiagService) -> (e: usize)
    requires
        q0 <= s.len(),
    ensures
        (final(m)@, e as int) == service_loop(s@, q0 as int, old(m)@),
        q0 <= e <= s.len(),
{
    let mut q = q0;
    loop
        invariant_except_break
            service_loop(s@, q0 as int, old(m)@) == service_loop(s@, q as int, m@),
        invariant
            q0 <= q <= s.len(),
        ensures
            service_loop(s@, q0 as int, old(m)@) == (m@, q as int),
            q0 <= q <= s.len(),
        decreases s.len() - q,
    {
        if q >= s.len() || at_exec(s, q, "</DIAG-SERVICE") || at_exec(s, q, "</DIAG-SERVICE") {
            break;
        }
        let q1 = oskip_exec(s, q);
        if q1 >= s.len() {
            q = q1;
            break;
        }
        let r = service_step_exec(s, q1, m);
        let q2: usize = match r {
            Some(e) => e,
            None => if at_exec(s, q1, "<!--") {
                comment_end_exec(s, q1)
            } else if s[q1] == '<' {
                oskip_element_exec(s, q1)
            } else {
                q1 + 1
            },
        };
        if q2 <= q {
            q = q2;
            break;
        }
        q = q2;
    }
    q
}

fn service_elem_exec(s: &[char], p: usize) -> (r: (DiagService, usize))
    requires
        p < s.len(),
    ensures
        (r.0@, r.1 as int) == service_elem(s@, p as int),
        p < r.1 <= s.len(),
{
    let (idv, p1) = parse_attribute_exec(s, p, "ID");
    let id = or_empty_exec(idv);
    let mut m = DiagService { id: string_from_chars(id.as_slice()), short_name: String::new(), long_name: None, description: None, service_id: None, semantic: None, request: None, positive_response: None, negative_response: None, functional_class_refs: Vec::new(), audience: None, addressing_physical: true, addressing_functional: false };
    proof {
        assert(m@.functional_class_refs =~= Seq::empty());
        assert(m@ == ServiceModel { id: id@, short_name: Seq::empty(), long_name: None, description: None, service_id: None, semantic: None, request: None, positive_response: None, negative_response: None, functional_class_refs: Seq::empty(), audience: None, addressing_physical: true, addressing_functional: false });
    }
    let a = oskip_exec(s, past_gt_exec(s, p1));
    let b = service_loop_exec(s, a, &mut m);
    let e = past_gt_exec(s, b);
    (m, e)
}

fn dtc_step_exec(s: &[char], q: usize, m: &mut Dtc) -> (r: Option<usize>)
    requires
        q < s.len(),
    ensures
        match dtc_step(s@, q as int, old(m)@) {
            Some((m2, e)) => r == Some(e as usize) && final(m)@ == m2 && q < e <= s.len(),
            None => r is None && final(m)@ == old(m)@,
        },
{
    if at_exec(s, q, "<SHORT-NAME") {
        let (t, e) = text_elem_exec(s, q, "SHORT-NAME");
        m.short_name = string_from_chars(t.as_slice());
        Some(e)
    } else if at_exec(s, q, "<LONG-NAME") {
        let (t, e) = text_elem_exec(s, q, "LONG-NAME");
        m.long_name = Some(string_from_chars(t.as_slice()));
        Some(e)
    } else if at_exec(s, q, "<DESC") || at_exec(s, q, "<TEXT") {
        let (t, e) = text_any_exec(s, q);
        m.text = Some(string_from_chars(t.as_slice()));
        Some(e)
    } else if at_exec(s, q, "<TROUBLE-CODE") {
        let (t, e) = text_elem_exec(s, q, "TROUBLE-CODE");
        m.code = dtc_code_exec(t.as_slice());
        Some(e)
    } else if at_exec(s, q, "<DISPLAY-TROUBLE-CODE") {
        let (t, e) = text_elem_exec(s, q, "DISPLAY-TROUBLE-CODE");
        m.display_code = Some(string_from_chars(t.as_slice()));
        Some(e)
    } else {
        None
    }
}

fn dtc_loop_exec(s: &[char], q0: usize, m: &mut Dtc) -> (e: usize)
    requires
        q0 <= s.len(),
    ensures
        (final(m)@, e as int) == dtc_loop(s@, q0 as int, old(m)@),
        q0 <= e <= s.len(),
{
    let mut q = q0;
    loop
        invariant_except_break
            dtc_loop(s@, q0 as int, old(m)@) == dtc_loop(s@, q as int, m@),
        invariant
            q0 <= q <= s.len(),
        ensures
            dtc_loop(s@, q0 as int, old(m)@) == (m@, q as int),
            q0 <= q <= s.len(),
        decreases s.len() - q,
    {
        if q >= s.len() || at_exec(s, q, "</DTC>") || at_exec(s, q, "</DTC>") {
            break;
        }
        let q1 = oskip_exec(s, q);
        if q1 >= s.len() {
            q = q1;
            break;
        }
        let r = dtc_step_exec(s, q1, m);
        let stop = r.is_none() && !at_exec(s, q1, "<!--") && at_exec(s, q1, "</");
        if stop {
            q = q1;
            break;
        }
        let q2: usize = match r {
            Some(e) => e,
            None => if at_exec(s, q1, "<!--") {
                comment_end_exec(s, q1)
            } else if s[q1] == '<' {
                oskip_element_exec(s, q1)
            } else {
                q1 + 1
            },
        };
        if q2 <= q {
            q = q2;
            break;
        }
        q = q2;
    }
    q
}

fn dtc_elem_exec(s: &[char], p: usize) -> (r: (Dtc, usize))
    requires
        p < s.len(),
    ensures
        (r.0@, r.1 as int) == dtc_elem(s@, p as int),
        p < r.1 <= s.len(),
{
    let (idv, p1) = parse_attribute_exec(s, p, "ID");
    let id = or_empty_exec(idv);
    let mut m = Dtc { id: string_from_chars(id.as_slice()), short_name: String::new(), long_name: None, description: None, code: 0, display_code: None, severity: DtcSeverity::NoSeverity, functional_class_refs: Vec::new(), text: None, level: None };
    proof {
        assert(m@.functional_class_refs =~= Seq::empty());
        assert(m@ == DtcModel { id: id@, short_name: Seq::empty(), long_name: None, description: None, code: 0, display_code: None, severity: DtcSeverity::NoSeverity, functional_class_refs: Seq::empty(), text: None, level: None });
    }
    let a = oskip_exec(s, past_gt_exec(s, p1));
    let b = dtc_loop_exec(s, a, &mut m);
    let e = past_gt_exec(s, b);
    (m, e)
}

fn dtcs_step_exec(s: &[char], q: usize, m: &mut DiagLayer) -> (r: Option<usize>)
    requires
        q < s.len(),
    ensures
        match dtcs_step(s@, q as int, old(m)@) {
            Some((m2, e)) => r == Some(e as usize) && final(m)@ == m2 && q < e <= s.len(),
            None => r is None && final(m)@ == old(m)@,
        },
{
    if at_exec(s, q, "<DTC ") || at_exec(s, q, "<DTC>") {
        let (c, e) = dtc_elem_exec(s, q);
        let ghost before = m@;
        let ghost cv = c@;
        m.dtcs.push(c);
        assert(m@.dtcs =~= before.dtcs.push(cv));
        Some(e)
    } else {
        None
    }
}

fn dtcs_loop_exec(s: &[char], q0: usize, m: &mut DiagLayer) -> (e: usize)
    requires
        q0 <= s.len(),
    ensures
        (final(m)@, e as int) == dtcs_loop(s@, q0 as int, old(m)@),
        q0 <= e <= s.len(),
{
    let mut q = q0;
    loop
        invariant_except_break
            dtcs_loop(s@, q0 as int, old(m)@) == dtcs_loop(s@, q as int, m@),
        invariant
            q0 <= q <= s.len(),
        ensures
            dtcs_loop(s@, q0 as int, old(m)@) == (m@, q as int),
            q0 <= q <= s.len(),
        decreases s.len() - q,
    {
        if q >= s.len() || at_exec(s, q, "</DTCS>") || at_exec(s, q, "</DTCS>") {
            break;
        }
        let q1 = oskip_exec(s, q);
        if q1 >= s.len() {
            q = q1;
            break;
        }
        let r = dtcs_step_exec(s, q1, m);
        let q2: usize = match r {
            Some(e) => e,
            None => if at_exec(s, q1, "<!--") {
                comment_end_exec(s, q1)
            } else if s[q1] == '<' {
                oskip_element_exec(s, q1)
            } else {
                q1 + 1
            },
        };
        if q2 <= q {
            q = q2;
            break;
        }
        q = q2;
    }
    q
}

fn dtcs_in_exec(s: &[char], q: usize, m: &mut DiagLayer) -> (e: usize)
    requires
        q < s.len(),
    ensures
        (final(m)@, e as int) == dtcs_in(s@, q as int, old(m)@),
        q < e <= s.len(),
{
    let a = oskip_exec(s, past_gt_exec(s, q));
    let b = dtcs_loop_exec(s, a, m);
    past_gt_exec(s, b)
}

fn all_dtc_step_exec(s: &[char], q: usize, m: &mut DiagLayer) -> (r: Option<usize>)
    requires
        q < s.len(),
    ensures
        match all_dtc_step(s@, q as int, old(m)@) {
            Some((m2, e)) => r == Some(e as usize) && final(m)@ == m2 && q < e <= s.len(),
            None => r is None && final(m)@ == old(m)@,
        },
{
    if at_exec(s, q, "<DTC ") || at_exec(s, q, "<DTC>") {
        let (c, e) = dtc_elem_exec(s, q);
        let ghost before = m@;
        let ghost cv = c@;
        m.dtcs.push(c);
        assert(m@.dtcs =~= before.dtcs.push(cv));
        Some(e)
    } else {
        None
    }
}

fn all_dtc_loop_exec(s: &[char], q0: usize, m: &mut DiagLayer) -> (e: usize)
    requires
        q0 <= s.len(),
    ensures
        (final(m)@, e as int) == all_dtc_loop(s@, q0 as int, old(m)@),
        q0 <= e <= s.len(),
{
    let mut q = q0;
    loop
        invariant_except_break
            all_dtc_loop(s@, q0 as int, old(m)@) == all_dtc_loop(s@, q as int, m@),
        invariant
            q0 <= q <= s.len(),
        ensures
            all_dtc_loop(s@, q0 as int, old(m)@) == (m@, q as int),
            q0 <= q <= s.len(),
        decreases s.len() - q,
    {
        if q >= s.len() || at_exec(s, q, "</ALL-DTC>") || at_exec(s, q, "</ALL-DTC>") {
            break;
        }
        let q1 = oskip_exec(s, q);
        if q1 >= s.len() {
            q = q1;
            break;
        }
        let r = all_dtc_step_exec(s, q1, m);
        let q2: usize = match r {
            Some(e) => e,
            None => if at_exec(s, q1, "<!--") {
                comment_end_exec(s, q1)
            } else if s[q1] == '<' {
                oskip_element_exec(s, q1)
            } else {
                q1 + 1
            },
        };
        if q2 <= q {
            q = q2;
            break;
        }
        q = q2;
    }
    q
}

fn all_dtc_in_exec(s: &[char], q: usize, m: &mut DiagLayer) -> (e: usize)
    requires
        q < s.len(),
    ensures
        (final(m)@, e as int) == all_dtc_in(s@, q as int, old(m)@),
        q < e <= s.len(),
{
    let a = oskip_exec(s, past_gt_exec(s, q));
    let b = all_dtc_loop_exec(s, a, m);
    past_gt_exec(s, b)
}

fn prog_code_step_exec(s: &[char], q: usize, m: &mut SingleEcuJob) -> (r: Option<usize>)
    requires
        q < s.len(),
    ensures
        match prog_code_step(s@, q as int, old(m)@) {
            Some((m2, e)) => r == Some(e as usize) && final(m)@ == m2 && q < e <= s.len(),
            None => r is None && final(m)@ == old(m)@,
        },
{
    if at_exec(s, q, "<CODE-FILE") {
        let (t, e) = text_elem_exec(s, q, "CODE-FILE");
        m.code = Some(string_from_chars(t.as_slice()));
        Some(e)
    } else if at_exec(s, q, "<SYNTAX") {
        let (t, e) = text_elem_exec(s, q, "SYNTAX");
        m.prog_language = Some(string_from_chars(t.as_slice()));
        Some(e)
    } else if at_exec(s, q, "<SOURCE-CODE") {
        let (t, e) = text_elem_exec(s, q, "SOURCE-CODE");
        m.code = Some(string_from_chars(t.as_slice()));
        Some(e)
    } else {
        None
    }
}

fn prog_code_loop_exec(s: &[char], q0: usize, m: &mut SingleEcuJob) -> (e: usize)
    requires
        q0 <= s.len(),
    ensures
        (final(m)@, e as int) == prog_code_loop(s@, q0 as int, old(m)@),
        q0 <= e <= s.len(),
{
    let mut q = q0;
    loop
        invariant_except_break
            prog_code_loop(s@, q0 as int, old(m)@) == prog_code_loop(s@, q as int, m@),
        invariant
            q0 <= q <= s.len(),
        ensures
            prog_code_loop(s@, q0 as int, old(m)@) == (m@, q as int),
            q0 <= q <= s.len(),
        decreases s.len() - q,
    {
        if q >= s.len() || at_exec(s, q, "</PROG-CODE") || at_exec(s, q, "</PROG-CODE") {
            break;
        }
        let q1 = oskip_exec(s, q);
        if q1 >= s.len() {
            q = q1;
            break;
        }
        let r = prog_code_step_exec(s, q1, m);
        let q2: usize = match r {
            Some(e) => e,
            None => if at_exec(s, q1, "<!--") {
                comment_end_exec(s, q1)
            } else if s[q1] == '<' {
                oskip_element_exec(s, q1)
            } else {
                q1 + 1
            },
        };
        if q2 <= q {
            q = q2;
            break;
        }
        q = q2;
    }
    q
}

fn prog_code_in_exec(s: &[char], q: usize, m: &mut SingleEcuJob) -> (e: usize)
    requires
        q < s.len(),
    ensures
        (final(m)@, e as int) == prog_code_in(s@, q as int, old(m)@),
        q < e <= s.len(),
{
    let a = oskip_exec(s, past_gt_exec(s, q));
    let b = prog_code_loop_exec(s, a, m);
    past_gt_exec(s, b)
}

fn job_step_exec(s: &[char], q: usize, m: &mut SingleEcuJob) -> (r: Option<usize>)
    requires
        q < s.len(),
    ensures
        match job_step(s@, q as int, old(m)@) {
            Some((m2, e)) => r == Some(e as usize) && final(m)@ == m2 && q < e <= s.len(),
            None => r is None && final(m)@ == old(m)@,
        },
{
    if at_exec(s, q, "<SHORT-NAME") {
        let (t, e) = text_elem_exec(s, q, "SHORT-NAME");
        m.short_name = string_from_chars(t.as_slice());
        Some(e)
    } else if at_exec(s, q, "<DESC") {
        let (t, e) = text_elem_exec(s, q, "DESC");
        m.description = Some(string_from_chars(t.as_slice()));
        Some(e)
    } else if at_exec(s, q, "<PROG-CODE") {
        let e = prog_code_in_exec(s, q, m);
        Some(e)
    } else {
        None
    }
}

fn job_loop_exec(s: &[char], q0: usize, m: &mut SingleEcuJob) -> (e: usize)
    requires
        q0 <= s.len(),
    ensures
        (final(m)@, e as int) == job_loop(s@, q0 as int, old(m)@),
        q0 <= e <= s.len(),
{
    let mut q = q0;
    loop
        invariant_except_break
            job_loop(s@, q0 as int, old(m)@) == job_loop(s@, q as int, m@),
        invariant
            q0 <= q <= s.len(),
        ensures
            job_loop(s@, q0 as int, old(m)@) == (m@, q as int),
            q0 <= q <= s.len(),
        decreases s.len() - q,
    {
        if q >= s.len() || at_exec(s, q, "</SINGLE-ECU-JOB") || at_exec(s, q, "</SINGLE-ECU-JOB") {
            break;
        }
        let q1 = oskip_exec(s, q);
        if q1 >= s.len() {
            q = q1;
            break;
        }
        let r = job_step_exec(s, q1, m);
        let q2: usize = match r {
            Some(e) => e,
            None => if at_exec(s, q1, "<!--") {
                comment_end_exec(s, q1)
            } else if s[q1] == '<' {
                oskip_element_exec(s, q1)
            } else {
                q1 + 1
            },
        };
        if q2 <= q {
            q = q2;
            break;
        }
        q = q2;
    }
    q
}

fn job_elem_exec(s: &[char], p: usize) -> (r: (SingleEcuJob, usize))
    requires
        p < s.len(),
    ensures
        (r.0@, r.1 as int) == job_elem(s@, p as int),
        p < r.1 <= s.len(),
{
    let (idv, p1) = parse_attribute_exec(s, p, "ID");
    let id = or_empty_exec(idv);
    let mut m = SingleEcuJob { id: string_from_chars(id.as_slice()), short_name: String::new(), description: None, functional_class_refs: Vec::new(), audience: None, prog_language: None, code: None };
    proof {
        assert(m@.functional_class_refs =~= Seq::empty());
        assert(m@ == JobModel { id: id@, short_name: Seq::empty(), description: None, functional_class_refs: Seq::empty(), audience: None, prog_language: None, code: None });
    }
    let a = oskip_exec(s, past_gt_exec(s, p1));
    let b = job_loop_exec(s, a, &mut m);
    let e = past_gt_exec(s, b);
    (m, e)
}

fn comms_step_exec(s: &[char], q: usize, m: &mut DiagLayer) -> (r: Option<usize>)
    requires
        q < s.len(),
    ensures
        match comms_step(s@, q as int, old(m)@) {
            Some((m2, e)) => r == Some(e as usize) && final(m)@ == m2 && q < e <= s.len(),
            None => r is None && final(m)@ == old(m)@,
        },
{
    if at_exec(s, q, "<DIAG-SERVICE") {
        let (c, e) = service_elem_exec(s, q);
        let ghost before = m@;
        let ghost cv = c@;
        m.services.push(c);
        assert(m@.services =~= before.services.push(cv));
        Some(e)
    } else if at_exec(s, q, "<SINGLE-ECU-JOB") {
        let (c, e) = job_elem_exec(s, q);
        let ghost before = m@;
        let ghost cv = c@;
        m.single_ecu_jobs.push(c);
        assert(m@.single_ecu_jobs =~= before.single_ecu_jobs.push(cv));
        Some(e)
    } else {
        None
    }
}

fn comms_loop_exec(s: &[char], q0: usize, m: &mut DiagLayer) -> (e: usize)
    requires
        q0 <= s.len(),
    ensures
        (final(m)@, e as int) == comms_loop(s@, q0 as int, old(m)@),
        q0 <= e <= s.len(),
{
    let mut q = q0;
    loop
        invariant_except_break
            comms_loop(s@, q0 as int, old(m)@) == comms_loop(s@, q as int, m@),
        invariant
            q0 <= q <= s.len(),
        ensures
            comms_loop(s@, q0 as int, old(m)@) == (m@, q as int),
            q0 <= q <= s.len(),
        decreases s.len() - q,
    {
        if q >= s.len() || at_exec(s, q, "</DIAG-COMMS") || at_exec(s, q, "</DIAG-COMMS") {
            break;
        }
        let q1 = oskip_exec(s, q);
        if q1 >= s.len() {
            q = q1;
            break;
        }
        let r = comms_step_exec(s, q1, m);
        let q2: usize = match r {
            Some(e) => e,
            None => if at_exec(s, q1, "<!--") {
                comment_end_exec(s, q1)
            } else if s[q1] == '<' {
                oskip_element_exec(s, q1)
            } else {
                q1 + 1
            },
        };
        if q2 <= q {
            q = q2;
            break;
        }
        q = q2;
    }
    q
}

fn comms_in_exec(s: &[char], q: usize, m: &mut DiagLayer) -> (e: usize)
    requires
        q < s.len(),
    ensures
        (final(m)@, e as int) == comms_in(s@, q as int, old(m)@),
        q < e <= s.len(),
{
    let a = oskip_exec(s, past_gt_exec(s, q));
    let b = comms_loop_exec(s, a, m);
    past_gt_exec(s, b)
}

fn services_step_exec(s: &[char], q: usize, m: &mut DiagLayer) -> (r: Option<usize>)
    requires
        q < s.len(),
    ensures
        match services_step(s@, q as int, old(m)@) {
            Some((m2, e)) => r == Some(e as usize) && final(m)@ == m2 && q < e <= s.len(),
            None => r is None && final(m)@ == old(m)@,
        },
{
    if at_exec(s, q, "<DIAG-SERVICE") {
        let (c, e) = service_elem_exec(s, q);
        let ghost before = m@;
        let ghost cv = c@;
        m.services.push(c);
        assert(m@.services =~= before.services.push(cv));
        Some(e)
    } else {
        None
    }
}

fn services_loop_exec(s: &[char], q0: usize, m: &mut DiagLayer) -> (e: usize)
    requires
        q0 <= s.len(),
    ensures
        (final(m)@, e as int) == services_loop(s@, q0 as int, old(m)@),
        q0 <= e <= s.len(),
{
    let mut q = q0;
    loop
        invariant_except_break
            services_loop(s@, q0 as int, old(m)@) == services_loop(s@, q as int, m@),
        invariant
            q0 <= q <= s.len(),
        ensures
            services_loop(s@, q0 as int, old(m)@) == (m@, q as int),
            q0 <= q <= s.len(),
        decreases s.len() - q,
    {
        if q >= s.len() || at_exec(s, q, "</DIAG-SERVICES") || at_exec(s, q, "</DIAG-SERVICES") {
            break;
        }
        let q1 = oskip_exec(s, q);
        if q1 >= s.len() {
            q = q1;
            break;
        }
        let r = services_step_exec(s, q1, m);
        let q2: usize = match r {
            Some(e) => e,
            None => if at_exec(s, q1, "<!--") {
                comment_end_exec(s, q1)
            } else if s[q1] == '<' {
                oskip_element_exec(s, q1)
            } else {
                q1 + 1
            },
        };
        if q2 <= q {
            q = q2;
            break;
        }
        q = q2;
    }
    q
}

fn services_in_exec(s: &[char], q: usize, m: &mut DiagLayer) -> (e: usize)
    requires
        q < s.len(),
    ensures
        (final(m)@, e as int) == services_in(s@, q as int, old(m)@),
        q < e <= s.len(),
{
    let a = oskip_exec(s, past_gt_exec(s, q));
    let b = services_loop_exec(s, a, m);
    past_gt_exec(s, b)
}

fn layer_step_exec(s: &[char], q: usize, m: &mut DiagLayer) -> (r: Option<usize>)
    requires
        q < s.len(),
    ensures
        match layer_step(s@, q as int, old(m)@) {
            Some((m2, e)) => r == Some(e as usize) && final(m)@ == m2 && q < e <= s.len(),
            None => r is None && final(m)@ == old(m)@,
        },
{
    if at_exec(s, q, "<SHORT-NAME") {
        let (t, e) = text_elem_exec(s, q, "SHORT-NAME");
        m.short_name = string_from_chars(t.as_slice());
        Some(e)
    } else if at_exec(s, q, "<LONG-NAME") {
        let (t, e) = text_elem_exec(s, q, "LONG-NAME");
        m.long_name = Some(string_from_chars(t.as_slice()));
        Some(e)
    } else if at_exec(s, q, "<DESC") {
        let (t, e) = text_elem_exec(s, q, "DESC");
        m.description = Some(string_from_chars(t.as_slice()));
        Some(e)
    } else if at_exec(s, q, "<DIAG-COMMS") {
        let e = comms_in_exec(s, q, m);
        Some(e)
    } else if at_exec(s, q, "<DIAG-SERVICES") {
        let e = services_in_exec(s, q, m);
        Some(e)
    } else if at_exec(s, q, "<ALL-DTC") {
        let e = all_dtc_in_exec(s, q, m);
        Some(e)
    } else if at_exec(s, q, "<DTCS") {
        let e = dtcs_in_exec(s, q, m);
        Some(e)
    } else {
        None
    }
}

fn comparam_step_exec(s: &[char], q: usize, m: &mut Comparam) -> (r: Option<usize>)
    requires
        q < s.len(),
    ensures
        match comparam_step(s@, q as int, old(m)@) {
            Some((m2, e)) => r == Some(e as usize) && final(m)@ == m2 && q < e <= s.len(),
            None => r is None && final(m)@ == old(m)@,
        },
{
    if at_exec(s, q, "<SHORT-NAME") {
        let (t, e) = text_elem_exec(s, q, "SHORT-NAME");
        m.short_name = string_from_chars(t.as_slice());
        Some(e)
    } else if at_exec(s, q, "<DESC") {
        let (t, e) = text_elem_exec(s, q, "DESC");
        m.description = Some(string_from_chars(t.as_slice()));
        Some(e)
    } else if at_exec(s, q, "<PHYSICAL-DEFAULT-VALUE") {
        let (t, e) = text_elem_exec(s, q, "PHYSICAL-DEFAULT-VALUE");
        m.physical_default = Some(string_from_chars(t.as_slice()));
        Some(e)
    } else if at_exec(s, q, "<DOP-REF") {
        proof {
            reveal_strlit("<DOP-REF");
            if at(s@, q as int, "<DOP-REF"@) {
                assert(s@.subrange(q as int, q + 8)[0] == s@[q as int]);
            }
        }
        let (v, e0) = parse_attribute_exec(s, q, "ID-REF");
        m.dop_ref = opt_string(v);
        Some(oskip_element_exec(s, e0))
    } else {
        None
    }
}

fn comparam_loop_exec(s: &[char], q0: usize, m: &mut Comparam) -> (e: usize)
    requires
        q0 <= s.len(),
    ensures
        (final(m)@, e as int) == comparam_loop(s@, q0 as int, old(m)@),
        q0 <= e <= s.len(),
{
    let mut q = q0;
    loop
        invariant_except_break
            comparam_loop(s@, q0 as int, old(m)@) == comparam_loop(s@, q as int, m@),
        invariant
            q0 <= q <= s.len(),
        ensures
            comparam_loop(s@, q0 as int, old(m)@) == (m@, q as int),
            q0 <= q <= s.len(),
        decreases s.len() - q,
    {
        if q >= s.len() || at_exec(s, q, "</COMPARAM") || at_exec(s, q, "</COMPARAM") {
            break;
        }
        let q1 = oskip_exec(s, q);
        if q1 >= s.len() {
            q = q1;
            break;
        }
        let r = comparam_step_exec(s, q1, m);
        let q2: usize = match r {
            Some(e) => e,
            None => if at_exec(s, q1, "<!--") {
                comment_end_exec(s, q1)
            } else if s[q1] == '<' {
                oskip_element_exec(s, q1)
            } else {
                q1 + 1
            },
        };
        if q2 <= q {
            q = q2;
            break;
        }
        q = q2;
    }
    q
}

fn comparam_elem_exec(s: &[char], p: usize) -> (r: (Comparam, usize))
    requires
        p < s.len(),
    ensures
        (r.0@, r.1 as int) == comparam_elem(s@, p as int),
        p < r.1 <= s.len(),
{
    let (idv, p0) = parse_attribute_exec(s, p, "ID");
    let id = or_empty_exec(idv);
    let (cv, p1) = parse_attribute_exec(s, p0, "PARAM-CLASS");
    let cvv = or_empty_exec(cv);
    let class = class_exec(cvv.as_slice());
    let mut m = Comparam { id: string_from_chars(id.as_slice()), short_name: String::new(), description: None, param_class: class, physical_default: None, dop_ref: None };
    proof {
        assert(m@ == ComparamModel { id: id@, short_name: Seq::empty(), description: None, param_class: class, physical_default: None, dop_ref: None });
    }
    let a = oskip_exec(s, past_gt_exec(s, p1));
    let b = comparam_loop_exec(s, a, &mut m);
    let e = past_gt_exec(s, b);
    (m, e)
}

fn comparams_step_exec(s: &[char], q: usize, m: &mut ComparamSpec) -> (r: Option<usize>)
    requires
        q < s.len(),
    ensures
        match comparams_step(s@, q as int, old(m)@) {
            Some((m2, e)) => r == Some(e as usize) && final(m)@ == m2 && q < e <= s.len(),
            None => r is None && final(m)@ == old(m)@,
        },
{
    if at_exec(s, q, "<COMPARAM") {
        let (c, e) = comparam_elem_exec(s, q);
        let ghost before = m@;
        let ghost cv = c@;
        m.comparams.push(c);
        assert(m@.comparams =~= before.comparams.push(cv));
        Some(e)
    } else {
        None
    }
}

fn comparams_loop_exec(s: &[char], q0: usize, m: &mut ComparamSpec) -> (e: usize)
    requires
        q0 <= s.len(),
    ensures
        (final(m)@, e as int) == comparams_loop(s@, q0 as int, old(m)@),
        q0 <= e <= s.len(),
{
    let mut q = q0;
    loop
        invariant_except_break
            comparams_loop(s@, q0 as int, old(m)@) == comparams_loop(s@, q as int, m@),
        invariant
            q0 <= q <= s.len(),
        ensures
            comparams_loop(s@, q0 as int, old(m)@) == (m@, q as int),
            q0 <= q <= s.len(),
        decreases s.len() - q,
    {
        if q >= s.len() || at_exec(s, q, "</COMPARAMS") || at_exec(s, q, "</COMPARAMS") {
            break;
        }
        let q1 = oskip_exec(s, q);
        if q1 >= s.len() {
            q = q1;
            break;
        }
        let r = comparams_step_exec(s, q1, m);
        let q2: usize = match r {
            Some(e) => e,
            None => if at_exec(s, q1, "<!--") {
                comment_end_exec(s, q1)
            } else if s[q1] == '<' {
                oskip_element_exec(s, q1)
            } else {
                q1 + 1
            },
        };
        if q2 <= q {
            q = q2;
            break;
        }
        q = q2;
    }
    q
}

fn comparams_in_exec(s: &[char], q: usize, m: &mut ComparamSpec) -> (e: usize)
    requires
        q < s.len(),
    ensures
        (final(m)@, e as int) == comparams_in(s@, q as int, old(m)@),
        q < e <= s.len(),
{
    let a = oskip_exec(s, past_gt_exec(s, q));
    let b = comparams_loop_exec(s, a, m);
    past_gt_exec(s, b)
}

fn comparam_spec_step_exec(s: &[char], q: usize, m: &mut ComparamSpec) -> (r: Option<usize>)
    requires
        q < s.len(),
    ensures
        match comparam_spec_step(s@, q as int, old(m)@) {
            Some((m2, e)) => r == Some(e as usize) && final(m)@ == m2 && q < e <= s.len(),
            None => r is None && final(m)@ == old(m)@,
        },
{
    if at_exec(s, q, "<SHORT-NAME") {
        let (t, e) = text_elem_exec(s, q, "SHORT-NAME");
        m.short_name = string_from_chars(t.as_slice());
        Some(e)
    } else if at_exec(s, q, "<DESC") {
        let (t, e) = text_elem_exec(s, q, "DESC");
        m.description = Some(string_from_chars(t.as_slice()));
        Some(e)
    } else if at_exec(s, q, "<PROT-STACK-SNREF") {
        proof {
            reveal_strlit("<PROT-STACK-SNREF");
            if at(s@, q as int, "<PROT-STACK-SNREF"@) {
                assert(s@.subrange(q as int, q + 17)[0] == s@[q as int]);
            }
        }
        let (v, e0) = parse_attribute_exec(s, q, "SHORT-NAME");
        m.protocol_type = opt_string(v);
        Some(oskip_element_exec(s, e0))
    } else if at_exec(s, q, "<COMPARAMS") {
        let e = comparams_in_exec(s, q, m);
        Some(e)
    } else {
        None
    }
}

fn comparam_spec_loop_exec(s: &[char], q0: usize, m: &mut ComparamSpec) -> (e: usize)
    requires
        q0 <= s.len(),
    ensures
        (final(m)@, e as int) == comparam_spec_loop(s@, q0 as int, old(m)@),
        q0 <= e <= s.len(),
{
    let mut q = q0;
    loop
        invariant_except_break
            comparam_spec_loop(s@, q0 as int, old(m)@) == comparam_spec_loop(s@, q as int, m@),
        invariant
            q0 <= q <= s.len(),
        ensures
            comparam_spec_loop(s@, q0 as int, old(m)@) == (m@, q as int),
            q0 <= q <= s.len(),
        decreases s.len() - q,
    {
        if q >= s.len() || at_exec(s, q, "</COMPARAM-SPEC") || at_exec(s, q, "</COMPARAM-SPEC") {
            break;
        }
        let q1 = oskip_exec(s, q);
        if q1 >= s.len() {
            q = q1;
            break;
        }
        let r = comparam_spec_step_exec(s, q1, m);
        let q2: usize = match r {
            Some(e) => e,
            None => if at_exec(s, q1, "<!--") {
                comment_end_exec(s, q1)
            } else if s[q1] == '<' {
                oskip_element_exec(s, q1)
            } else {
                q1 + 1
            },
        };
        if q2 <= q {
            q = q2;
            break;
        }
        q = q2;
    }
    q
}

fn comparam_spec_elem_exec(s: &[char], p: usize) -> (r: (ComparamSpec, usize))
    requires
        p < s.len(),
    ensures
        (r.0@, r.1 as int) == comparam_spec_elem(s@, p as int),
        p < r.1 <= s.len(),
{
    let (idv, p1) = parse_attribute_exec(s, p, "ID");
    let id = or_empty_exec(idv);
    let mut m = ComparamSpec { id: string_from_chars(id.as_slice()), short_name: String::new(), description: None, protocol_type: None, comparams: Vec::new() };
    proof {
        assert(m@.comparams =~= Seq::empty());
        assert(m@ == ComparamSpecModel { id: id@, short_name: Seq::empty(), description: None, protocol_type: None, comparams: Seq::empty() });
    }
    let a = oskip_exec(s, past_gt_exec(s, p1));
    let b = comparam_spec_loop_exec(s, a, &mut m);
    let e = past_gt_exec(s, b);
    (m, e)
}

fn link_step_exec(s: &[char], q: usize, m: &mut LogicalLink) -> (r: Option<usize>)
    requires
        q < s.len(),
    ensures
        match link_step(s@, q as int, old(m)@) {
            Some((m2, e)) => r == Some(e as usize) && final(m)@ == m2 && q < e <= s.len(),
            None => r is None && final(m)@ == old(m)@,
        },
{
    if at_exec(s, q, "<SHORT-NAME") {
        let (t, e) = text_elem_exec(s, q, "SHORT-NAME");
        m.short_name = string_from_chars(t.as_slice());
        Some(e)
    } else if at_exec(s, q, "<DESC") {
        let (t, e) = text_elem_exec(s, q, "DESC");
        m.description = Some(string_from_chars(t.as_slice()));
        Some(e)
    } else if at_exec(s, q, "<PROTOCOL-REF") {
        proof {
            reveal_strlit("<PROTOCOL-REF");
            if at(s@, q as int, "<PROTOCOL-REF"@) {
                assert(s@.subrange(q as int, q + 13)[0] == s@[q as int]);
            }
        }
        let (v, e0) = parse_attribute_exec(s, q, "ID-REF");
        m.protocol_ref = opt_string(v);
        Some(oskip_element_exec(s, e0))
    } else if at_exec(s, q, "<PHYSICAL-VEHICLE-LINK-REF") {
        proof {
            reveal_strlit("<PHYSICAL-VEHICLE-LINK-REF");
            if at(s@, q as int, "<PHYSICAL-VEHICLE-LINK-REF"@) {
                assert(s@.subrange(q as int, q + 26)[0] == s@[q as int]);
            }
        }
        let (v, e0) = parse_attribute_exec(s, q, "ID-REF");
        m.physical_vehicle_link_ref = opt_string(v);
        Some(oskip_element_exec(s, e0))
    } else {
        None
    }
}

fn link_loop_exec(s: &[char], q0: usize, m: &mut LogicalLink) -> (e: usize)
    requires
        q0 <= s.len(),
    ensures
        (final(m)@, e as int) == link_loop(s@, q0 as int, old(m)@),
        q0 <= e <= s.len(),
{
    let mut q = q0;
    loop
        invariant_except_break
            link_loop(s@, q0 as int, old(m)@) == link_loop(s@, q as int, m@),
        invariant
            q0 <= q <= s.len(),
        ensures
            link_loop(s@, q0 as int, old(m)@) == (m@, q as int),
            q0 <= q <= s.len(),
        decreases s.len() - q,
    {
        if q >= s.len() || at_exec(s, q, "</LOGICAL-LINK") || at_exec(s, q, "</LOGICAL-LINK") {
            break;
        }
        let q1 = oskip_exec(s, q);
        if q1 >= s.len() {
            q = q1;
            break;
        }
        let r = link_step_exec(s, q1, m);
        let q2: usize = match r {
            Some(e) => e,
            None => if at_exec(s, q1, "<!--") {
                comment_end_exec(s, q1)
            } else if s[q1] == '<' {
                oskip_element_exec(s, q1)
            } else {
                q1 + 1
            },
        };
        if q2 <= q {
            q = q2;
            break;
        }
        q = q2;
    }
    q
}

fn link_elem_exec(s: &[char], p: usize) -> (r: (LogicalLink, usize))
    requires
        p < s.len(),
    ensures
        (r.0@, r.1 as int) == link_elem(s@, p as int),
        p < r.1 <= s.len(),
{
    let p1 = p;
    let mut m = LogicalLink { short_name: String::new(), description: None, protocol_ref: None, physical_vehicle_link_ref: None };
    proof {
        assert(m@ == LinkModel { short_name: Seq::empty(), description: None, protocol_ref: None, physical_vehicle_link_ref: None });
    }
    let a = oskip_exec(s, past_gt_exec(s, p1));
    let b = link_loop_exec(s, a, &mut m);
    let e = past_gt_exec(s, b);
    (m, e)
}

fn links_step_exec(s: &[char], q: usize, m: &mut VehicleInfo) -> (r: Option<usize>)
    requires
        q < s.len(),
    ensures
        match links_step(s@, q as int, old(m)@) {
            Some((m2, e)) => r == Some(e as usize) && final(m)@ == m2 && q < e <= s.len(),
            None => r is None && final(m)@ == old(m)@,
        },
{
    if at_exec(s, q, "<LOGICAL-LINK") {
        let (c, e) = link_elem_exec(s, q);
        let ghost before = m@;
        let ghost cv = c@;
        m.logical_links.push(c);
        assert(m@.logical_links =~= before.logical_links.push(cv));
        Some(e)
    } else {
        None
    }
}

fn links_loop_exec(s: &[char], q0: usize, m: &mut VehicleInfo) -> (e: usize)
    requires
        q0 <= s.len(),
    ensures
        (final(m)@, e as int) == links_loop(s@, q0 as int, old(m)@),
        q0 <= e <= s.len(),
{
    let mut q = q0;
    loop
        invariant_except_break
            links_loop(s@, q0 as int, old(m)@) == links_loop(s@, q as int, m@),
        invariant
            q0 <= q <= s.len(),
        ensures
            links_loop(s@, q0 as int, old(m)@) == (m@, q as int),
            q0 <= q <= s.len(),
        decreases s.len() - q,
    {
        if q >= s.len() || at_exec(s, q, "</LOGICAL-LINKS") || at_exec(s, q, "</LOGICAL-LINKS") {
            break;
        }
        let q1 = oskip_exec(s, q);
        if q1 >= s.len() {
            q = q1;
            break;
        }
        let r = links_step_exec(s, q1, m);
        let q2: usize = match r {
            Some(e) => e,
            None => if at_exec(s, q1, "<!--") {
                comment_end_exec(s, q1)
            } else if s[q1] == '<' {
                oskip_element_exec(s, q1)
            } else {
                q1 + 1
            },
        };
        if q2 <= q {
            q = q2;
            break;
        }
        q = q2;
    }
    q
}

fn links_in_exec(s: &[char], q: usize, m: &mut VehicleInfo) -> (e: usize)
    requires
        q < s.len(),
    ensures
        (final(m)@, e as int) == links_in(s@, q as int, old(m)@),
        q < e <= s.len(),
{
    let a = oskip_exec(s, past_gt_exec(s, q));
    let b = links_loop_exec(s, a, m);
    past_gt_exec(s, b)
}

fn vehicle_step_exec(s: &[char], q: usize, m: &mut VehicleInfo) -> (r: Option<usize>)
    requires
        q < s.len(),
    ensures
        match vehicle_step(s@, q as int, old(m)@) {
            Some((m2, e)) => r == Some(e as usize) && final(m)@ == m2 && q < e <= s.len(),
            None => r is None && final(m)@ == old(m)@,
        },
{
    if at_exec(s, q, "<SHORT-NAME") {
        let (t, e) = text_elem_exec(s, q, "SHORT-NAME");
        m.short_name = string_from_chars(t.as_slice());
        Some(e)
    } else if at_exec(s, q, "<LONG-NAME") {
        let (t, e) = text_elem_exec(s, q, "LONG-NAME");
        m.long_name = Some(string_from_chars(t.as_slice()));
        Some(e)
    } else if at_exec(s, q, "<DESC") {
        let (t, e) = text_elem_exec(s, q, "DESC");
        m.description = Some(string_from_chars(t.as_slice()));
        Some(e)
    } else if at_exec(s, q, "<LOGICAL-LINKS") {
        let e = links_in_exec(s, q, m);
        Some(e)
    } else {
        None
    }
}

fn vehicle_loop_exec(s: &[char], q0: usize, m: &mut VehicleInfo) -> (e: usize)
    requires
        q0 <= s.len(),
    ensures
        (final(m)@, e as int) == vehicle_loop(s@, q0 as int, old(m)@),
        q0 <= e <= s.len(),
{
    let mut q = q0;
    loop
        invariant_except_break
            vehicle_loop(s@, q0 as int, old(m)@) == vehicle_loop(s@, q as int, m@),
        invariant
            q0 <= q <= s.len(),
        ensures
            vehicle_loop(s@, q0 as int, old(m)@) == (m@, q as int),
            q0 <= q <= s.len(),
        decreases s.len() - q,
    {
        if q >= s.len() || at_exec(s, q, "</VEHICLE-INFO") || at_exec(s, q, "</VEHICLE-INFO") {
            break;
        }
        let q1 = oskip_exec(s, q);
        if q1 >= s.len() {
            q = q1;
            break;
        }
        let r = vehicle_step_exec(s, q1, m);
        let q2: usize = match r {
            Some(e) => e,
            None => if at_exec(s, q1, "<!--") {
                comment_end_exec(s, q1)
            } else if s[q1] == '<' {
                oskip_element_exec(s, q1)
            } else {
                q1 + 1
            },
        };
        if q2 <= q {
            q = q2;
            break;
        }
        q = q2;
    }
    q
}

fn vehicle_elem_exec(s: &[char], p: usize) -> (r: (VehicleInfo, usize))
    requires
        p < s.len(),
    ensures
        (r.0@, r.1 as int) == vehicle_elem(s@, p as int),
        p < r.1 <= s.len(),
{
    let p1 = p;
    let mut m = VehicleInfo { short_name: String::new(), long_name: None, description: None, logical_links: Vec::new() };
    proof {
        assert(m@.logical_links =~= Seq::empty());
        assert(m@ == VehicleInfoModel { short_name: Seq::empty(), long_name: None, description: None, logical_links: Seq::empty() });
    }
    let a = oskip_exec(s, past_gt_exec(s, p1));
    let b = vehicle_loop_exec(s, a, &mut m);
    let e = past_gt_exec(s, b);
    (m, e)
}

fn container_step_exec(s: &[char], q: usize, m: &mut OdxDatabase) -> (r: Option<usize>)
    requires
        q < s.len(),
    ensures
        match container_step(s@, q as int, old(m)@) {
            Some((m2, e)) => r == Some(e as usize) && final(m)@ == m2 && q < e <= s.len(),
            None => r is None && final(m)@ == old(m)@,
        },
{
    if at_exec(s, q, "<PROTOCOL") || at_exec(s, q, "<BASE-VARIANT") || at_exec(s, q, "<ECU-VARIANT") || at_exec(s, q, "<FUNCTIONAL-GROUP") {
        let (c, e) = layer_elem_exec(s, q);
        let ghost before = m@;
        let ghost cv = c@;
        m.diag_layers.push(c);
        assert(m@.diag_layers =~= before.diag_layers.push(cv));
        Some(e)
    } else {
        None
    }
}

fn container_loop_exec(s: &[char], q0: usize, m: &mut OdxDatabase) -> (e: usize)
    requires
        q0 <= s.len(),
    ensures
        (final(m)@, e as int) == container_loop(s@, q0 as int, old(m)@),
        q0 <= e <= s.len(),
{
    let mut q = q0;
    loop
        invariant_except_break
            container_loop(s@, q0 as int, old(m)@) == container_loop(s@, q as int, m@),
        invariant
            q0 <= q <= s.len(),
        ensures
            container_loop(s@, q0 as int, old(m)@) == (m@, q as int),
            q0 <= q <= s.len(),
        decreases s.len() - q,
    {
        if q >= s.len() || at_exec(s, q, "</DIAG-LAYER-CONTAINER") || at_exec(s, q, "</DIAG-LAYER-CONTAINER") {
            break;
        }
        let q1 = oskip_exec(s, q);
        if q1 >= s.len() {
            q = q1;
            break;
        }
        let r = container_step_exec(s, q1, m);
        let q2: usize = match r {
            Some(e) => e,
            None => if at_exec(s, q1, "<!--") {
                comment_end_exec(s, q1)
            } else if s[q1] == '<' {
                oskip_element_exec(s, q1)
            } else {
                q1 + 1
            },
        };
        if q2 <= q {
            q = q2;
            break;
        }
        q = q2;
    }
    q
}

fn container_in_exec(s: &[char], q: usize, m: &mut OdxDatabase) -> (e: usize)
    requires
        q < s.len(),
    ensures
        (final(m)@, e as int) == container_in(s@, q as int, old(m)@),
        q < e <= s.len(),
{
    let a = oskip_exec(s, past_gt_exec(s, q));
    let b = container_loop_exec(s, a, m);
    past_gt_exec(s, b)
}

fn root_step_exec(s: &[char], q: usize, m: &mut OdxDatabase) -> (r: Option<usize>)
    requires
        q < s.len(),
    ensures
        match root_step(s@, q as int, old(m)@) {
            Some((m2, e)) => r == Some(e as usize) && final(m)@ == m2 && q < e <= s.len(),
            None => r is None && final(m)@ == old(m)@,
        },
{
    if at_exec(s, q, "<COMPARAM-SPEC") {
        let (c, e) = comparam_spec_elem_exec(s, q);
        let ghost before = m@;
        let ghost cv = c@;
        m.comparam_specs.push(c);
        assert(m@.comparam_specs =~= before.comparam_specs.push(cv));
        Some(e)
    } else if at_exec(s, q, "<DIAG-LAYER-CONTAINER") {
        let e = container_in_exec(s, q, m);
        Some(e)
    } else if at_exec(s, q, "<VEHICLE-INFO") {
        let (c, e) = vehicle_elem_exec(s, q);
        m.vehicle_info = Some(c);
        Some(e)
    } else {
        None
    }
}

fn root_loop_exec(s: &[char], q0: usize, m: &mut OdxDatabase) -> (e: usize)
    requires
        q0 <= s.len(),
    ensures
        (final(m)@, e as int) == root_loop(s@, q0 as int, old(m)@),
        q0 <= e <= s.len(),
{
    let mut q = q0;
    loop
        invariant_except_break
            root_loop(s@, q0 as int, old(m)@) == root_loop(s@, q as int, m@),
        invariant
            q0 <= q <= s.len(),
        ensures
            root_loop(s@, q0 as int, old(m)@) == (m@, q as int),
            q0 <= q <= s.len(),
        decreases s.len() - q,
    {
        if q >= s.len() || at_exec(s, q, "</ODX") || at_exec(s, q, "</ODX") {
            break;
        }
        let q1 = oskip_exec(s, q);
        if q1 >= s.len() {
            q = q1;
            break;
        }
        let r = root_step_exec(s, q1, m);
        let q2: usize = match r {
            Some(e) => e,
            None => if at_exec(s, q1, "<!--") {
                comment_end_exec(s, q1)
            } else if s[q1] == '<' {
                oskip_element_exec(s, q1)
            } else {
                q1 + 1
            },
        };
        if q2 <= q {
            q = q2;
            break;
        }
        q = q2;
    }
    q
}

fn root_in_exec(s: &[char], q: usize, m: &mut OdxDatabase) -> (e: usize)
    requires
        q < s.len(),
    ensures
        (final(m)@, e as int) == root_in(s@, q as int, old(m)@),
        q < e <= s.len(),
{
    let a = oskip_exec(s, past_gt_exec(s, q));
    root_loop_exec(s, a, m)
}

fn catalog_step_exec(s: &[char], q: usize, m: &mut OdxDatabase) -> (r: Option<usize>)
    requires
        q < s.len(),
    ensures
        match catalog_step(s@, q as int, old(m)@) {
            Some((m2, e)) => r == Some(e as usize) && final(m)@ == m2 && q < e <= s.len(),
            None => r is None && final(m)@ == old(m)@,
        },
{
    if at_exec(s, q, "<SHORT-NAME") {
        let (t, e) = text_elem_exec(s, q, "SHORT-NAME");
        m.short_name = string_from_chars(t.as_slice());
        Some(e)
    } else if at_exec(s, q, "<LONG-NAME") {
        let (t, e) = text_elem_exec(s, q, "LONG-NAME");
        m.long_name = Some(string_from_chars(t.as_slice()));
        Some(e)
    } else if (at_exec(s, q, "<DIAG-LAYER")) && !at_exec(s, q, "<DIAG-LAYER-CONTAINER") {
        let (c, e) = layer_elem_exec(s, q);
        let ghost before = m@;
        let ghost cv = c@;
        m.diag_layers.push(c);
        assert(m@.diag_layers =~= before.diag_layers.push(cv));
        Some(e)
    } else {
        None
    }
}

fn catalog_loop_exec(s: &[char], q0: usize, m: &mut OdxDatabase) -> (e: usize)
    requires
        q0 <= s.len(),
    ensures
        (final(m)@, e as int) == catalog_loop(s@, q0 as int, old(m)@),
        q0 <= e <= s.len(),
{
    let mut q = q0;
    loop
        invariant_except_break
            catalog_loop(s@, q0 as int, old(m)@) == catalog_loop(s@, q as int, m@),
        invariant
            q0 <= q <= s.len(),
        ensures
            catalog_loop(s@, q0 as int, old(m)@) == (m@, q as int),
            q0 <= q <= s.len(),
        decreases s.len() - q,
    {
        if q >= s.len() || at_exec(s, q, "</CATALOG") || at_exec(s, q, "</CATALOG") {
            break;
        }
        let q1 = oskip_exec(s, q);
        if q1 >= s.len() {
            q = q1;
            break;
        }
        let r = catalog_step_exec(s, q1, m);
        let q2: usize = match r {
            Some(e) => e,
            None => if at_exec(s, q1, "<!--") {
                comment_end_exec(s, q1)
            } else if s[q1] == '<' {
                oskip_element_exec(s, q1)
            } else {
                q1 + 1
            },
        };
        if q2 <= q {
            q = q2;
            break;
        }
        q = q2;
    }
    q
}

fn catalog_in_exec(s: &[char], q: usize, m: &mut OdxDatabase) -> (e: usize)
    requires
        q < s.len(),
    ensures
        (final(m)@, e as int) == catalog_in(s@, q as int, old(m)@),
        q < e <= s.len(),
{
    let a = oskip_exec(s, past_gt_exec(s, q));
    catalog_loop_exec(s, a, m)
}

// ---------------------------------------------------------------------------
// Diagnostic layers and the document
// ---------------------------------------------------------------------------

/// The layer type that the tag at `p` names (an ECU variant for a plain
/// `DIAG-LAYER`).
pub open spec fn layer_type_at(s: Seq<char>, p: int) -> DiagLayerType {
    if at(s, p, "<PROTOCOL"@) {
        DiagLayerType::Protocol
    } else if at(s, p, "<BASE-VARIANT"@) {
        DiagLayerType::BaseVariant
    } else if at(s, p, "<FUNCTIONAL-GROUP"@) && !at(s, p, "<ECU-VARIANT"@) {
        DiagLayerType::FunctionalGroup
    } else {
        DiagLayerType::EcuVariant
    }
}

/// The closing tag of a layer of type `t`.
pub open spec fn layer_end(t: DiagLayerType) -> Seq<char> {
    match t {
        DiagLayerType::Protocol => "</PROTOCOL>"@,
        DiagLayerType::BaseVariant => "</BASE-VARIANT>"@,
        DiagLayerType::EcuVariant => "</ECU-VARIANT>"@,
        DiagLayerType::FunctionalGroup => "</FUNCTIONAL-GROUP>"@,
        DiagLayerType::EcuSharedData => "</ECU-SHARED-DATA>"@,
    }
}

/// The children of a layer from `q` up to its closing tag `end`.
pub open spec fn layer_loop(s: Seq<char>, q: int, end: Seq<char>, m: LayerModel) -> (LayerModel, int) {
    odx_loop(s, q, end, end, false, m, layer_stepper(s))
}

/// The layer at `p`: its type from its tag, its `ID` attribute, its
/// children from an empty layer, and the position after its closing `>`.
pub open spec fn layer_elem(s: Seq<char>, p: int) -> (LayerModel, int) {
    let t = layer_type_at(s, p);
    let (idv, p1) = parse_attribute(s, p, "ID"@);
    let (m, b) = layer_loop(s, oskip(s, past_gt(s, p1)), layer_end(t), empty_layer(or_empty(idv), Seq::empty(), t));
    (m, past_gt(s, b))
}

/// The database read from an ODX document: after whitespace, an XML
/// declaration and another processing instruction, an `ODX` or a `CATALOG`
/// root element is read; anything else gives the empty database.
pub open spec fn odx_spec(s: Seq<char>) -> OdxModel {
    let p0 = oskip(s, 0);
    let p1 = if at(s, p0, "<?xml"@) { past_pi(s, p0) } else { p0 };
    let p2 = oskip(s, p1);
    let p3 = if at(s, p2, "<?"@) { oskip(s, past_pi(s, p2)) } else { p2 };
    if at(s, p3, "<ODX"@) {
        root_in(s, p3, empty_odx()).0
    } else if at(s, p3, "<CATALOG"@) {
        catalog_in(s, p3, empty_odx()).0
    } else {
        empty_odx()
    }
}

/// The position after the next `?>` (or the end).
pub open spec fn past_pi(s: Seq<char>, p: int) -> int {
    let q = find_lit(s, p, "?>"@);
    if at(s, q, "?>"@) {
        q + 2
    } else {
        q
    }
}

fn past_pi_exec(s: &[char], p: usize) -> (r: usize)
    requires
        p <= s.len(),
    ensures
        r as int == past_pi(s@, p as int),
        p <= r <= s.len(),
{
    let mut q = p;
    while q < s.len() && !at_exec(s, q, "?>")
        invariant
            p <= q <= s.len(),
            find_lit(s@, p as int, "?>"@) == find_lit(s@, q as int, "?>"@),
        decreases s.len() - q,
    {
        q += 1;
    }
    if at_exec(s, q, "?>") {
        proof {
            reveal_strlit("?>");
        }
        q + 2
    } else {
        q
    }
}

fn layer_type_exec(s: &[char], p: usize) -> (r: DiagLayerType)
    requires
        p <= s.len(),
    ensures
        r == layer_type_at(s@, p as int),
{
    if at_exec(s, p, "<PROTOCOL") {
        DiagLayerType::Protocol
    } else if at_exec(s, p, "<BASE-VARIANT") {
        DiagLayerType::BaseVariant
    } else if at_exec(s, p, "<FUNCTIONAL-GROUP") && !at_exec(s, p, "<ECU-VARIANT") {
        DiagLayerType::FunctionalGroup
    } else {
        DiagLayerType::EcuVariant
    }
}

fn layer_end_exec(t: DiagLayerType) -> (r: &'static str)
    ensures
        r@ == layer_end(t),
{
    match t {
        DiagLayerType::Protocol => "</PROTOCOL>",
        DiagLayerType::BaseVariant => "</BASE-VARIANT>",
        DiagLayerType::EcuVariant => "</ECU-VARIANT>",
        DiagLayerType::FunctionalGroup => "</FUNCTIONAL-GROUP>",
        DiagLayerType::EcuSharedData => "</ECU-SHARED-DATA>",
    }
}

fn layer_loop_exec(s: &[char], q0: usize, end: &str, m: &mut DiagLayer) -> (e: usize)
    requires
        q0 <= s.len(),
    ensures
        (final(m)@, e as int) == layer_loop(s@, q0 as int, end@, old(m)@),
        q0 <= e <= s.len(),
{
    let mut q = q0;
    loop
        invariant_except_break
            layer_loop(s@, q0 as int, end@, old(m)@) == layer_loop(s@, q as int, end@, m@),
        invariant
            q0 <= q <= s.len(),
        ensures
            layer_loop(s@, q0 as int, end@, old(m)@) == (m@, q as int),
            q0 <= q <= s.len(),
        decreases s.len() - q,
    {
        if q >= s.len() || at_exec(s, q, end) {
            break;
        }
        let q1 = oskip_exec(s, q);
        if q1 >= s.len() {
            q = q1;
            break;
        }
        let r = layer_step_exec(s, q1, m);
        let q2: usize = match r {
            Some(e) => e,
            None => if at_exec(s, q1, "<!--") {
                comment_end_exec(s, q1)
            } else if s[q1] == '<' {
                oskip_element_exec(s, q1)
            } else {
                q1 + 1
            },
        };
        if q2 <= q {
            q = q2;
            break;
        }
        q = q2;
    }
    q
}

fn layer_elem_exec(s: &[char], p: usize) -> (r: (DiagLayer, usize))
    requires
        p < s.len(),
    ensures
        (r.0@, r.1 as int) == layer_elem(s@, p as int),
        p < r.1 <= s.len(),
{
    let t = layer_type_exec(s, p);
    let (idv, p1) = parse_attribute_exec(s, p, "ID");
    let id = or_empty_exec(idv);
    let ids = string_from_chars(id.as_slice());
    let mut m = DiagLayer::new(ids.as_str(), "", t);
    proof {
        reveal_strlit("");
        assert(""@ =~= Seq::<char>::empty());
    }
    let a = oskip_exec(s, past_gt_exec(s, p1));
    let end = layer_end_exec(t);
    let b = layer_loop_exec(s, a, end, &mut m);
    let e = past_gt_exec(s, b);
    (m, e)
}

impl OdxParser {
    /// Read ODX content: the database that `odx_spec` gives; the reading
    /// never fails.
    pub fn parse(content: &str) -> (r: Result<OdxDatabase, OdxParseError>)
        ensures
            r matches Ok(db) && db@ == odx_spec(content@),
    {
        let v = chars_of(content);
        let s = v.as_slice();
        let p0 = oskip_exec(s, 0);
        let p1 = if at_exec(s, p0, "<?xml") { past_pi_exec(s, p0) } else { p0 };
        let p2 = oskip_exec(s, p1);
        let p3 = if at_exec(s, p2, "<?") { oskip_exec(s, past_pi_exec(s, p2)) } else { p2 };
        let mut db = OdxDatabase::new();
        if at_exec(s, p3, "<ODX") {
            proof {
                reveal_strlit("<ODX");
            }
            root_in_exec(s, p3, &mut db);
        } else if at_exec(s, p3, "<CATALOG") {
            proof {
                reveal_strlit("<CATALOG");
            }
            catalog_in_exec(s, p3, &mut db);
        }
        Ok(db)
    }
}

} // verus!
