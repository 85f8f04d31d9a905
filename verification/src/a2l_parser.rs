//! Reading A2L (ASAM MCD-2 MC) text.
//!
//! The reader walks the text character by character, as a cursor with a
//! position and a line number. Whitespace and comments (`//` to the end of
//! the line, `/* ... */`) may stand between any two items. Every block
//! reader is stated as a spec function of the text, the position and the
//! line: what it reads, where it stops, and on which line; or the failure
//! it reports.
use vstd::prelude::*;
use crate::a2l::{
    empty_a2l_database, named_module, A2lDatabase, A2lDatabaseModel, A2lModule, A2lProject, Asap2Version,
    ModuleModel, ProjectModel,
    commented_mod_common, commented_mod_par, named_function, named_group, A2lFunction, A2lGroup, A2lHeader,
    A2lMemorySegment, A2lModCommon, A2lModPar, DepositMode, FunctionModel, GroupModel, HeaderModel,
    MemorySegmentModel, ModCommonModel, ModParModel,
    bare_compu_method, compu_method_type_of_upper, named_record_layout, plain_axis_pts, A2lAxisPts,
    A2lCompuMethod, A2lCompuTab, A2lCompuVtab, A2lFncValues, A2lRecordLayout, A2lUnit, AxisPtsModel,
    CoeffsModel, CompuMethodModel, CompuMethodType, CompuTabModel, CompuVtabModel, FncValuesModel,
    RecordLayoutModel, UnitModel,
    annotations_view, if_data_view, axis_type_of_upper, characteristic_type_of_upper, plain_axis_descr,
    plain_characteristic, AxisDescrModel, AxisType, CharacteristicModel, CharacteristicType, A2lAxisDescr,
    A2lCharacteristic, axes_view,
    a2l_data_type_of_upper, plain_measurement, A2lAnnotation, A2lByteOrder, A2lDataType, A2lIfData,
    A2lMeasurement, AnnotationModel, IfDataModel, MeasurementModel, texts,
};
use crate::error::BusmasterError;
use crate::number::{parse_signed_spec, parse_unsigned, parse_unsigned_spec, parse_i64};
use crate::scan::{scan, scan_spec, CharClass};
use crate::text::{chars_of, unicode_uppercase, dec_digits, is_whitespace, is_ws, push_dec, push_str, string_from_chars, trim_bounds, trim_spec};

verus! {

broadcast use vstd::string::group_string_axioms;

// ---------------------------------------------------------------------------
// Failures
// ---------------------------------------------------------------------------

/// Why a text is refused: the message and the line it names.
pub ghost struct A2lFailure {
    pub message: Seq<char>,
    pub line: int,
}

/// The failure `what` on line `line`: the message ends with the line number.
pub open spec fn fail_at(what: Seq<char>, line: int) -> A2lFailure {
    A2lFailure { message: what + " at line "@ + dec_digits(line as nat), line }
}

/// Whether an error reports exactly the failure `f`.
pub open spec fn failure_is(e: BusmasterError, f: A2lFailure) -> bool {
    e matches BusmasterError::DatabaseParse { message, line } && message@ == f.message && line == f.line
}

/// A parse error: `what` at line `line`.
fn failure(what: String, line: usize) -> (e: BusmasterError)
    ensures
        failure_is(e, fail_at(what@, line as int)),
{
    let mut message = what;
    push_str(&mut message, " at line ");
    push_dec(&mut message, line as u64);
    BusmasterError::DatabaseParse { message, line }
}

/// The failure for a missing keyword.
pub open spec fn missing(kw: Seq<char>, line: int) -> A2lFailure {
    fail_at("Expected '"@ + kw + "'"@, line)
}

/// Whether the result `r` of a reader, left at `pos` and `line`, is what
/// the spec `sp` says.
pub open spec fn outcome<T: View>(
    r: Result<T, BusmasterError>,
    sp: Result<(T::V, int, int), A2lFailure>,
    pos: usize,
    line: usize,
) -> bool {
    match sp {
        Ok((v, p, l)) => r matches Ok(x) && x@ == v && pos == p && line == l,
        Err(f) => r matches Err(e) && failure_is(e, f),
    }
}

// ---------------------------------------------------------------------------
// Whitespace, comments and keywords
// ---------------------------------------------------------------------------

/// Whether `lit` stands in `s` at `p`.
pub open spec fn at_lit(s: Seq<char>, p: int, lit: Seq<char>) -> bool {
    0 <= p && p + lit.len() <= s.len() && s.subrange(p, p + lit.len()) == lit
}

/// The line count after the character at `p`.
pub open spec fn line_after(s: Seq<char>, p: int, l: int) -> int {
    if s[p] == '\n' {
        l + 1
    } else {
        l
    }
}

/// The end of a `//` comment whose text starts at `p`: just past the line
/// feed, or the end of the text.
pub open spec fn line_comment_end(s: Seq<char>, p: int, l: int) -> (int, int)
    decreases s.len() - p,
{
    if p < 0 || p >= s.len() {
        (p, l)
    } else if s[p] == '\n' {
        (p + 1, l + 1)
    } else {
        line_comment_end(s, p + 1, l)
    }
}

/// The end of a `/*` comment whose text starts at `p`: just past `*/`, or
/// the end of the text.
pub open spec fn block_comment_end(s: Seq<char>, p: int, l: int) -> (int, int)
    decreases s.len() - p,
{
    if p < 0 || p >= s.len() {
        (p, l)
    } else if at_lit(s, p, "*/"@) {
        (p + "*/"@.len(), l)
    } else {
        block_comment_end(s, p + 1, line_after(s, p, l))
    }
}

/// Where whitespace and comments from `p` end, and the line there.
pub open spec fn skip_ws_spec(s: Seq<char>, p: int, l: int) -> (int, int)
    decreases s.len() - p,
{
    if 0 <= p < s.len() && is_ws(s[p]) {
        skip_ws_spec(s, p + 1, line_after(s, p, l))
    } else if at_lit(s, p, "//"@) || at_lit(s, p, "/*"@) {
        let (q, m) = if at_lit(s, p, "//"@) {
            line_comment_end(s, p + "//"@.len(), l)
        } else {
            block_comment_end(s, p + "/*"@.len(), l)
        };
        if q <= p || q > s.len() {
            (q, m)
        } else {
            skip_ws_spec(s, q, m)
        }
    } else {
        (p, l)
    }
}

/// Whether the keyword `kw` stands at `p`: its characters, then the end of
/// the text, whitespace, a double quote or a slash. A keyword is not empty.
pub open spec fn kw_at(s: Seq<char>, p: int, kw: Seq<char>) -> bool {
    &&& kw.len() > 0
    &&& at_lit(s, p, kw)
    &&& (p + kw.len() == s.len() || is_ws(s[p + kw.len()]) || s[p + kw.len()] == '"' || s[p
        + kw.len()] == '/')
}

/// The keyword `kw`, after whitespace and comments: the position past it.
pub open spec fn expect_spec(s: Seq<char>, p: int, l: int, kw: Seq<char>) -> Result<(int, int), A2lFailure> {
    let (q, m) = skip_ws_spec(s, p, l);
    if kw_at(s, q, kw) {
        Ok((q + kw.len(), m))
    } else {
        Err(missing(kw, m))
    }
}

/// The end of `lit` at `p`, if it stands there.
fn lit_end(s: &[char], p: usize, lit: &str) -> (r: Option<usize>)
    requires
        p <= s.len(),
    ensures
        match r {
            Some(e) => at_lit(s@, p as int, lit@) && e == p + lit@.len(),
            None => !at_lit(s@, p as int, lit@),
        },
{
    let mut i: usize = p;
    for c in it: lit.chars()
        invariant
            it.seq() == lit@,
            p <= i <= s.len(),
            i - p == it.index(),
            forall|k: int| 0 <= k < it.index() ==> s@[p + k] == lit@[k],
    {
        if i >= s.len() || s[i] != c {
            return None;
        }
        i += 1;
    }
    proof {
        assert(s@.subrange(p as int, p + lit@.len()) =~= lit@);
    }
    Some(i)
}

/// The end of the keyword `kw` at `p`, if it stands there.
fn kw_end(s: &[char], p: usize, kw: &str) -> (r: Option<usize>)
    requires
        p <= s.len(),
    ensures
        match r {
            Some(e) => kw_at(s@, p as int, kw@) && e == p + kw@.len() && p < e <= s.len(),
            None => !kw_at(s@, p as int, kw@),
        },
{
    match lit_end(s, p, kw) {
        None => None,
        Some(e) => {
            if e == p {
                None
            } else if e == s.len() || is_whitespace(s[e]) || s[e] == '"' || s[e] == '/' {
                Some(e)
            } else {
                None
            }
        },
    }
}

// ---------------------------------------------------------------------------
// Tokens
// ---------------------------------------------------------------------------

/// An identifier (letters, digits, `_`, `.`, `[`, `]`), after whitespace and
/// comments.
pub open spec fn ident_spec(s: Seq<char>, p: int, l: int) -> Result<(Seq<char>, int, int), A2lFailure> {
    let (q, m) = skip_ws_spec(s, p, l);
    let e = scan_spec(s, q, CharClass::Symbol);
    if e == q {
        Err(fail_at("Expected identifier"@, m))
    } else {
        Ok((s.subrange(q, e), e, m))
    }
}

/// What a backslash followed by `c` stands for in a string.
pub open spec fn escape_text(c: char) -> Seq<char> {
    if c == 'n' {
        seq!['\n']
    } else if c == 't' {
        seq!['\t']
    } else if c == 'r' {
        seq!['\r']
    } else if c == '\\' {
        seq!['\\']
    } else if c == '"' {
        seq!['"']
    } else {
        seq!['\\', c]
    }
}

/// The rest of a string from `p` (past the opening quote): its text so far
/// `acc`, where it ends and the line there. A doubled quote stands for one
/// quote; a string that is not closed runs to the end of the text.
pub open spec fn string_body(s: Seq<char>, p: int, l: int, acc: Seq<char>) -> (Seq<char>, int, int)
    decreases s.len() - p,
{
    if p < 0 || p >= s.len() {
        (acc, p, l)
    } else if s[p] == '"' {
        if p + 1 < s.len() && s[p + 1] == '"' {
            string_body(s, p + 2, l, acc.push('"'))
        } else {
            (acc, p + 1, l)
        }
    } else if s[p] == '\\' {
        if p + 1 < s.len() {
            string_body(s, p + 2, l, acc + escape_text(s[p + 1]))
        } else {
            (acc, p + 1, l)
        }
    } else {
        string_body(s, p + 1, line_after(s, p, l), acc.push(s[p]))
    }
}

/// A double-quoted string, after whitespace and comments.
pub open spec fn string_spec(s: Seq<char>, p: int, l: int) -> Result<(Seq<char>, int, int), A2lFailure> {
    let (q, m) = skip_ws_spec(s, p, l);
    if 0 <= q < s.len() && s[q] == '"' {
        Ok(string_body(s, q + 1, m, Seq::empty()))
    } else {
        Err(fail_at("Expected string"@, m))
    }
}

/// A decimal unsigned integer of at most `max`, after whitespace and comments.
pub open spec fn uint_spec(s: Seq<char>, p: int, l: int, max: nat) -> Result<(nat, int, int), A2lFailure> {
    let (q, m) = skip_ws_spec(s, p, l);
    let e = scan_spec(s, q, CharClass::Digit);
    if e == q {
        Err(fail_at("Expected number"@, m))
    } else {
        match parse_unsigned_spec(s.subrange(q, e), 10, max) {
            Ok(v) => Ok((v, e, m)),
            Err(_) => Err(fail_at("Invalid number"@, m)),
        }
    }
}

/// A decimal integer with an optional minus sign, between `lo` and `hi`,
/// after whitespace and comments.
pub open spec fn int_spec(s: Seq<char>, p: int, l: int, lo: int, hi: int) -> Result<(int, int, int), A2lFailure> {
    let (q, m) = skip_ws_spec(s, p, l);
    let a = if 0 <= q < s.len() && s[q] == '-' { q + 1 } else { q };
    let e = scan_spec(s, a, CharClass::Digit);
    if e == a {
        Err(fail_at("Expected number"@, m))
    } else {
        match parse_signed_spec(s.subrange(q, e), 10) {
            Ok(v) => if lo <= v <= hi {
                Ok((v, e, m))
            } else {
                Err(fail_at("Invalid number"@, m))
            },
            Err(_) => Err(fail_at("Invalid number"@, m)),
        }
    }
}

/// The end of the decimal number that starts at `q` (sign, digits, a
/// fraction, an exponent), and whether it is a number: at least one digit
/// before or after the point, and at least one in an exponent.
pub open spec fn decimal_scan(s: Seq<char>, q: int) -> (int, bool) {
    let a = if 0 <= q < s.len() && (s[q] == '-' || s[q] == '+') { q + 1 } else { q };
    let b = scan_spec(s, a, CharClass::Digit);
    let c = if 0 <= b < s.len() && s[b] == '.' { scan_spec(s, b + 1, CharClass::Digit) } else { b };
    let digits = (b - a) + (if c > b { c - b - 1 } else { 0 });
    if 0 <= c < s.len() && (s[c] == 'e' || s[c] == 'E') {
        let d = if c + 1 < s.len() && (s[c + 1] == '-' || s[c + 1] == '+') { c + 2 } else { c + 1 };
        let e = scan_spec(s, d, CharClass::Digit);
        (e, digits > 0 && e > d)
    } else {
        (c, digits > 0)
    }
}

/// A decimal number (kept as its text), after whitespace and comments.
pub open spec fn decimal_spec(s: Seq<char>, p: int, l: int) -> Result<(Seq<char>, int, int), A2lFailure> {
    let (q, m) = skip_ws_spec(s, p, l);
    let (e, ok) = decimal_scan(s, q);
    if e == q {
        Err(fail_at("Expected number"@, m))
    } else if !ok {
        Err(fail_at("Invalid number"@, m))
    } else {
        Ok((s.subrange(q, e), e, m))
    }
}

/// An address: `0x` or `0X` and hexadecimal digits, or decimal digits; at
/// most `u64::MAX`; after whitespace and comments.
pub open spec fn address_spec(s: Seq<char>, p: int, l: int) -> Result<(nat, int, int), A2lFailure> {
    let (q, m) = skip_ws_spec(s, p, l);
    if at_lit(s, q, "0x"@) || at_lit(s, q, "0X"@) {
        let a = if at_lit(s, q, "0x"@) { q + "0x"@.len() } else { q + "0X"@.len() };
        let e = scan_spec(s, a, CharClass::HexDigit);
        match parse_unsigned_spec(s.subrange(a, e), 16, u64::MAX as nat) {
            Ok(v) => Ok((v, e, m)),
            Err(_) => Err(fail_at("Invalid hex number"@, m)),
        }
    } else {
        let e = scan_spec(s, q, CharClass::Digit);
        match parse_unsigned_spec(s.subrange(q, e), 10, u64::MAX as nat) {
            Ok(v) => Ok((v, e, m)),
            Err(_) => Err(fail_at("Invalid number"@, m)),
        }
    }
}

// ---------------------------------------------------------------------------
// Blocks that are skipped or kept as raw text, identifier lists
// ---------------------------------------------------------------------------

/// Skipping a block whose `/begin` has been read, with `depth` blocks open:
/// nested blocks are counted, and the name after the last `/end` is
/// stepped over too.
pub open spec fn skip_block_spec(s: Seq<char>, p: int, l: int, depth: nat) -> (int, int)
    decreases s.len() - p,
{
    if depth == 0 || p < 0 || p >= s.len() {
        (p, l)
    } else {
        let (q, m) = skip_ws_spec(s, p, l);
        if kw_at(s, q, "/begin"@) {
            let r = q + "/begin"@.len();
            if r <= p || r > s.len() {
                (r, m)
            } else {
                skip_block_spec(s, r, m, depth + 1)
            }
        } else if kw_at(s, q, "/end"@) {
            let r = q + "/end"@.len();
            if depth == 1 {
                let (t, n) = skip_ws_spec(s, r, m);
                (scan_spec(s, t, CharClass::Symbol), n)
            } else if r <= p || r > s.len() {
                (r, m)
            } else {
                skip_block_spec(s, r, m, (depth - 1) as nat)
            }
        } else if q < s.len() {
            if q + 1 <= p {
                (q + 1, m)
            } else {
                skip_block_spec(s, q + 1, m, depth)
            }
        } else {
            (q, m)
        }
    }
}

/// Identifiers up to `/end` or the end of the text, from `p` (which
/// follows whitespace): the list so far is `acc`. Anything else there is
/// refused as a missing identifier.
pub open spec fn ident_list_from(s: Seq<char>, p: int, l: int, acc: Seq<Seq<char>>) -> Result<
    (Seq<Seq<char>>, int, int),
    A2lFailure,
>
    decreases s.len() - p,
{
    if p < 0 || p >= s.len() || kw_at(s, p, "/end"@) {
        Ok((acc, p, l))
    } else {
        match ident_spec(s, p, l) {
            Err(f) => Err(f),
            Ok((id, e, m)) => {
                let (q, n) = skip_ws_spec(s, e, m);
                if q <= p || q > s.len() {
                    Ok((acc.push(id), q, n))
                } else {
                    ident_list_from(s, q, n, acc.push(id))
                }
            },
        }
    }
}

/// A list of identifiers up to `/end`.
pub open spec fn ident_list_spec(s: Seq<char>, p: int, l: int) -> Result<(Seq<Seq<char>>, int, int), A2lFailure> {
    let (q, m) = skip_ws_spec(s, p, l);
    ident_list_from(s, q, m, Seq::empty())
}

/// Where the raw text of a block ends, with `depth` blocks open: at the
/// `/end` that closes it, or the end of the text. Comments are not
/// recognised here.
pub open spec fn raw_block_end(s: Seq<char>, p: int, depth: nat) -> int
    decreases s.len() - p,
{
    if depth == 0 || p < 0 || p >= s.len() {
        p
    } else if kw_at(s, p, "/begin"@) {
        let r = p + "/begin"@.len();
        if r > s.len() {
            r
        } else {
            raw_block_end(s, r, depth + 1)
        }
    } else if kw_at(s, p, "/end"@) {
        if depth == 1 {
            p
        } else {
            let r = p + "/end"@.len();
            if r > s.len() {
                r
            } else {
                raw_block_end(s, r, (depth - 1) as nat)
            }
        }
    } else {
        raw_block_end(s, p + 1, depth)
    }
}

/// An `IF_DATA` block after its keyword: the name, then everything up to the
/// matching `/end` as trimmed raw text.
pub open spec fn if_data_spec(s: Seq<char>, p: int, l: int) -> Result<(IfDataModel, int, int), A2lFailure> {
    match ident_spec(s, p, l) {
        Err(f) => Err(f),
        Ok((name, e, m)) => {
            let (q, n) = skip_ws_spec(s, e, m);
            let c = raw_block_end(s, q, 1);
            match expect_spec(s, c, n, "/end"@) {
                Err(f) => Err(f),
                Ok((r, k)) => match expect_spec(s, r, k, "IF_DATA"@) {
                    Err(f) => Err(f),
                    Ok((t, j)) => Ok((IfDataModel { name, content: trim_spec(s.subrange(q, c)) }, t, j)),
                },
            }
        },
    }
}

/// Strings up to `/end` or the end of the text, added to `acc`; other
/// characters between them are passed over.
pub open spec fn text_lines(s: Seq<char>, p: int, l: int, acc: Seq<Seq<char>>) -> Result<
    (Seq<Seq<char>>, int, int),
    A2lFailure,
>
    decreases s.len() - p,
{
    if p < 0 || p >= s.len() || kw_at(s, p, "/end"@) {
        Ok((acc, p, l))
    } else if s[p] == '"' {
        match string_spec(s, p, l) {
            Err(f) => Err(f),
            Ok((t, e, m)) => {
                let (q, n) = skip_ws_spec(s, e, m);
                if q <= p || q > s.len() {
                    Ok((acc.push(t), q, n))
                } else {
                    text_lines(s, q, n, acc.push(t))
                }
            },
        }
    } else {
        text_lines(s, p + 1, l, acc)
    }
}

/// The end keyword `/end` and then `name`.
pub open spec fn close_spec(s: Seq<char>, p: int, l: int, name: Seq<char>) -> Result<(int, int), A2lFailure> {
    match expect_spec(s, p, l, "/end"@) {
        Err(f) => Err(f),
        Ok((q, m)) => expect_spec(s, q, m, name),
    }
}

/// One step of an `ANNOTATION` block: whether to go on, the annotation so
/// far, and where the step ends.
pub open spec fn annotation_step(s: Seq<char>, p: int, l: int, a: AnnotationModel) -> Result<
    (bool, AnnotationModel, int, int),
    A2lFailure,
> {
    let (q, m) = skip_ws_spec(s, p, l);
    if kw_at(s, q, "ANNOTATION_LABEL"@) {
        match string_spec(s, q + "ANNOTATION_LABEL"@.len(), m) {
            Err(f) => Err(f),
            Ok((t, e, n)) => Ok((true, AnnotationModel { label: Some(t), ..a }, e, n)),
        }
    } else if kw_at(s, q, "ANNOTATION_ORIGIN"@) {
        match string_spec(s, q + "ANNOTATION_ORIGIN"@.len(), m) {
            Err(f) => Err(f),
            Ok((t, e, n)) => Ok((true, AnnotationModel { origin: Some(t), ..a }, e, n)),
        }
    } else if kw_at(s, q, "/begin"@) {
        let (r, n) = skip_ws_spec(s, q + "/begin"@.len(), m);
        if kw_at(s, r, "ANNOTATION_TEXT"@) {
            let (t, k) = skip_ws_spec(s, r + "ANNOTATION_TEXT"@.len(), n);
            match text_lines(s, t, k, a.text) {
                Err(f) => Err(f),
                Ok((lines, u, j)) => match close_spec(s, u, j, "ANNOTATION_TEXT"@) {
                    Err(f) => Err(f),
                    Ok((w, h)) => Ok((true, AnnotationModel { text: lines, ..a }, w, h)),
                },
            }
        } else {
            let (t, k) = skip_block_spec(s, r, n, 1);
            Ok((true, a, t, k))
        }
    } else if q >= s.len() || kw_at(s, q, "/end"@) {
        Ok((false, a, q, m))
    } else {
        Ok((true, a, q + 1, m))
    }
}

/// The entries of an `ANNOTATION` block from `p` up to its `/end`.
pub open spec fn annotation_loop(s: Seq<char>, p: int, l: int, a: AnnotationModel) -> Result<
    (AnnotationModel, int, int),
    A2lFailure,
>
    decreases s.len() - p,
{
    if kw_at(s, p, "/end"@) {
        Ok((a, p, l))
    } else {
        match annotation_step(s, p, l, a) {
            Err(f) => Err(f),
            Ok((go, b, q, m)) => if !go || q <= p || q > s.len() {
                Ok((b, q, m))
            } else {
                annotation_loop(s, q, m, b)
            },
        }
    }
}

/// An annotation with nothing set.
pub open spec fn empty_annotation() -> AnnotationModel {
    AnnotationModel { label: None, origin: None, text: Seq::empty() }
}

/// An `ANNOTATION` block after its keyword.
pub open spec fn annotation_spec(s: Seq<char>, p: int, l: int) -> Result<(AnnotationModel, int, int), A2lFailure> {
    let (q, m) = skip_ws_spec(s, p, l);
    match annotation_loop(s, q, m, empty_annotation()) {
        Err(f) => Err(f),
        Ok((a, r, k)) => match close_spec(s, r, k, "ANNOTATION"@) {
            Err(f) => Err(f),
            Ok((t, j)) => Ok((a, t, j)),
        },
    }
}

// ---------------------------------------------------------------------------
// The entries of a block
// ---------------------------------------------------------------------------

/// The entries of a block from `p` up to its `/end`: `step` reads one entry
/// (or passes over one character) and says whether to go on. A step that
/// did not move the reader would end the loop; none does.
pub open spec fn block_loop<M>(
    s: Seq<char>,
    p: int,
    l: int,
    m: M,
    step: spec_fn(int, int, M) -> Result<(bool, M, int, int), A2lFailure>,
) -> Result<(M, int, int), A2lFailure>
    decreases s.len() - p,
{
    if kw_at(s, p, "/end"@) {
        Ok((m, p, l))
    } else {
        match step(p, l, m) {
            Err(f) => Err(f),
            Ok((go, m2, q, n)) => if !go || q <= p || q > s.len() {
                Ok((m2, q, n))
            } else {
                block_loop(s, q, n, m2, step)
            },
        }
    }
}

/// The entries of a block from `p` (whitespace and comments first), then
/// `/end` and the block's `name`.
pub open spec fn block_rest<M>(
    s: Seq<char>,
    p: int,
    l: int,
    m: M,
    step: spec_fn(int, int, M) -> Result<(bool, M, int, int), A2lFailure>,
    name: Seq<char>,
) -> Result<(M, int, int), A2lFailure> {
    let (q, k) = skip_ws_spec(s, p, l);
    match block_loop(s, q, k, m, step) {
        Err(f) => Err(f),
        Ok((m2, r, n)) => match close_spec(s, r, n, name) {
            Err(f) => Err(f),
            Ok((t, j)) => Ok((m2, t, j)),
        },
    }
}

/// The byte order that a `BYTE_ORDER` value names: `MSB_FIRST` is
/// big-endian (most significant byte first), any other value, `MSB_LAST`
/// among them, little-endian.
pub open spec fn byte_order_of(o: Seq<char>) -> A2lByteOrder {
    if o == "MSB_FIRST"@ {
        A2lByteOrder::BigEndian
    } else {
        A2lByteOrder::LittleEndian
    }
}

/// Matrix dimensions from `p`, added to `acc`: numbers until one cannot be
/// read, or until `/end` or `stop` follows one.
pub open spec fn dims_from(s: Seq<char>, p: int, l: int, acc: Seq<u32>, stop: Seq<char>) -> (Seq<u32>, int, int)
    decreases s.len() - p,
{
    let (q, m) = skip_ws_spec(s, p, l);
    let e = scan_spec(s, q, CharClass::Digit);
    if e == q {
        (acc, q, m)
    } else {
        match parse_unsigned_spec(s.subrange(q, e), 10, u32::MAX as nat) {
            Err(_) => (acc, e, m),
            Ok(v) => {
                let (r, n) = skip_ws_spec(s, e, m);
                let more = acc.push(v as u32);
                if kw_at(s, r, "/end"@) || kw_at(s, r, stop) || r <= p || r > s.len() {
                    (more, r, n)
                } else {
                    dims_from(s, r, n, more, stop)
                }
            },
        }
    }
}

/// A nested block that an entry list may hold after `/begin`: `IF_DATA`,
/// `ANNOTATION`, or any other (skipped). The reader stands at the block's
/// name.
pub open spec fn nested_spec(s: Seq<char>, r: int, n: int, if_data: Seq<IfDataModel>, annotations: Seq<
    AnnotationModel,
>) -> Result<(Seq<IfDataModel>, Seq<AnnotationModel>, int, int), A2lFailure> {
    if kw_at(s, r, "IF_DATA"@) {
        match if_data_spec(s, r + "IF_DATA"@.len(), n) {
            Err(f) => Err(f),
            Ok((d, t, k)) => Ok((if_data.push(d), annotations, t, k)),
        }
    } else if kw_at(s, r, "ANNOTATION"@) {
        match annotation_spec(s, r + "ANNOTATION"@.len(), n) {
            Err(f) => Err(f),
            Ok((a, t, k)) => Ok((if_data, annotations.push(a), t, k)),
        }
    } else {
        let (t, k) = skip_block_spec(s, r, n, 1);
        Ok((if_data, annotations, t, k))
    }
}

/// One entry of a `MEASUREMENT` block.
#[verifier::opaque]
pub open spec fn measurement_step(s: Seq<char>, p: int, l: int, x: MeasurementModel) -> Result<
    (bool, MeasurementModel, int, int),
    A2lFailure,
> {
    let (q, m) = skip_ws_spec(s, p, l);
    if kw_at(s, q, "ECU_ADDRESS"@) {
        match address_spec(s, q + "ECU_ADDRESS"@.len(), m) {
            Err(f) => Err(f),
            Ok((v, e, n)) => Ok((true, MeasurementModel { ecu_address: Some(v as u64), ..x }, e, n)),
        }
    } else if kw_at(s, q, "ECU_ADDRESS_EXTENSION"@) {
        match uint_spec(s, q + "ECU_ADDRESS_EXTENSION"@.len(), m, 0xFFFF) {
            Err(f) => Err(f),
            Ok((v, e, n)) => Ok((true, MeasurementModel { ecu_address_extension: Some((v % 256) as u8), ..x }, e, n)),
        }
    } else if kw_at(s, q, "FORMAT"@) {
        match string_spec(s, q + "FORMAT"@.len(), m) {
            Err(f) => Err(f),
            Ok((t, e, n)) => Ok((true, MeasurementModel { format: Some(t), ..x }, e, n)),
        }
    } else if kw_at(s, q, "PHYS_UNIT"@) {
        match string_spec(s, q + "PHYS_UNIT"@.len(), m) {
            Err(f) => Err(f),
            Ok((t, e, n)) => Ok((true, MeasurementModel { phys_unit: Some(t), ..x }, e, n)),
        }
    } else if kw_at(s, q, "BIT_MASK"@) {
        match address_spec(s, q + "BIT_MASK"@.len(), m) {
            Err(f) => Err(f),
            Ok((v, e, n)) => Ok((true, MeasurementModel { bit_mask: Some(v as u64), ..x }, e, n)),
        }
    } else if kw_at(s, q, "BYTE_ORDER"@) {
        match ident_spec(s, q + "BYTE_ORDER"@.len(), m) {
            Err(f) => Err(f),
            Ok((o, e, n)) => Ok((true, MeasurementModel { byte_order: Some(byte_order_of(o)), ..x }, e, n)),
        }
    } else if kw_at(s, q, "DISCRETE"@) {
        Ok((true, MeasurementModel { discrete: true, ..x }, q + "DISCRETE"@.len(), m))
    } else if kw_at(s, q, "READ_WRITE"@) {
        Ok((true, MeasurementModel { read_write: true, ..x }, q + "READ_WRITE"@.len(), m))
    } else if kw_at(s, q, "DISPLAY_IDENTIFIER"@) {
        match ident_spec(s, q + "DISPLAY_IDENTIFIER"@.len(), m) {
            Err(f) => Err(f),
            Ok((t, e, n)) => Ok((true, MeasurementModel { display_identifier: Some(t), ..x }, e, n)),
        }
    } else if kw_at(s, q, "MATRIX_DIM"@) {
        let (d, e, n) = dims_from(s, q + "MATRIX_DIM"@.len(), m, Seq::empty(), "ECU_ADDRESS"@);
        Ok((true, MeasurementModel { matrix_dim: Some(d), ..x }, e, n))
    } else if kw_at(s, q, "/begin"@) {
        let (r, k) = skip_ws_spec(s, q + "/begin"@.len(), m);
        match nested_spec(s, r, k, x.if_data, x.annotations) {
            Err(f) => Err(f),
            Ok((d, a, e, n)) => Ok((true, MeasurementModel { if_data: d, annotations: a, ..x }, e, n)),
        }
    } else if q >= s.len() || kw_at(s, q, "/end"@) {
        Ok((false, x, q, m))
    } else {
        Ok((true, x, q + 1, m))
    }
}

/// The entry reader of `MEASUREMENT` blocks.
pub open spec fn measurement_stepper(s: Seq<char>) -> spec_fn(int, int, MeasurementModel) -> Result<
    (bool, MeasurementModel, int, int),
    A2lFailure,
> {
    |p: int, l: int, x: MeasurementModel| measurement_step(s, p, l, x)
}

/// A `MEASUREMENT` block after its keyword: name, description, data type,
/// computation method, resolution, accuracy and limits, then its entries.
/// An unknown data type reads as `UBYTE`.
pub open spec fn measurement_spec(s: Seq<char>, p: int, l: int) -> Result<(MeasurementModel, int, int), A2lFailure> {
    match ident_spec(s, p, l) {
        Err(f) => Err(f),
        Ok((name, p1, l1)) => match string_spec(s, p1, l1) {
            Err(f) => Err(f),
            Ok((long, p2, l2)) => match ident_spec(s, p2, l2) {
                Err(f) => Err(f),
                Ok((dt, p3, l3)) => match ident_spec(s, p3, l3) {
                    Err(f) => Err(f),
                    Ok((cm, p4, l4)) => match decimal_spec(s, p4, l4) {
                        Err(f) => Err(f),
                        Ok((res, p5, l5)) => match decimal_spec(s, p5, l5) {
                            Err(f) => Err(f),
                            Ok((acc, p6, l6)) => match decimal_spec(s, p6, l6) {
                                Err(f) => Err(f),
                                Ok((lo, p7, l7)) => match decimal_spec(s, p7, l7) {
                                    Err(f) => Err(f),
                                    Ok((hi, p8, l8)) => block_rest(
                                        s,
                                        p8,
                                        l8,
                                        plain_measurement(name, long, data_type_or_default(dt), cm, res, acc, lo, hi),
                                        measurement_stepper(s),
                                        "MEASUREMENT"@,
                                    ),
                                },
                            },
                        },
                    },
                },
            },
        },
    }
}

/// One entry of an `AXIS_DESCR` block.
#[verifier::opaque]
pub open spec fn axis_descr_step(s: Seq<char>, p: int, l: int, x: AxisDescrModel) -> Result<
    (bool, AxisDescrModel, int, int),
    A2lFailure,
> {
    let (q, m) = skip_ws_spec(s, p, l);
    if kw_at(s, q, "EXTENDED_LIMITS"@) {
        match decimal_spec(s, q + "EXTENDED_LIMITS"@.len(), m) {
            Err(f) => Err(f),
            Ok((a, e, n)) => match decimal_spec(s, e, n) {
                Err(f) => Err(f),
                Ok((b, e2, n2)) => Ok((true, AxisDescrModel { extended_limits: Some((a, b)), ..x }, e2, n2)),
            },
        }
    } else if kw_at(s, q, "READ_ONLY"@) {
        Ok((true, AxisDescrModel { read_only: true, ..x }, q + "READ_ONLY"@.len(), m))
    } else if kw_at(s, q, "AXIS_PTS_REF"@) {
        match ident_spec(s, q + "AXIS_PTS_REF"@.len(), m) {
            Err(f) => Err(f),
            Ok((t, e, n)) => Ok((true, AxisDescrModel { axis_pts_ref: Some(t), ..x }, e, n)),
        }
    } else if kw_at(s, q, "CURVE_AXIS_REF"@) {
        match ident_spec(s, q + "CURVE_AXIS_REF"@.len(), m) {
            Err(f) => Err(f),
            Ok((t, e, n)) => Ok((true, AxisDescrModel { curve_axis_ref: Some(t), ..x }, e, n)),
        }
    } else if q >= s.len() || kw_at(s, q, "/end"@) {
        Ok((false, x, q, m))
    } else {
        Ok((true, x, q + 1, m))
    }
}

/// The entry reader of `AXIS_DESCR` blocks.
pub open spec fn axis_descr_stepper(s: Seq<char>) -> spec_fn(int, int, AxisDescrModel) -> Result<
    (bool, AxisDescrModel, int, int),
    A2lFailure,
> {
    |p: int, l: int, x: AxisDescrModel| axis_descr_step(s, p, l, x)
}

/// The axis type that a name gives (compared after Unicode uppercasing);
/// a standard axis for an unknown name.
pub open spec fn axis_type_or_default(t: Seq<char>) -> AxisType {
    match axis_type_of_upper(unicode_uppercase(t)) {
        Some(a) => a,
        None => AxisType::StdAxis,
    }
}

/// An `AXIS_DESCR` block after its keyword: axis type, input quantity,
/// computation method, number of points and limits, then its entries.
pub open spec fn axis_descr_spec(s: Seq<char>, p: int, l: int) -> Result<(AxisDescrModel, int, int), A2lFailure> {
    match ident_spec(s, p, l) {
        Err(f) => Err(f),
        Ok((at, p1, l1)) => match ident_spec(s, p1, l1) {
            Err(f) => Err(f),
            Ok((iq, p2, l2)) => match ident_spec(s, p2, l2) {
                Err(f) => Err(f),
                Ok((cm, p3, l3)) => match uint_spec(s, p3, l3, 0xFFFF) {
                    Err(f) => Err(f),
                    Ok((n, p4, l4)) => match decimal_spec(s, p4, l4) {
                        Err(f) => Err(f),
                        Ok((lo, p5, l5)) => match decimal_spec(s, p5, l5) {
                            Err(f) => Err(f),
                            Ok((hi, p6, l6)) => block_rest(
                                s,
                                p6,
                                l6,
                                plain_axis_descr(axis_type_or_default(at), iq, cm, n as u16, lo, hi),
                                axis_descr_stepper(s),
                                "AXIS_DESCR"@,
                            ),
                        },
                    },
                },
            },
        },
    }
}

/// One entry of a `CHARACTERISTIC` block.
#[verifier::opaque]
pub open spec fn characteristic_step(s: Seq<char>, p: int, l: int, x: CharacteristicModel) -> Result<
    (bool, CharacteristicModel, int, int),
    A2lFailure,
> {
    let (q, m) = skip_ws_spec(s, p, l);
    if kw_at(s, q, "FORMAT"@) {
        match string_spec(s, q + "FORMAT"@.len(), m) {
            Err(f) => Err(f),
            Ok((t, e, n)) => Ok((true, CharacteristicModel { format: Some(t), ..x }, e, n)),
        }
    } else if kw_at(s, q, "PHYS_UNIT"@) {
        match string_spec(s, q + "PHYS_UNIT"@.len(), m) {
            Err(f) => Err(f),
            Ok((t, e, n)) => Ok((true, CharacteristicModel { phys_unit: Some(t), ..x }, e, n)),
        }
    } else if kw_at(s, q, "EXTENDED_LIMITS"@) {
        match decimal_spec(s, q + "EXTENDED_LIMITS"@.len(), m) {
            Err(f) => Err(f),
            Ok((a, e, n)) => match decimal_spec(s, e, n) {
                Err(f) => Err(f),
                Ok((b, e2, n2)) => Ok((true, CharacteristicModel { extended_limits: Some((a, b)), ..x }, e2, n2)),
            },
        }
    } else if kw_at(s, q, "READ_ONLY"@) {
        Ok((true, CharacteristicModel { read_only: true, ..x }, q + "READ_ONLY"@.len(), m))
    } else if kw_at(s, q, "DISCRETE"@) {
        Ok((true, CharacteristicModel { discrete: true, ..x }, q + "DISCRETE"@.len(), m))
    } else if kw_at(s, q, "GUARD_RAILS"@) {
        Ok((true, CharacteristicModel { guard_rails: true, ..x }, q + "GUARD_RAILS"@.len(), m))
    } else if kw_at(s, q, "STEP_SIZE"@) {
        match decimal_spec(s, q + "STEP_SIZE"@.len(), m) {
            Err(f) => Err(f),
            Ok((t, e, n)) => Ok((true, CharacteristicModel { step_size: Some(t), ..x }, e, n)),
        }
    } else if kw_at(s, q, "NUMBER"@) {
        match uint_spec(s, q + "NUMBER"@.len(), m, u32::MAX as nat) {
            Err(f) => Err(f),
            Ok((v, e, n)) => Ok((true, CharacteristicModel { number: Some(v as u32), ..x }, e, n)),
        }
    } else if kw_at(s, q, "MATRIX_DIM"@) {
        let (d, e, n) = dims_from(s, q + "MATRIX_DIM"@.len(), m, Seq::empty(), "/begin"@);
        Ok((true, CharacteristicModel { matrix_dim: Some(d), ..x }, e, n))
    } else if kw_at(s, q, "/begin"@) {
        let (r, k) = skip_ws_spec(s, q + "/begin"@.len(), m);
        if kw_at(s, r, "AXIS_DESCR"@) {
            match axis_descr_spec(s, r + "AXIS_DESCR"@.len(), k) {
                Err(f) => Err(f),
                Ok((a, e, n)) => Ok((true, CharacteristicModel { axis_descr: x.axis_descr.push(a), ..x }, e, n)),
            }
        } else {
            match nested_spec(s, r, k, x.if_data, x.annotations) {
                Err(f) => Err(f),
                Ok((d, a, e, n)) => Ok((true, CharacteristicModel { if_data: d, annotations: a, ..x }, e, n)),
            }
        }
    } else if q >= s.len() || kw_at(s, q, "/end"@) {
        Ok((false, x, q, m))
    } else {
        Ok((true, x, q + 1, m))
    }
}

/// The entry reader of `CHARACTERISTIC` blocks.
pub open spec fn characteristic_stepper(s: Seq<char>) -> spec_fn(int, int, CharacteristicModel) -> Result<
    (bool, CharacteristicModel, int, int),
    A2lFailure,
> {
    |p: int, l: int, x: CharacteristicModel| characteristic_step(s, p, l, x)
}

/// The characteristic type that a name gives (compared after Unicode
/// uppercasing); a single value for an unknown name.
pub open spec fn characteristic_type_or_default(t: Seq<char>) -> CharacteristicType {
    match characteristic_type_of_upper(unicode_uppercase(t)) {
        Some(c) => c,
        None => CharacteristicType::Value,
    }
}

/// A `CHARACTERISTIC` block after its keyword: name, description, type,
/// address, record layout, maximum difference, computation method and
/// limits, then its entries.
pub open spec fn characteristic_spec(s: Seq<char>, p: int, l: int) -> Result<(CharacteristicModel, int, int), A2lFailure> {
    match ident_spec(s, p, l) {
        Err(f) => Err(f),
        Ok((name, p1, l1)) => match string_spec(s, p1, l1) {
            Err(f) => Err(f),
            Ok((long, p2, l2)) => match ident_spec(s, p2, l2) {
                Err(f) => Err(f),
                Ok((ct, p3, l3)) => match address_spec(s, p3, l3) {
                    Err(f) => Err(f),
                    Ok((addr, p4, l4)) => match ident_spec(s, p4, l4) {
                        Err(f) => Err(f),
                        Ok((rl, p5, l5)) => match decimal_spec(s, p5, l5) {
                            Err(f) => Err(f),
                            Ok((md, p6, l6)) => match ident_spec(s, p6, l6) {
                                Err(f) => Err(f),
                                Ok((cm, p7, l7)) => match decimal_spec(s, p7, l7) {
                                    Err(f) => Err(f),
                                    Ok((lo, p8, l8)) => match decimal_spec(s, p8, l8) {
                                        Err(f) => Err(f),
                                        Ok((hi, p9, l9)) => block_rest(
                                            s,
                                            p9,
                                            l9,
                                            plain_characteristic(name, long, characteristic_type_or_default(ct),
                                                addr as u64, rl, md, cm, lo, hi),
                                            characteristic_stepper(s),
                                            "CHARACTERISTIC"@,
                                        ),
                                    },
                                },
                            },
                        },
                    },
                },
            },
        },
    }
}

/// Where the text up to the next `/end` (or the end of the text) ends.
pub open spec fn skip_to_end(s: Seq<char>, p: int) -> int
    decreases s.len() - p,
{
    if p < 0 || p >= s.len() || kw_at(s, p, "/end"@) {
        p
    } else {
        skip_to_end(s, p + 1)
    }
}

/// The six decimal numbers of `COEFFS`.
pub open spec fn six_decimals(s: Seq<char>, p: int, l: int) -> Result<(CoeffsModel, int, int), A2lFailure> {
    match decimal_spec(s, p, l) {
        Err(f) => Err(f),
        Ok((a, p1, l1)) => match decimal_spec(s, p1, l1) {
            Err(f) => Err(f),
            Ok((b, p2, l2)) => match decimal_spec(s, p2, l2) {
                Err(f) => Err(f),
                Ok((c, p3, l3)) => match decimal_spec(s, p3, l3) {
                    Err(f) => Err(f),
                    Ok((d, p4, l4)) => match decimal_spec(s, p4, l4) {
                        Err(f) => Err(f),
                        Ok((e, p5, l5)) => match decimal_spec(s, p5, l5) {
                            Err(f) => Err(f),
                            Ok((g, p6, l6)) => Ok(((a, b, c, d, e, g), p6, l6)),
                        },
                    },
                },
            },
        },
    }
}

/// One entry of a `COMPU_METHOD` block.
#[verifier::opaque]
pub open spec fn compu_method_step(s: Seq<char>, p: int, l: int, x: CompuMethodModel) -> Result<
    (bool, CompuMethodModel, int, int),
    A2lFailure,
> {
    let (q, m) = skip_ws_spec(s, p, l);
    if kw_at(s, q, "COEFFS_LINEAR"@) {
        match decimal_spec(s, q + "COEFFS_LINEAR"@.len(), m) {
            Err(f) => Err(f),
            Ok((a, e, n)) => match decimal_spec(s, e, n) {
                Err(f) => Err(f),
                Ok((b, e2, n2)) => Ok((true, CompuMethodModel { coeffs_linear: Some((a, b)), ..x }, e2, n2)),
            },
        }
    } else if kw_at(s, q, "COEFFS"@) {
        match six_decimals(s, q + "COEFFS"@.len(), m) {
            Err(f) => Err(f),
            Ok((c, e, n)) => Ok((true, CompuMethodModel { coeffs: Some(c), ..x }, e, n)),
        }
    } else if kw_at(s, q, "COMPU_TAB_REF"@) {
        match ident_spec(s, q + "COMPU_TAB_REF"@.len(), m) {
            Err(f) => Err(f),
            Ok((t, e, n)) => Ok((true, CompuMethodModel { compu_tab_ref: Some(t), ..x }, e, n)),
        }
    } else if kw_at(s, q, "REF_UNIT"@) {
        match ident_spec(s, q + "REF_UNIT"@.len(), m) {
            Err(f) => Err(f),
            Ok((t, e, n)) => Ok((true, CompuMethodModel { ref_unit: Some(t), ..x }, e, n)),
        }
    } else if kw_at(s, q, "/begin"@) {
        let (r, k) = skip_ws_spec(s, q + "/begin"@.len(), m);
        if kw_at(s, r, "FORMULA"@) {
            match string_spec(s, r + "FORMULA"@.len(), k) {
                Err(f) => Err(f),
                Ok((t, e, n)) => match close_spec(s, skip_to_end(s, e), n, "FORMULA"@) {
                    Err(f) => Err(f),
                    Ok((w, h)) => Ok((true, CompuMethodModel { formula: Some(t), ..x }, w, h)),
                },
            }
        } else {
            let (t, j) = skip_block_spec(s, r, k, 1);
            Ok((true, x, t, j))
        }
    } else if q >= s.len() || kw_at(s, q, "/end"@) {
        Ok((false, x, q, m))
    } else {
        Ok((true, x, q + 1, m))
    }
}

/// The entry reader of `COMPU_METHOD` blocks.
pub open spec fn compu_method_stepper(s: Seq<char>) -> spec_fn(int, int, CompuMethodModel) -> Result<
    (bool, CompuMethodModel, int, int),
    A2lFailure,
> {
    |p: int, l: int, x: CompuMethodModel| compu_method_step(s, p, l, x)
}

/// The conversion type that a name gives (compared after Unicode
/// uppercasing); identical for an unknown name.
pub open spec fn conversion_or_default(t: Seq<char>) -> CompuMethodType {
    match compu_method_type_of_upper(unicode_uppercase(t)) {
        Some(c) => c,
        None => CompuMethodType::Identical,
    }
}

/// A `COMPU_METHOD` block after its keyword: name, description, conversion
/// type, format and unit, then its entries.
pub open spec fn compu_method_spec(s: Seq<char>, p: int, l: int) -> Result<(CompuMethodModel, int, int), A2lFailure> {
    match ident_spec(s, p, l) {
        Err(f) => Err(f),
        Ok((name, p1, l1)) => match string_spec(s, p1, l1) {
            Err(f) => Err(f),
            Ok((long, p2, l2)) => match ident_spec(s, p2, l2) {
                Err(f) => Err(f),
                Ok((conv, p3, l3)) => match string_spec(s, p3, l3) {
                    Err(f) => Err(f),
                    Ok((format, p4, l4)) => match string_spec(s, p4, l4) {
                        Err(f) => Err(f),
                        Ok((unit, p5, l5)) => block_rest(
                            s,
                            p5,
                            l5,
                            bare_compu_method(name, long, conversion_or_default(conv), format, unit),
                            compu_method_stepper(s),
                            "COMPU_METHOD"@,
                        ),
                    },
                },
            },
        },
    }
}

/// `k` pairs of decimal numbers, added to `acc`.
pub open spec fn decimal_pairs(s: Seq<char>, p: int, l: int, k: nat, acc: Seq<(Seq<char>, Seq<char>)>) -> Result<
    (Seq<(Seq<char>, Seq<char>)>, int, int),
    A2lFailure,
>
    decreases k,
{
    if k == 0 {
        Ok((acc, p, l))
    } else {
        match decimal_spec(s, p, l) {
            Err(f) => Err(f),
            Ok((a, e, n)) => match decimal_spec(s, e, n) {
                Err(f) => Err(f),
                Ok((b, e2, n2)) => decimal_pairs(s, e2, n2, (k - 1) as nat, acc.push((a, b))),
            },
        }
    }
}

/// One entry of a `COMPU_TAB` block.
#[verifier::opaque]
pub open spec fn compu_tab_step(s: Seq<char>, p: int, l: int, x: CompuTabModel) -> Result<
    (bool, CompuTabModel, int, int),
    A2lFailure,
> {
    let (q, m) = skip_ws_spec(s, p, l);
    if kw_at(s, q, "DEFAULT_VALUE"@) {
        match decimal_spec(s, q + "DEFAULT_VALUE"@.len(), m) {
            Err(f) => Err(f),
            Ok((t, e, n)) => Ok((true, CompuTabModel { default_value: Some(t), ..x }, e, n)),
        }
    } else if q >= s.len() || kw_at(s, q, "/end"@) {
        Ok((false, x, q, m))
    } else {
        Ok((true, x, q + 1, m))
    }
}

/// The entry reader of `COMPU_TAB` blocks.
pub open spec fn compu_tab_stepper(s: Seq<char>) -> spec_fn(int, int, CompuTabModel) -> Result<
    (bool, CompuTabModel, int, int),
    A2lFailure,
> {
    |p: int, l: int, x: CompuTabModel| compu_tab_step(s, p, l, x)
}

/// A `COMPU_TAB` block after its keyword: name, description, conversion
/// type, the number of pairs and the pairs, then its entries.
pub open spec fn compu_tab_spec(s: Seq<char>, p: int, l: int) -> Result<(CompuTabModel, int, int), A2lFailure> {
    match ident_spec(s, p, l) {
        Err(f) => Err(f),
        Ok((name, p1, l1)) => match string_spec(s, p1, l1) {
            Err(f) => Err(f),
            Ok((long, p2, l2)) => match ident_spec(s, p2, l2) {
                Err(f) => Err(f),
                Ok((conv, p3, l3)) => match uint_spec(s, p3, l3, 0xFFFF) {
                    Err(f) => Err(f),
                    Ok((n, p4, l4)) => match decimal_pairs(s, p4, l4, n, Seq::empty()) {
                        Err(f) => Err(f),
                        Ok((values, p5, l5)) => block_rest(
                            s,
                            p5,
                            l5,
                            CompuTabModel {
                                name,
                                long_identifier: long,
                                conversion_type: conversion_or_default(conv),
                                number_value_pairs: n as u16,
                                values,
                                default_value: None,
                                default_value_numeric: None,
                            },
                            compu_tab_stepper(s),
                            "COMPU_TAB"@,
                        ),
                    },
                },
            },
        },
    }
}

/// `k` pairs of an integer and a string, added to `acc`.
pub open spec fn verbal_pairs(s: Seq<char>, p: int, l: int, k: nat, acc: Seq<(i64, Seq<char>)>) -> Result<
    (Seq<(i64, Seq<char>)>, int, int),
    A2lFailure,
>
    decreases k,
{
    if k == 0 {
        Ok((acc, p, l))
    } else {
        match int_spec(s, p, l, i64::MIN as int, i64::MAX as int) {
            Err(f) => Err(f),
            Ok((v, e, n)) => match string_spec(s, e, n) {
                Err(f) => Err(f),
                Ok((t, e2, n2)) => verbal_pairs(s, e2, n2, (k - 1) as nat, acc.push((v as i64, t))),
            },
        }
    }
}

/// One entry of a `COMPU_VTAB` block.
#[verifier::opaque]
pub open spec fn compu_vtab_step(s: Seq<char>, p: int, l: int, x: CompuVtabModel) -> Result<
    (bool, CompuVtabModel, int, int),
    A2lFailure,
> {
    let (q, m) = skip_ws_spec(s, p, l);
    if kw_at(s, q, "DEFAULT_VALUE"@) {
        match string_spec(s, q + "DEFAULT_VALUE"@.len(), m) {
            Err(f) => Err(f),
            Ok((t, e, n)) => Ok((true, CompuVtabModel { default_value: Some(t), ..x }, e, n)),
        }
    } else if q >= s.len() || kw_at(s, q, "/end"@) {
        Ok((false, x, q, m))
    } else {
        Ok((true, x, q + 1, m))
    }
}

/// The entry reader of `COMPU_VTAB` blocks.
pub open spec fn compu_vtab_stepper(s: Seq<char>) -> spec_fn(int, int, CompuVtabModel) -> Result<
    (bool, CompuVtabModel, int, int),
    A2lFailure,
> {
    |p: int, l: int, x: CompuVtabModel| compu_vtab_step(s, p, l, x)
}

/// A `COMPU_VTAB` block after its keyword: name, description, conversion
/// type, the number of pairs and the pairs, then its entries.
pub open spec fn compu_vtab_spec(s: Seq<char>, p: int, l: int) -> Result<(CompuVtabModel, int, int), A2lFailure> {
    match ident_spec(s, p, l) {
        Err(f) => Err(f),
        Ok((name, p1, l1)) => match string_spec(s, p1, l1) {
            Err(f) => Err(f),
            Ok((long, p2, l2)) => match ident_spec(s, p2, l2) {
                Err(f) => Err(f),
                Ok((conv, p3, l3)) => match uint_spec(s, p3, l3, 0xFFFF) {
                    Err(f) => Err(f),
                    Ok((n, p4, l4)) => match verbal_pairs(s, p4, l4, n, Seq::empty()) {
                        Err(f) => Err(f),
                        Ok((values, p5, l5)) => block_rest(
                            s,
                            p5,
                            l5,
                            CompuVtabModel {
                                name,
                                long_identifier: long,
                                conversion_type: conversion_or_default(conv),
                                number_value_pairs: n as u16,
                                values,
                                default_value: None,
                            },
                            compu_vtab_stepper(s),
                            "COMPU_VTAB"@,
                        ),
                    },
                },
            },
        },
    }
}

/// One entry of a `RECORD_LAYOUT` block.
#[verifier::opaque]
pub open spec fn record_layout_step(s: Seq<char>, p: int, l: int, x: RecordLayoutModel) -> Result<
    (bool, RecordLayoutModel, int, int),
    A2lFailure,
> {
    let (q, m) = skip_ws_spec(s, p, l);
    if kw_at(s, q, "FNC_VALUES"@) {
        match uint_spec(s, q + "FNC_VALUES"@.len(), m, 0xFFFF) {
            Err(f) => Err(f),
            Ok((pos, p1, l1)) => match ident_spec(s, p1, l1) {
                Err(f) => Err(f),
                Ok((dt, p2, l2)) => match ident_spec(s, p2, l2) {
                    Err(f) => Err(f),
                    Ok((im, p3, l3)) => match ident_spec(s, p3, l3) {
                        Err(f) => Err(f),
                        Ok((at, p4, l4)) => Ok((
                            true,
                            RecordLayoutModel {
                                fnc_values: Some(FncValuesModel {
                                    position: pos as u16,
                                    data_type: data_type_or_default(dt),
                                    index_mode: im,
                                    address_type: at,
                                }),
                                ..x
                            },
                            p4,
                            l4,
                        )),
                    },
                },
            },
        }
    } else if kw_at(s, q, "STATIC_RECORD_LAYOUT"@) {
        Ok((true, RecordLayoutModel { static_record_layout: true, ..x }, q + "STATIC_RECORD_LAYOUT"@.len(), m))
    } else if q >= s.len() || kw_at(s, q, "/end"@) {
        Ok((false, x, q, m))
    } else {
        Ok((true, x, q + 1, m))
    }
}

/// The entry reader of `RECORD_LAYOUT` blocks.
pub open spec fn record_layout_stepper(s: Seq<char>) -> spec_fn(int, int, RecordLayoutModel) -> Result<
    (bool, RecordLayoutModel, int, int),
    A2lFailure,
> {
    |p: int, l: int, x: RecordLayoutModel| record_layout_step(s, p, l, x)
}

/// A `RECORD_LAYOUT` block after its keyword: its name, then its entries.
pub open spec fn record_layout_spec(s: Seq<char>, p: int, l: int) -> Result<(RecordLayoutModel, int, int), A2lFailure> {
    match ident_spec(s, p, l) {
        Err(f) => Err(f),
        Ok((name, p1, l1)) => block_rest(s, p1, l1, named_record_layout(name), record_layout_stepper(s),
            "RECORD_LAYOUT"@),
    }
}

/// One entry of an `AXIS_PTS` block.
#[verifier::opaque]
pub open spec fn axis_pts_step(s: Seq<char>, p: int, l: int, x: AxisPtsModel) -> Result<
    (bool, AxisPtsModel, int, int),
    A2lFailure,
> {
    let (q, m) = skip_ws_spec(s, p, l);
    if kw_at(s, q, "READ_ONLY"@) {
        Ok((true, AxisPtsModel { read_only: true, ..x }, q + "READ_ONLY"@.len(), m))
    } else if kw_at(s, q, "GUARD_RAILS"@) {
        Ok((true, AxisPtsModel { guard_rails: true, ..x }, q + "GUARD_RAILS"@.len(), m))
    } else if q >= s.len() || kw_at(s, q, "/end"@) {
        Ok((false, x, q, m))
    } else {
        Ok((true, x, q + 1, m))
    }
}

/// The entry reader of `AXIS_PTS` blocks.
pub open spec fn axis_pts_stepper(s: Seq<char>) -> spec_fn(int, int, AxisPtsModel) -> Result<
    (bool, AxisPtsModel, int, int),
    A2lFailure,
> {
    |p: int, l: int, x: AxisPtsModel| axis_pts_step(s, p, l, x)
}

/// An `AXIS_PTS` block after its keyword: name, description, address,
/// input quantity, record layout, maximum difference, computation method,
/// number of points and limits, then its entries.
pub open spec fn axis_pts_spec(s: Seq<char>, p: int, l: int) -> Result<(AxisPtsModel, int, int), A2lFailure> {
    match ident_spec(s, p, l) {
        Err(f) => Err(f),
        Ok((name, p1, l1)) => match string_spec(s, p1, l1) {
            Err(f) => Err(f),
            Ok((long, p2, l2)) => match address_spec(s, p2, l2) {
                Err(f) => Err(f),
                Ok((addr, p3, l3)) => match ident_spec(s, p3, l3) {
                    Err(f) => Err(f),
                    Ok((iq, p4, l4)) => match ident_spec(s, p4, l4) {
                        Err(f) => Err(f),
                        Ok((rl, p5, l5)) => match decimal_spec(s, p5, l5) {
                            Err(f) => Err(f),
                            Ok((md, p6, l6)) => match ident_spec(s, p6, l6) {
                                Err(f) => Err(f),
                                Ok((cm, p7, l7)) => match uint_spec(s, p7, l7, 0xFFFF) {
                                    Err(f) => Err(f),
                                    Ok((n, p8, l8)) => match decimal_spec(s, p8, l8) {
                                        Err(f) => Err(f),
                                        Ok((lo, p9, l9)) => match decimal_spec(s, p9, l9) {
                                            Err(f) => Err(f),
                                            Ok((hi, p10, l10)) => block_rest(
                                                s,
                                                p10,
                                                l10,
                                                plain_axis_pts(name, long, addr as u64, iq, rl, md, cm, n as u16, lo,
                                                    hi),
                                                axis_pts_stepper(s),
                                                "AXIS_PTS"@,
                                            ),
                                        },
                                    },
                                },
                            },
                        },
                    },
                },
            },
        },
    }
}

/// The seven SI exponents of `SI_EXPONENTS`.
pub open spec fn seven_exponents(s: Seq<char>, p: int, l: int) -> Result<((i8, i8, i8, i8, i8, i8, i8), int, int), A2lFailure> {
    match int_spec(s, p, l, -128, 127) {
        Err(f) => Err(f),
        Ok((a, p1, l1)) => match int_spec(s, p1, l1, -128, 127) {
            Err(f) => Err(f),
            Ok((b, p2, l2)) => match int_spec(s, p2, l2, -128, 127) {
                Err(f) => Err(f),
                Ok((c, p3, l3)) => match int_spec(s, p3, l3, -128, 127) {
                    Err(f) => Err(f),
                    Ok((d, p4, l4)) => match int_spec(s, p4, l4, -128, 127) {
                        Err(f) => Err(f),
                        Ok((e, p5, l5)) => match int_spec(s, p5, l5, -128, 127) {
                            Err(f) => Err(f),
                            Ok((g, p6, l6)) => match int_spec(s, p6, l6, -128, 127) {
                                Err(f) => Err(f),
                                Ok((h, p7, l7)) => Ok(
                                    ((a as i8, b as i8, c as i8, d as i8, e as i8, g as i8, h as i8), p7, l7),
                                ),
                            },
                        },
                    },
                },
            },
        },
    }
}

/// One entry of a `UNIT` block.
#[verifier::opaque]
pub open spec fn unit_step(s: Seq<char>, p: int, l: int, x: UnitModel) -> Result<
    (bool, UnitModel, int, int),
    A2lFailure,
> {
    let (q, m) = skip_ws_spec(s, p, l);
    if kw_at(s, q, "REF_UNIT"@) {
        match ident_spec(s, q + "REF_UNIT"@.len(), m) {
            Err(f) => Err(f),
            Ok((t, e, n)) => Ok((true, UnitModel { ref_unit: Some(t), ..x }, e, n)),
        }
    } else if kw_at(s, q, "SI_EXPONENTS"@) {
        match seven_exponents(s, q + "SI_EXPONENTS"@.len(), m) {
            Err(f) => Err(f),
            Ok((v, e, n)) => Ok((true, UnitModel { si_exponents: Some(v), ..x }, e, n)),
        }
    } else if kw_at(s, q, "UNIT_CONVERSION"@) {
        match decimal_spec(s, q + "UNIT_CONVERSION"@.len(), m) {
            Err(f) => Err(f),
            Ok((a, e, n)) => match decimal_spec(s, e, n) {
                Err(f) => Err(f),
                Ok((b, e2, n2)) => Ok((true, UnitModel { unit_conversion: Some((a, b)), ..x }, e2, n2)),
            },
        }
    } else if q >= s.len() || kw_at(s, q, "/end"@) {
        Ok((false, x, q, m))
    } else {
        Ok((true, x, q + 1, m))
    }
}

/// The entry reader of `UNIT` blocks.
pub open spec fn unit_stepper(s: Seq<char>) -> spec_fn(int, int, UnitModel) -> Result<
    (bool, UnitModel, int, int),
    A2lFailure,
> {
    |p: int, l: int, x: UnitModel| unit_step(s, p, l, x)
}

/// A `UNIT` block after its keyword: name, description, display text and
/// unit type, then its entries.
pub open spec fn unit_spec(s: Seq<char>, p: int, l: int) -> Result<(UnitModel, int, int), A2lFailure> {
    match ident_spec(s, p, l) {
        Err(f) => Err(f),
        Ok((name, p1, l1)) => match string_spec(s, p1, l1) {
            Err(f) => Err(f),
            Ok((long, p2, l2)) => match string_spec(s, p2, l2) {
                Err(f) => Err(f),
                Ok((display, p3, l3)) => match ident_spec(s, p3, l3) {
                    Err(f) => Err(f),
                    Ok((ut, p4, l4)) => block_rest(
                        s,
                        p4,
                        l4,
                        UnitModel {
                            name,
                            long_identifier: long,
                            display,
                            unit_type: ut,
                            ref_unit: None,
                            si_exponents: None,
                            unit_conversion: None,
                        },
                        unit_stepper(s),
                        "UNIT"@,
                    ),
                },
            },
        },
    }
}

/// A list of identifiers, then `/end` and the list's keyword `kw`.
pub open spec fn list_block_spec(s: Seq<char>, p: int, l: int, kw: Seq<char>) -> Result<
    (Seq<Seq<char>>, int, int),
    A2lFailure,
> {
    match ident_list_spec(s, p, l) {
        Err(f) => Err(f),
        Ok((v, e, n)) => match close_spec(s, e, n, kw) {
            Err(f) => Err(f),
            Ok((t, j)) => Ok((v, t, j)),
        },
    }
}

/// One entry of a `FUNCTION` block.
#[verifier::opaque]
pub open spec fn function_step(s: Seq<char>, p: int, l: int, x: FunctionModel) -> Result<
    (bool, FunctionModel, int, int),
    A2lFailure,
> {
    let (q, m) = skip_ws_spec(s, p, l);
    if kw_at(s, q, "FUNCTION_VERSION"@) {
        match string_spec(s, q + "FUNCTION_VERSION"@.len(), m) {
            Err(f) => Err(f),
            Ok((t, e, n)) => Ok((true, FunctionModel { version: Some(t), ..x }, e, n)),
        }
    } else if kw_at(s, q, "/begin"@) {
        let (r, k) = skip_ws_spec(s, q + "/begin"@.len(), m);
        if kw_at(s, r, "DEF_CHARACTERISTIC"@) {
            match list_block_spec(s, r + "DEF_CHARACTERISTIC"@.len(), k, "DEF_CHARACTERISTIC"@) {
                Err(f) => Err(f),
                Ok((v, e, n)) => Ok((true, FunctionModel { def_characteristic: v, ..x }, e, n)),
            }
        } else if kw_at(s, r, "REF_CHARACTERISTIC"@) {
            match list_block_spec(s, r + "REF_CHARACTERISTIC"@.len(), k, "REF_CHARACTERISTIC"@) {
                Err(f) => Err(f),
                Ok((v, e, n)) => Ok((true, FunctionModel { ref_characteristic: v, ..x }, e, n)),
            }
        } else if kw_at(s, r, "IN_MEASUREMENT"@) {
            match list_block_spec(s, r + "IN_MEASUREMENT"@.len(), k, "IN_MEASUREMENT"@) {
                Err(f) => Err(f),
                Ok((v, e, n)) => Ok((true, FunctionModel { in_measurement: v, ..x }, e, n)),
            }
        } else if kw_at(s, r, "OUT_MEASUREMENT"@) {
            match list_block_spec(s, r + "OUT_MEASUREMENT"@.len(), k, "OUT_MEASUREMENT"@) {
                Err(f) => Err(f),
                Ok((v, e, n)) => Ok((true, FunctionModel { out_measurement: v, ..x }, e, n)),
            }
        } else if kw_at(s, r, "LOC_MEASUREMENT"@) {
            match list_block_spec(s, r + "LOC_MEASUREMENT"@.len(), k, "LOC_MEASUREMENT"@) {
                Err(f) => Err(f),
                Ok((v, e, n)) => Ok((true, FunctionModel { loc_measurement: v, ..x }, e, n)),
            }
        } else if kw_at(s, r, "SUB_FUNCTION"@) {
            match list_block_spec(s, r + "SUB_FUNCTION"@.len(), k, "SUB_FUNCTION"@) {
                Err(f) => Err(f),
                Ok((v, e, n)) => Ok((true, FunctionModel { sub_function: v, ..x }, e, n)),
            }
        } else {
            let (t, j) = skip_block_spec(s, r, k, 1);
            Ok((true, x, t, j))
        }
    } else if q >= s.len() || kw_at(s, q, "/end"@) {
        Ok((false, x, q, m))
    } else {
        Ok((true, x, q + 1, m))
    }
}

/// The entry reader of `FUNCTION` blocks.
pub open spec fn function_stepper(s: Seq<char>) -> spec_fn(int, int, FunctionModel) -> Result<
    (bool, FunctionModel, int, int),
    A2lFailure,
> {
    |p: int, l: int, x: FunctionModel| function_step(s, p, l, x)
}

/// A `FUNCTION` block after its keyword: name and description, then its
/// entries.
pub open spec fn function_spec(s: Seq<char>, p: int, l: int) -> Result<(FunctionModel, int, int), A2lFailure> {
    match ident_spec(s, p, l) {
        Err(f) => Err(f),
        Ok((name, p1, l1)) => match string_spec(s, p1, l1) {
            Err(f) => Err(f),
            Ok((long, p2, l2)) => block_rest(s, p2, l2, named_function(name, long), function_stepper(s),
                "FUNCTION"@),
        },
    }
}

/// One entry of a `GROUP` block.
#[verifier::opaque]
pub open spec fn group_step(s: Seq<char>, p: int, l: int, x: GroupModel) -> Result<
    (bool, GroupModel, int, int),
    A2lFailure,
> {
    let (q, m) = skip_ws_spec(s, p, l);
    if kw_at(s, q, "ROOT"@) {
        Ok((true, GroupModel { root: true, ..x }, q + "ROOT"@.len(), m))
    } else if kw_at(s, q, "/begin"@) {
        let (r, k) = skip_ws_spec(s, q + "/begin"@.len(), m);
        if kw_at(s, r, "REF_CHARACTERISTIC"@) {
            match list_block_spec(s, r + "REF_CHARACTERISTIC"@.len(), k, "REF_CHARACTERISTIC"@) {
                Err(f) => Err(f),
                Ok((v, e, n)) => Ok((true, GroupModel { ref_characteristic: v, ..x }, e, n)),
            }
        } else if kw_at(s, r, "REF_MEASUREMENT"@) {
            match list_block_spec(s, r + "REF_MEASUREMENT"@.len(), k, "REF_MEASUREMENT"@) {
                Err(f) => Err(f),
                Ok((v, e, n)) => Ok((true, GroupModel { ref_measurement: v, ..x }, e, n)),
            }
        } else if kw_at(s, r, "SUB_GROUP"@) {
            match list_block_spec(s, r + "SUB_GROUP"@.len(), k, "SUB_GROUP"@) {
                Err(f) => Err(f),
                Ok((v, e, n)) => Ok((true, GroupModel { sub_group: v, ..x }, e, n)),
            }
        } else {
            let (t, j) = skip_block_spec(s, r, k, 1);
            Ok((true, x, t, j))
        }
    } else if q >= s.len() || kw_at(s, q, "/end"@) {
        Ok((false, x, q, m))
    } else {
        Ok((true, x, q + 1, m))
    }
}

/// The entry reader of `GROUP` blocks.
pub open spec fn group_stepper(s: Seq<char>) -> spec_fn(int, int, GroupModel) -> Result<
    (bool, GroupModel, int, int),
    A2lFailure,
> {
    |p: int, l: int, x: GroupModel| group_step(s, p, l, x)
}

/// A `GROUP` block after its keyword: name and description, then its
/// entries.
pub open spec fn group_spec(s: Seq<char>, p: int, l: int) -> Result<(GroupModel, int, int), A2lFailure> {
    match ident_spec(s, p, l) {
        Err(f) => Err(f),
        Ok((name, p1, l1)) => match string_spec(s, p1, l1) {
            Err(f) => Err(f),
            Ok((long, p2, l2)) => block_rest(s, p2, l2, named_group(name, long), group_stepper(s), "GROUP"@),
        },
    }
}

/// The deposit mode that a `DEPOSIT` value names.
pub open spec fn deposit_of(d: Seq<char>) -> DepositMode {
    if d == "DIFFERENCE"@ {
        DepositMode::Difference
    } else {
        DepositMode::Absolute
    }
}

/// One entry of a `MOD_COMMON` block.
#[verifier::opaque]
pub open spec fn mod_common_step(s: Seq<char>, p: int, l: int, x: ModCommonModel) -> Result<
    (bool, ModCommonModel, int, int),
    A2lFailure,
> {
    let (q, m) = skip_ws_spec(s, p, l);
    if kw_at(s, q, "BYTE_ORDER"@) {
        match ident_spec(s, q + "BYTE_ORDER"@.len(), m) {
            Err(f) => Err(f),
            Ok((o, e, n)) => Ok((true, ModCommonModel { byte_order: Some(byte_order_of(o)), ..x }, e, n)),
        }
    } else if kw_at(s, q, "DATA_SIZE"@) {
        match uint_spec(s, q + "DATA_SIZE"@.len(), m, 0xFFFF) {
            Err(f) => Err(f),
            Ok((v, e, n)) => Ok((true, ModCommonModel { data_size: Some(v as u16), ..x }, e, n)),
        }
    } else if kw_at(s, q, "DEPOSIT"@) {
        match ident_spec(s, q + "DEPOSIT"@.len(), m) {
            Err(f) => Err(f),
            Ok((d, e, n)) => Ok((true, ModCommonModel { deposit: Some(deposit_of(d)), ..x }, e, n)),
        }
    } else if kw_at(s, q, "ALIGNMENT_BYTE"@) {
        match uint_spec(s, q + "ALIGNMENT_BYTE"@.len(), m, 0xFFFF) {
            Err(f) => Err(f),
            Ok((v, e, n)) => Ok((true, ModCommonModel { alignment_byte: Some(v as u16), ..x }, e, n)),
        }
    } else if kw_at(s, q, "ALIGNMENT_WORD"@) {
        match uint_spec(s, q + "ALIGNMENT_WORD"@.len(), m, 0xFFFF) {
            Err(f) => Err(f),
            Ok((v, e, n)) => Ok((true, ModCommonModel { alignment_word: Some(v as u16), ..x }, e, n)),
        }
    } else if kw_at(s, q, "ALIGNMENT_LONG"@) {
        match uint_spec(s, q + "ALIGNMENT_LONG"@.len(), m, 0xFFFF) {
            Err(f) => Err(f),
            Ok((v, e, n)) => Ok((true, ModCommonModel { alignment_long: Some(v as u16), ..x }, e, n)),
        }
    } else if kw_at(s, q, "ALIGNMENT_FLOAT32_IEEE"@) {
        match uint_spec(s, q + "ALIGNMENT_FLOAT32_IEEE"@.len(), m, 0xFFFF) {
            Err(f) => Err(f),
            Ok((v, e, n)) => Ok((true, ModCommonModel { alignment_float32: Some(v as u16), ..x }, e, n)),
        }
    } else if kw_at(s, q, "ALIGNMENT_FLOAT64_IEEE"@) {
        match uint_spec(s, q + "ALIGNMENT_FLOAT64_IEEE"@.len(), m, 0xFFFF) {
            Err(f) => Err(f),
            Ok((v, e, n)) => Ok((true, ModCommonModel { alignment_float64: Some(v as u16), ..x }, e, n)),
        }
    } else if kw_at(s, q, "ALIGNMENT_INT64"@) {
        match uint_spec(s, q + "ALIGNMENT_INT64"@.len(), m, 0xFFFF) {
            Err(f) => Err(f),
            Ok((v, e, n)) => Ok((true, ModCommonModel { alignment_int64: Some(v as u16), ..x }, e, n)),
        }
    } else if q >= s.len() || kw_at(s, q, "/end"@) {
        Ok((false, x, q, m))
    } else {
        Ok((true, x, q + 1, m))
    }
}

/// The entry reader of `MOD_COMMON` blocks.
pub open spec fn mod_common_stepper(s: Seq<char>) -> spec_fn(int, int, ModCommonModel) -> Result<
    (bool, ModCommonModel, int, int),
    A2lFailure,
> {
    |p: int, l: int, x: ModCommonModel| mod_common_step(s, p, l, x)
}

/// A `MOD_COMMON` block after its keyword: its comment, then its entries.
pub open spec fn mod_common_spec(s: Seq<char>, p: int, l: int) -> Result<(ModCommonModel, int, int), A2lFailure> {
    match string_spec(s, p, l) {
        Err(f) => Err(f),
        Ok((c, p1, l1)) => block_rest(s, p1, l1, commented_mod_common(c), mod_common_stepper(s), "MOD_COMMON"@),
    }
}

/// A `MEMORY_SEGMENT` block after its keyword: name, description, program
/// type, memory type, attribute, address and size; anything else up to
/// `/end` is passed over.
pub open spec fn memory_segment_spec(s: Seq<char>, p: int, l: int) -> Result<(MemorySegmentModel, int, int), A2lFailure> {
    match ident_spec(s, p, l) {
        Err(f) => Err(f),
        Ok((name, p1, l1)) => match string_spec(s, p1, l1) {
            Err(f) => Err(f),
            Ok((long, p2, l2)) => match ident_spec(s, p2, l2) {
                Err(f) => Err(f),
                Ok((prg, p3, l3)) => match ident_spec(s, p3, l3) {
                    Err(f) => Err(f),
                    Ok((mem, p4, l4)) => match ident_spec(s, p4, l4) {
                        Err(f) => Err(f),
                        Ok((attr, p5, l5)) => match address_spec(s, p5, l5) {
                            Err(f) => Err(f),
                            Ok((addr, p6, l6)) => match address_spec(s, p6, l6) {
                                Err(f) => Err(f),
                                Ok((size, p7, l7)) => {
                                    let (q, m) = skip_ws_spec(s, p7, l7);
                                    match close_spec(s, skip_to_end(s, q), m, "MEMORY_SEGMENT"@) {
                                        Err(f) => Err(f),
                                        Ok((t, j)) => Ok((
                                            MemorySegmentModel {
                                                name,
                                                long_identifier: long,
                                                prg_type: prg,
                                                memory_type: mem,
                                                attribute: attr,
                                                address: addr as u64,
                                                size: size as u64,
                                                offsets: Seq::empty(),
                                            },
                                            t,
                                            j,
                                        )),
                                    }
                                },
                            },
                        },
                    },
                },
            },
        },
    }
}

/// One entry of a `MOD_PAR` block.
#[verifier::opaque]
pub open spec fn mod_par_step(s: Seq<char>, p: int, l: int, x: ModParModel) -> Result<
    (bool, ModParModel, int, int),
    A2lFailure,
> {
    let (q, m) = skip_ws_spec(s, p, l);
    if kw_at(s, q, "CPU_TYPE"@) {
        match string_spec(s, q + "CPU_TYPE"@.len(), m) {
            Err(f) => Err(f),
            Ok((t, e, n)) => Ok((true, ModParModel { cpu_type: Some(t), ..x }, e, n)),
        }
    } else if kw_at(s, q, "CUSTOMER"@) {
        match string_spec(s, q + "CUSTOMER"@.len(), m) {
            Err(f) => Err(f),
            Ok((t, e, n)) => Ok((true, ModParModel { customer: Some(t), ..x }, e, n)),
        }
    } else if kw_at(s, q, "VERSION"@) {
        match string_spec(s, q + "VERSION"@.len(), m) {
            Err(f) => Err(f),
            Ok((t, e, n)) => Ok((true, ModParModel { version: Some(t), ..x }, e, n)),
        }
    } else if kw_at(s, q, "EPK"@) {
        match string_spec(s, q + "EPK"@.len(), m) {
            Err(f) => Err(f),
            Ok((t, e, n)) => Ok((true, ModParModel { epk: Some(t), ..x }, e, n)),
        }
    } else if kw_at(s, q, "/begin"@) {
        let (r, k) = skip_ws_spec(s, q + "/begin"@.len(), m);
        if kw_at(s, r, "MEMORY_SEGMENT"@) {
            match memory_segment_spec(s, r + "MEMORY_SEGMENT"@.len(), k) {
                Err(f) => Err(f),
                Ok((g, e, n)) => Ok((true, ModParModel { memory_segments: x.memory_segments.push(g), ..x }, e, n)),
            }
        } else {
            let (t, j) = skip_block_spec(s, r, k, 1);
            Ok((true, x, t, j))
        }
    } else if q >= s.len() || kw_at(s, q, "/end"@) {
        Ok((false, x, q, m))
    } else {
        Ok((true, x, q + 1, m))
    }
}

/// The entry reader of `MOD_PAR` blocks.
pub open spec fn mod_par_stepper(s: Seq<char>) -> spec_fn(int, int, ModParModel) -> Result<
    (bool, ModParModel, int, int),
    A2lFailure,
> {
    |p: int, l: int, x: ModParModel| mod_par_step(s, p, l, x)
}

/// A `MOD_PAR` block after its keyword: its comment, then its entries.
pub open spec fn mod_par_spec(s: Seq<char>, p: int, l: int) -> Result<(ModParModel, int, int), A2lFailure> {
    match string_spec(s, p, l) {
        Err(f) => Err(f),
        Ok((c, p1, l1)) => block_rest(s, p1, l1, commented_mod_par(c), mod_par_stepper(s), "MOD_PAR"@),
    }
}

/// One entry of a `HEADER` block.
#[verifier::opaque]
pub open spec fn header_step(s: Seq<char>, p: int, l: int, x: HeaderModel) -> Result<
    (bool, HeaderModel, int, int),
    A2lFailure,
> {
    let (q, m) = skip_ws_spec(s, p, l);
    if kw_at(s, q, "/end"@) || q >= s.len() {
        Ok((false, x, q, m))
    } else if kw_at(s, q, "PROJECT_NO"@) {
        match ident_spec(s, q + "PROJECT_NO"@.len(), m) {
            Err(f) => Err(f),
            Ok((t, e, n)) => Ok((true, HeaderModel { project_no: Some(t), ..x }, e, n)),
        }
    } else if kw_at(s, q, "VERSION"@) {
        match string_spec(s, q + "VERSION"@.len(), m) {
            Err(f) => Err(f),
            Ok((t, e, n)) => Ok((true, HeaderModel { version: Some(t), ..x }, e, n)),
        }
    } else {
        Ok((true, x, q + 1, m))
    }
}

/// The entry reader of `HEADER` blocks.
pub open spec fn header_stepper(s: Seq<char>) -> spec_fn(int, int, HeaderModel) -> Result<
    (bool, HeaderModel, int, int),
    A2lFailure,
> {
    |p: int, l: int, x: HeaderModel| header_step(s, p, l, x)
}

/// A `HEADER` block after its keyword: its comment, then its entries.
pub open spec fn header_spec(s: Seq<char>, p: int, l: int) -> Result<(HeaderModel, int, int), A2lFailure> {
    match string_spec(s, p, l) {
        Err(f) => Err(f),
        Ok((c, p1, l1)) => block_rest(s, p1, l1, HeaderModel { comment: c, project_no: None, version: None },
            header_stepper(s), "HEADER"@),
    }
}

/// A block of a module after `/begin`, at its keyword.
#[verifier::opaque]
pub open spec fn module_block(s: Seq<char>, r: int, k: int, x: ModuleModel) -> Result<
    (bool, ModuleModel, int, int),
    A2lFailure,
> {
    if kw_at(s, r, "MOD_COMMON"@) {
        match mod_common_spec(s, r + "MOD_COMMON"@.len(), k) {
            Err(f) => Err(f),
            Ok((b, e, n)) => Ok((true, ModuleModel { mod_common: Some(b), ..x }, e, n)),
        }
    } else if kw_at(s, r, "MOD_PAR"@) {
        match mod_par_spec(s, r + "MOD_PAR"@.len(), k) {
            Err(f) => Err(f),
            Ok((b, e, n)) => Ok((true, ModuleModel { mod_par: Some(b), ..x }, e, n)),
        }
        } else if kw_at(s, r, "MEASUREMENT"@) {
            match measurement_spec(s, r + "MEASUREMENT"@.len(), k) {
                Err(f) => Err(f),
                Ok((b, e, n)) => Ok((true, ModuleModel { measurements: x.measurements.push(b), ..x }, e, n)),
            }
        } else if kw_at(s, r, "CHARACTERISTIC"@) {
            match characteristic_spec(s, r + "CHARACTERISTIC"@.len(), k) {
                Err(f) => Err(f),
                Ok((b, e, n)) => Ok((true, ModuleModel { characteristics: x.characteristics.push(b), ..x }, e, n)),
            }
        } else if kw_at(s, r, "COMPU_METHOD"@) {
            match compu_method_spec(s, r + "COMPU_METHOD"@.len(), k) {
                Err(f) => Err(f),
                Ok((b, e, n)) => Ok((true, ModuleModel { compu_methods: x.compu_methods.push(b), ..x }, e, n)),
            }
        } else if kw_at(s, r, "COMPU_TAB"@) {
            match compu_tab_spec(s, r + "COMPU_TAB"@.len(), k) {
                Err(f) => Err(f),
                Ok((b, e, n)) => Ok((true, ModuleModel { compu_tabs: x.compu_tabs.push(b), ..x }, e, n)),
            }
        } else if kw_at(s, r, "COMPU_VTAB"@) {
            match compu_vtab_spec(s, r + "COMPU_VTAB"@.len(), k) {
                Err(f) => Err(f),
                Ok((b, e, n)) => Ok((true, ModuleModel { compu_vtabs: x.compu_vtabs.push(b), ..x }, e, n)),
            }
        } else {
        module_block_more(s, r, k, x)
    }
}

/// A block of a module after `/begin`, at its keyword (layouts, axis
/// points, functions, groups, units, interface data and others).
#[verifier::opaque]
pub open spec fn module_block_more(s: Seq<char>, r: int, k: int, x: ModuleModel) -> Result<
    (bool, ModuleModel, int, int),
    A2lFailure,
> {
    if kw_at(s, r, "RECORD_LAYOUT"@) {
            match record_layout_spec(s, r + "RECORD_LAYOUT"@.len(), k) {
                Err(f) => Err(f),
                Ok((b, e, n)) => Ok((true, ModuleModel { record_layouts: x.record_layouts.push(b), ..x }, e, n)),
            }
        } else if kw_at(s, r, "AXIS_PTS"@) {
            match axis_pts_spec(s, r + "AXIS_PTS"@.len(), k) {
                Err(f) => Err(f),
                Ok((b, e, n)) => Ok((true, ModuleModel { axis_pts: x.axis_pts.push(b), ..x }, e, n)),
            }
        } else if kw_at(s, r, "FUNCTION"@) {
            match function_spec(s, r + "FUNCTION"@.len(), k) {
                Err(f) => Err(f),
                Ok((b, e, n)) => Ok((true, ModuleModel { functions: x.functions.push(b), ..x }, e, n)),
            }
        } else if kw_at(s, r, "GROUP"@) {
            match group_spec(s, r + "GROUP"@.len(), k) {
                Err(f) => Err(f),
                Ok((b, e, n)) => Ok((true, ModuleModel { groups: x.groups.push(b), ..x }, e, n)),
            }
        } else if kw_at(s, r, "UNIT"@) {
            match unit_spec(s, r + "UNIT"@.len(), k) {
                Err(f) => Err(f),
                Ok((b, e, n)) => Ok((true, ModuleModel { units: x.units.push(b), ..x }, e, n)),
            }
        } else if kw_at(s, r, "IF_DATA"@) {
            match if_data_spec(s, r + "IF_DATA"@.len(), k) {
                Err(f) => Err(f),
                Ok((b, e, n)) => Ok((true, ModuleModel { if_data: x.if_data.push(b), ..x }, e, n)),
            }
    } else if kw_at(s, r, "A2ML"@) {
        let (t, j) = skip_block_spec(s, r + "A2ML"@.len(), k, 1);
        Ok((true, x, t, j))
    } else {
        let (t, j) = skip_block_spec(s, r, k, 1);
        Ok((true, x, t, j))
    }
}

/// One entry of a `MODULE` block.
pub open spec fn module_step(s: Seq<char>, p: int, l: int, x: ModuleModel) -> Result<
    (bool, ModuleModel, int, int),
    A2lFailure,
> {
    let (q, m) = skip_ws_spec(s, p, l);
    if kw_at(s, q, "/end"@) || q >= s.len() {
        Ok((false, x, q, m))
    } else if kw_at(s, q, "/begin"@) {
        let (r, k) = skip_ws_spec(s, q + "/begin"@.len(), m);
        module_block(s, r, k, x)
    } else {
        Ok((true, x, q + 1, m))
    }
}

/// The entry reader of `MODULE` blocks.
pub open spec fn module_stepper(s: Seq<char>) -> spec_fn(int, int, ModuleModel) -> Result<
    (bool, ModuleModel, int, int),
    A2lFailure,
> {
    |p: int, l: int, x: ModuleModel| module_step(s, p, l, x)
}

/// A `MODULE` block after its keyword: name and description, then its
/// blocks.
pub open spec fn module_spec(s: Seq<char>, p: int, l: int) -> Result<(ModuleModel, int, int), A2lFailure> {
    match ident_spec(s, p, l) {
        Err(f) => Err(f),
        Ok((name, p1, l1)) => match string_spec(s, p1, l1) {
            Err(f) => Err(f),
            Ok((long, p2, l2)) => block_rest(s, p2, l2, named_module(name, long), module_stepper(s), "MODULE"@),
        },
    }
}

/// One entry of a `PROJECT` block.
#[verifier::opaque]
pub open spec fn project_step(s: Seq<char>, p: int, l: int, x: ProjectModel) -> Result<
    (bool, ProjectModel, int, int),
    A2lFailure,
> {
    let (q, m) = skip_ws_spec(s, p, l);
    if kw_at(s, q, "/end"@) || q >= s.len() {
        Ok((false, x, q, m))
    } else if kw_at(s, q, "/begin"@) {
        let (r, k) = skip_ws_spec(s, q + "/begin"@.len(), m);
        if kw_at(s, r, "HEADER"@) {
            match header_spec(s, r + "HEADER"@.len(), k) {
                Err(f) => Err(f),
                Ok((h, e, n)) => Ok((true, ProjectModel { header: Some(h), ..x }, e, n)),
            }
        } else if kw_at(s, r, "MODULE"@) {
            match module_spec(s, r + "MODULE"@.len(), k) {
                Err(f) => Err(f),
                Ok((b, e, n)) => Ok((true, ProjectModel { modules: x.modules.push(b), ..x }, e, n)),
            }
        } else {
            let (t, j) = skip_block_spec(s, r, k, 1);
            Ok((true, x, t, j))
        }
    } else {
        Ok((true, x, q + 1, m))
    }
}

/// The entry reader of `PROJECT` blocks.
pub open spec fn project_stepper(s: Seq<char>) -> spec_fn(int, int, ProjectModel) -> Result<
    (bool, ProjectModel, int, int),
    A2lFailure,
> {
    |p: int, l: int, x: ProjectModel| project_step(s, p, l, x)
}

/// A `PROJECT` block after its keyword: name and description, then its
/// header and modules.
pub open spec fn project_spec(s: Seq<char>, p: int, l: int) -> Result<(ProjectModel, int, int), A2lFailure> {
    match ident_spec(s, p, l) {
        Err(f) => Err(f),
        Ok((name, p1, l1)) => match string_spec(s, p1, l1) {
            Err(f) => Err(f),
            Ok((long, p2, l2)) => block_rest(
                s,
                p2,
                l2,
                ProjectModel { name, long_identifier: long, header: None, modules: Seq::empty() },
                project_stepper(s),
                "PROJECT"@,
            ),
        },
    }
}

/// A version: two decimal numbers (major, minor) of at most 65535.
pub open spec fn version_spec(s: Seq<char>, p: int, l: int) -> Result<(Asap2Version, int, int), A2lFailure> {
    match uint_spec(s, p, l, 0xFFFF) {
        Err(f) => Err(f),
        Ok((a, p1, l1)) => match uint_spec(s, p1, l1, 0xFFFF) {
            Err(f) => Err(f),
            Ok((b, p2, l2)) => Ok((Asap2Version { major: a as u16, minor: b as u16 }, p2, l2)),
        },
    }
}

/// The version that follows `kw` at `q`, if `kw` stands there, and where
/// the text goes on after it (past whitespace and comments).
pub open spec fn optional_version(s: Seq<char>, q: int, m: int, kw: Seq<char>) -> Result<
    (Option<Asap2Version>, int, int),
    A2lFailure,
> {
    if kw_at(s, q, kw) {
        match version_spec(s, q + kw.len(), m) {
            Err(f) => Err(f),
            Ok((v, e, n)) => {
                let (r, k) = skip_ws_spec(s, e, n);
                Ok((Some(v), r, k))
            },
        }
    } else {
        Ok((None, q, m))
    }
}

/// The database that an A2L text describes, or why it is refused: an
/// optional `ASAP2_VERSION`, an optional `A2ML_VERSION`, then an optional
/// `PROJECT` block; anything after it is ignored.
pub open spec fn a2l_spec(s: Seq<char>) -> Result<A2lDatabaseModel, A2lFailure> {
    let (q0, m0) = skip_ws_spec(s, 0, 1);
    match optional_version(s, q0, m0, "ASAP2_VERSION"@) {
        Err(f) => Err(f),
        Ok((asap2, q1, m1)) => match optional_version(s, q1, m1, "A2ML_VERSION"@) {
            Err(f) => Err(f),
            Ok((a2ml, q2, m2)) => {
                let asap2_version = match asap2 {
                    Some(v) => v,
                    None => Asap2Version { major: 0, minor: 0 },
                };
                if kw_at(s, q2, "/begin"@) {
                    match expect_spec(s, q2 + "/begin"@.len(), m2, "PROJECT"@) {
                        Err(f) => Err(f),
                        Ok((r, k)) => match project_spec(s, r, k) {
                            Err(f) => Err(f),
                            Ok((project, _, _)) => Ok(A2lDatabaseModel { asap2_version, a2ml_version: a2ml, project }),
                        },
                    }
                } else {
                    Ok(A2lDatabaseModel { asap2_version, a2ml_version: a2ml, project: empty_a2l_database().project })
                }
            },
        },
    }
}

/// The data type that a name gives (compared after Unicode uppercasing);
/// `UBYTE` for an unknown name.
pub open spec fn data_type_or_default(t: Seq<char>) -> A2lDataType {
    match a2l_data_type_of_upper(unicode_uppercase(t)) {
        Some(d) => d,
        None => A2lDataType::UByte,
    }
}

/// The characters `s[lo..hi]` as a string.
fn text_between(s: &[char], lo: usize, hi: usize) -> (r: String)
    requires
        lo <= hi <= s.len(),
    ensures
        r@ == s@.subrange(lo as int, hi as int),
{
    let mut r = String::new();
    let mut i = lo;
    while i < hi
        invariant
            lo <= i <= hi <= s.len(),
            r@ == s@.subrange(lo as int, i as int),
        decreases hi - i,
    {
        crate::text::push_char(&mut r, s[i]);
        i += 1;
        assert(r@ =~= s@.subrange(lo as int, i as int));
    }
    r
}

/// The text being read, where the reader stands and on which line.
pub struct A2lCursor {
    chars: Vec<char>,
    pos: usize,
    line: usize,
}

impl A2lCursor {
    /// The characters of the text.
    pub closed spec fn text(&self) -> Seq<char> {
        self.chars@
    }

    /// Where the reader stands.
    pub closed spec fn at(&self) -> int {
        self.pos as int
    }

    /// The line the reader is on.
    pub closed spec fn line_no(&self) -> int {
        self.line as int
    }

    /// The position lies in the text, and the line number cannot run past
    /// what a `usize` holds.
    pub closed spec fn wf(&self) -> bool {
        &&& self.pos <= self.chars.len()
        &&& 1 <= self.line <= self.pos + 1
        &&& self.chars.len() < usize::MAX
    }

    /// The reader moved forward over the same text.
    pub open spec fn moved_from(&self, old: &Self) -> bool {
        &&& self.wf()
        &&& self.text() == old.text()
        &&& old.at() <= self.at()
        &&& old.line_no() <= self.line_no()
    }

    fn here_kw(&self, kw: &str) -> (r: bool)
        requires
            self.wf(),
        ensures
            r == kw_at(self.text(), self.at(), kw@),
    {
        kw_end(self.chars.as_slice(), self.pos, kw).is_some()
    }

    fn at_end(&self) -> (r: bool)
        requires
            self.wf(),
        ensures
            r == (self.at() >= self.text().len()),
    {
        self.pos >= self.chars.len()
    }

    /// Skip whitespace and comments.
    fn skip_ws(&mut self)
        requires
            old(self).wf(),
        ensures
            final(self).moved_from(old(self)),
            (final(self).at(), final(self).line_no()) == skip_ws_spec(old(self).text(), old(self).at(),
                old(self).line_no()),
    {
        let ghost s = self.chars@;
        let ghost p0 = self.pos as int;
        let ghost l0 = self.line as int;
        loop
            invariant
                self.wf(),
                self.chars@ == s,
                s == old(self).chars@,
                p0 == old(self).pos,
                l0 == old(self).line,
                p0 <= self.pos,
                l0 <= self.line,
                skip_ws_spec(s, p0, l0) == skip_ws_spec(s, self.pos as int, self.line as int),
            decreases s.len() - self.pos,
        {
            if self.pos < self.chars.len() && is_whitespace(self.chars[self.pos]) {
                if self.chars[self.pos] == '\n' {
                    self.line += 1;
                }
                self.pos += 1;
            } else {
                proof {
                    reveal_strlit("//");
                    reveal_strlit("/*");
                }
                let (q, m) = match lit_end(self.chars.as_slice(), self.pos, "//") {
                    Some(e) => line_comment_exec(self.chars.as_slice(), e, self.line),
                    None => match lit_end(self.chars.as_slice(), self.pos, "/*") {
                        Some(e) => block_comment_exec(self.chars.as_slice(), e, self.line),
                        None => {
                            return;
                        },
                    },
                };
                self.pos = q;
                self.line = m;
            }
        }
    }

    /// The keyword `kw`, after whitespace and comments.
    fn expect(&mut self, kw: &str) -> (r: Result<(), BusmasterError>)
        requires
            old(self).wf(),
        ensures
            final(self).moved_from(old(self)),
            match expect_spec(old(self).text(), old(self).at(), old(self).line_no(), kw@) {
                Ok((p, l)) => r is Ok && final(self).at() == p && final(self).line_no() == l,
                Err(f) => r matches Err(e) && failure_is(e, f),
            },
    {
        self.skip_ws();
        match kw_end(self.chars.as_slice(), self.pos, kw) {
            Some(e) => {
                self.pos = e;
                Ok(())
            },
            None => {
                let mut what = String::new();
                push_str(&mut what, "Expected '");
                push_str(&mut what, kw);
                push_str(&mut what, "'");
                Err(failure(what, self.line))
            },
        }
    }

    /// Step over the keyword `kw`, which stands here.
    fn pass_kw(&mut self, kw: &str)
        requires
            old(self).wf(),
            kw_at(old(self).text(), old(self).at(), kw@),
        ensures
            final(self).moved_from(old(self)),
            final(self).at() == old(self).at() + kw@.len(),
            final(self).line_no() == old(self).line_no(),
    {
        match kw_end(self.chars.as_slice(), self.pos, kw) {
            Some(e) => {
                self.pos = e;
            },
            None => {},
        }
    }

    /// An identifier.
    fn ident(&mut self) -> (r: Result<String, BusmasterError>)
        requires
            old(self).wf(),
        ensures
            final(self).moved_from(old(self)),
            outcome(r, ident_spec(old(self).text(), old(self).at(), old(self).line_no()), final(self).pos,
                final(self).line),
            r is Ok ==> final(self).at() > old(self).at(),
    {
        self.skip_ws();
        let e = scan(self.chars.as_slice(), self.pos, CharClass::Symbol);
        if e == self.pos {
            return Err(failure("Expected identifier".to_string(), self.line));
        }
        let t = text_between(self.chars.as_slice(), self.pos, e);
        self.pos = e;
        Ok(t)
    }

    /// A double-quoted string.
    fn string(&mut self) -> (r: Result<String, BusmasterError>)
        requires
            old(self).wf(),
        ensures
            final(self).moved_from(old(self)),
            outcome(r, string_spec(old(self).text(), old(self).at(), old(self).line_no()), final(self).pos,
                final(self).line),
            r is Ok ==> final(self).at() > old(self).at(),
    {
        self.skip_ws();
        if !(self.pos < self.chars.len() && self.chars[self.pos] == '"') {
            return Err(failure("Expected string".to_string(), self.line));
        }
        self.pos += 1;
        let ghost s = self.chars@;
        let ghost start = (self.pos as int, self.line as int);
        let mut acc = String::new();
        while self.pos < self.chars.len()
            invariant
                self.wf(),
                self.chars@ == s,
                s == old(self).chars@,
                old(self).pos <= start.0 <= self.pos,
                old(self).line <= start.1 <= self.line,
                string_spec(s, old(self).pos as int, old(self).line as int) == Ok::<
                    (Seq<char>, int, int),
                    A2lFailure,
                >(string_body(s, start.0, start.1, Seq::empty())),
                string_body(s, start.0, start.1, Seq::empty()) == string_body(s, self.pos as int,
                    self.line as int, acc@),
            decreases s.len() - self.pos,
        {
            let c = self.chars[self.pos];
            if c == '"' {
                if self.pos + 1 < self.chars.len() && self.chars[self.pos + 1] == '"' {
                    crate::text::push_char(&mut acc, '"');
                    self.pos += 2;
                } else {
                    self.pos += 1;
                    return Ok(acc);
                }
            } else if c == '\\' {
                if self.pos + 1 < self.chars.len() {
                    let d = self.chars[self.pos + 1];
                    let ghost before = acc@;
                    if d == 'n' {
                        crate::text::push_char(&mut acc, '\n');
                    } else if d == 't' {
                        crate::text::push_char(&mut acc, '\t');
                    } else if d == 'r' {
                        crate::text::push_char(&mut acc, '\r');
                    } else if d == '\\' {
                        crate::text::push_char(&mut acc, '\\');
                    } else if d == '"' {
                        crate::text::push_char(&mut acc, '"');
                    } else {
                        crate::text::push_char(&mut acc, '\\');
                        crate::text::push_char(&mut acc, d);
                    }
                    assert(acc@ =~= before + escape_text(d));
                    self.pos += 2;
                } else {
                    self.pos += 1;
                    return Ok(acc);
                }
            } else {
                if c == '\n' {
                    self.line += 1;
                }
                crate::text::push_char(&mut acc, c);
                self.pos += 1;
            }
        }
        Ok(acc)
    }

    /// A decimal unsigned integer of at most `max`.
    fn uint(&mut self, max: u64) -> (r: Result<u64, BusmasterError>)
        requires
            old(self).wf(),
        ensures
            final(self).moved_from(old(self)),
            match uint_spec(old(self).text(), old(self).at(), old(self).line_no(), max as nat) {
                Ok((v, p, l)) => r == Ok::<u64, BusmasterError>(v as u64) && final(self).at() == p
                    && final(self).line_no() == l,
                Err(f) => r matches Err(e) && failure_is(e, f),
            },
            r matches Ok(v) ==> v <= max,
            r is Ok ==> final(self).at() > old(self).at(),
    {
        self.skip_ws();
        let e = scan(self.chars.as_slice(), self.pos, CharClass::Digit);
        if e == self.pos {
            return Err(failure("Expected number".to_string(), self.line));
        }
        match parse_unsigned(self.chars.as_slice(), self.pos, e, 10, max) {
            Ok(v) => {
                proof {
                    crate::number::lemma_parse_unsigned_bound(self.chars@.subrange(self.pos as int, e as int), 10, max as nat);
                }
                self.pos = e;
                Ok(v)
            },
            Err(_) => Err(failure("Invalid number".to_string(), self.line)),
        }
    }


    /// A decimal integer with an optional minus sign, between `lo` and `hi`.
    fn signed(&mut self, lo: i64, hi: i64) -> (r: Result<i64, BusmasterError>)
        requires
            old(self).wf(),
        ensures
            final(self).moved_from(old(self)),
            match int_spec(old(self).text(), old(self).at(), old(self).line_no(), lo as int, hi as int) {
                Ok((v, p, l)) => r == Ok::<i64, BusmasterError>(v as i64) && final(self).at() == p
                    && final(self).line_no() == l,
                Err(f) => r matches Err(e) && failure_is(e, f),
            },
            r matches Ok(v) ==> lo <= v <= hi,
            r is Ok ==> final(self).at() > old(self).at(),
    {
        self.skip_ws();
        let q = self.pos;
        let a = if q < self.chars.len() && self.chars[q] == '-' { q + 1 } else { q };
        let e = scan(self.chars.as_slice(), a, CharClass::Digit);
        if e == a {
            return Err(failure("Expected number".to_string(), self.line));
        }
        match parse_i64(self.chars.as_slice(), q, e) {
            Ok(v) => {
                if lo <= v && v <= hi {
                    self.pos = e;
                    Ok(v)
                } else {
                    Err(failure("Invalid number".to_string(), self.line))
                }
            },
            Err(_) => Err(failure("Invalid number".to_string(), self.line)),
        }
    }

    /// A decimal number, kept as its text.
    fn decimal(&mut self) -> (r: Result<String, BusmasterError>)
        requires
            old(self).wf(),
        ensures
            final(self).moved_from(old(self)),
            outcome(r, decimal_spec(old(self).text(), old(self).at(), old(self).line_no()), final(self).pos,
                final(self).line),
            r is Ok ==> final(self).at() > old(self).at(),
    {
        self.skip_ws();
        let q = self.pos;
        let n = self.chars.len();
        let a = if q < n && (self.chars[q] == '-' || self.chars[q] == '+') { q + 1 } else { q };
        let b = scan(self.chars.as_slice(), a, CharClass::Digit);
        let c = if b < n && self.chars[b] == '.' {
            scan(self.chars.as_slice(), b + 1, CharClass::Digit)
        } else {
            b
        };
        let has_digits = b > a || c > b + 1;
        let (e, ok) = if c < n && (self.chars[c] == 'e' || self.chars[c] == 'E') {
            let d = if c + 1 < n && (self.chars[c + 1] == '-' || self.chars[c + 1] == '+') {
                c + 2
            } else {
                c + 1
            };
            let e = scan(self.chars.as_slice(), d, CharClass::Digit);
            (e, has_digits && e > d)
        } else {
            (c, has_digits)
        };
        assert((e as int, ok) == decimal_scan(self.chars@, q as int));
        if e == q {
            return Err(failure("Expected number".to_string(), self.line));
        }
        if !ok {
            return Err(failure("Invalid number".to_string(), self.line));
        }
        let t = text_between(self.chars.as_slice(), q, e);
        self.pos = e;
        Ok(t)
    }

    /// An address: hexadecimal after `0x` or `0X`, else decimal.
    fn address(&mut self) -> (r: Result<u64, BusmasterError>)
        requires
            old(self).wf(),
        ensures
            final(self).moved_from(old(self)),
            match address_spec(old(self).text(), old(self).at(), old(self).line_no()) {
                Ok((v, p, l)) => r == Ok::<u64, BusmasterError>(v as u64) && final(self).at() == p
                    && final(self).line_no() == l,
                Err(f) => r matches Err(e) && failure_is(e, f),
            },
            r is Ok ==> final(self).at() > old(self).at(),
    {
        self.skip_ws();
        let q = self.pos;
        let hex = match lit_end(self.chars.as_slice(), q, "0x") {
            Some(a) => Some(a),
            None => lit_end(self.chars.as_slice(), q, "0X"),
        };
        match hex {
            Some(a) => {
                let e = scan(self.chars.as_slice(), a, CharClass::HexDigit);
                match parse_unsigned(self.chars.as_slice(), a, e, 16, u64::MAX) {
                    Ok(v) => {
                        self.pos = e;
                        Ok(v)
                    },
                    Err(_) => Err(failure("Invalid hex number".to_string(), self.line)),
                }
            },
            None => {
                let e = scan(self.chars.as_slice(), q, CharClass::Digit);
                match parse_unsigned(self.chars.as_slice(), q, e, 10, u64::MAX) {
                    Ok(v) => {
                        self.pos = e;
                        Ok(v)
                    },
                    Err(_) => Err(failure("Invalid number".to_string(), self.line)),
                }
            },
        }
    }


    /// Skip a block whose `/begin` and name have been read.
    fn skip_block(&mut self)
        requires
            old(self).wf(),
        ensures
            final(self).moved_from(old(self)),
            (final(self).at(), final(self).line_no()) == skip_block_spec(old(self).text(), old(self).at(),
                old(self).line_no(), 1),
    {
        let ghost s = self.chars@;
        let mut depth: usize = 1;
        loop
            invariant
                self.wf(),
                self.chars@ == s,
                s == old(self).chars@,
                old(self).pos <= self.pos,
                old(self).line <= self.line,
                1 <= depth <= self.pos + 1,
                skip_block_spec(s, old(self).pos as int, old(self).line as int, 1) == skip_block_spec(s,
                    self.pos as int, self.line as int, depth as nat),
            decreases s.len() - self.pos,
        {
            if self.pos >= self.chars.len() {
                return;
            }
            let ghost p = self.pos as int;
            self.skip_ws();
            if let Some(e) = kw_end(self.chars.as_slice(), self.pos, "/begin") {
                self.pos = e;
                depth += 1;
            } else if let Some(e) = kw_end(self.chars.as_slice(), self.pos, "/end") {
                self.pos = e;
                if depth == 1 {
                    self.skip_ws();
                    self.pos = scan(self.chars.as_slice(), self.pos, CharClass::Symbol);
                    return;
                }
                depth -= 1;
            } else if self.pos < self.chars.len() {
                self.pos += 1;
            } else {
                return;
            }
        }
    }

    /// Identifiers up to `/end` or the end of the text.
    fn ident_list(&mut self) -> (r: Result<Vec<String>, BusmasterError>)
        requires
            old(self).wf(),
        ensures
            final(self).moved_from(old(self)),
            match ident_list_spec(old(self).text(), old(self).at(), old(self).line_no()) {
                Ok((v, p, l)) => r matches Ok(x) && texts(x@) == v && final(self).at() == p
                    && final(self).line_no() == l,
                Err(f) => r matches Err(e) && failure_is(e, f),
            },
    {
        let ghost s = self.chars@;
        self.skip_ws();
        let mut list: Vec<String> = Vec::new();
        proof {
            assert(texts(list@) =~= Seq::empty());
        }
        loop
            invariant
                self.wf(),
                self.chars@ == s,
                s == old(self).chars@,
                old(self).pos <= self.pos,
                old(self).line <= self.line,
                ident_list_spec(s, old(self).pos as int, old(self).line as int) == ident_list_from(s,
                    self.pos as int, self.line as int, texts(list@)),
            decreases s.len() - self.pos,
        {
            if self.pos >= self.chars.len() || self.here_kw("/end") {
                return Ok(list);
            }
            let ghost p = self.pos as int;
            let id = self.ident()?;
            self.skip_ws();
            let ghost before = list@;
            list.push(id);
            proof {
                assert(texts(list@) =~= texts(before).push(id@));
            }
        }
    }

    /// Strings up to `/end` or the end of the text, added to `acc`.
    fn text_lines(&mut self, acc: &mut Vec<String>) -> (r: Result<(), BusmasterError>)
        requires
            old(self).wf(),
        ensures
            final(self).moved_from(old(self)),
            match text_lines(old(self).text(), old(self).at(), old(self).line_no(), texts(old(acc)@)) {
                Ok((v, p, l)) => r is Ok && texts(final(acc)@) == v && final(self).at() == p
                    && final(self).line_no() == l,
                Err(f) => r matches Err(e) && failure_is(e, f),
            },
    {
        let ghost s = self.chars@;
        loop
            invariant
                self.wf(),
                self.chars@ == s,
                s == old(self).chars@,
                old(self).pos <= self.pos,
                old(self).line <= self.line,
                text_lines(s, old(self).pos as int, old(self).line as int, texts(old(acc)@)) == text_lines(s,
                    self.pos as int, self.line as int, texts(acc@)),
            decreases s.len() - self.pos,
        {
            if self.pos >= self.chars.len() || self.here_kw("/end") {
                return Ok(());
            }
            if self.chars[self.pos] == '"' {
                let t = self.string()?;
                self.skip_ws();
                let ghost before = acc@;
                acc.push(t);
                proof {
                    assert(texts(acc@) =~= texts(before).push(t@));
                }
            } else {
                self.pos += 1;
            }
        }
    }

    /// The end keyword `/end` and then `name`.
    fn close(&mut self, name: &str) -> (r: Result<(), BusmasterError>)
        requires
            old(self).wf(),
        ensures
            final(self).moved_from(old(self)),
            match close_spec(old(self).text(), old(self).at(), old(self).line_no(), name@) {
                Ok((p, l)) => r is Ok && final(self).at() == p && final(self).line_no() == l,
                Err(f) => r matches Err(e) && failure_is(e, f),
            },
    {
        self.expect("/end")?;
        self.expect(name)
    }

    /// An `IF_DATA` block after its keyword.
    fn if_data(&mut self) -> (r: Result<A2lIfData, BusmasterError>)
        requires
            old(self).wf(),
        ensures
            final(self).moved_from(old(self)),
            outcome(r, if_data_spec(old(self).text(), old(self).at(), old(self).line_no()), final(self).pos,
                final(self).line),
    {
        let name = self.ident()?;
        self.skip_ws();
        let start = self.pos;
        self.pos = raw_block_end_exec(self.chars.as_slice(), start);
        let (a, b) = trim_bounds(self.chars.as_slice(), start, self.pos);
        let content = text_between(self.chars.as_slice(), a, b);
        self.close("IF_DATA")?;
        Ok(A2lIfData { name, content })
    }

    /// One step of an `ANNOTATION` block.
    fn annotation_step(&mut self, a: &mut A2lAnnotation) -> (r: Result<bool, BusmasterError>)
        requires
            old(self).wf(),
        ensures
            final(self).moved_from(old(self)),
            match annotation_step(old(self).text(), old(self).at(), old(self).line_no(), old(a)@) {
                Ok((go, b, p, l)) => r == Ok::<bool, BusmasterError>(go) && final(a)@ == b
                    && final(self).at() == p && final(self).line_no() == l,
                Err(f) => r matches Err(e) && failure_is(e, f),
            },
            r == Ok::<bool, BusmasterError>(true) ==> final(self).at() > old(self).at(),
    {
        self.skip_ws();
        if self.here_kw("ANNOTATION_LABEL") {
            self.pass_kw("ANNOTATION_LABEL");
            a.label = Some(self.string()?);
            Ok(true)
        } else if self.here_kw("ANNOTATION_ORIGIN") {
            self.pass_kw("ANNOTATION_ORIGIN");
            a.origin = Some(self.string()?);
            Ok(true)
        } else if self.here_kw("/begin") {
            self.pass_kw("/begin");
            self.skip_ws();
            if self.here_kw("ANNOTATION_TEXT") {
                self.pass_kw("ANNOTATION_TEXT");
                self.skip_ws();
                self.text_lines(&mut a.text)?;
                self.close("ANNOTATION_TEXT")?;
            } else {
                self.skip_block();
            }
            Ok(true)
        } else if self.at_end() || self.here_kw("/end") {
            Ok(false)
        } else {
            self.pos += 1;
            Ok(true)
        }
    }

    /// An `ANNOTATION` block after its keyword.
    fn annotation(&mut self) -> (r: Result<A2lAnnotation, BusmasterError>)
        requires
            old(self).wf(),
        ensures
            final(self).moved_from(old(self)),
            outcome(r, annotation_spec(old(self).text(), old(self).at(), old(self).line_no()), final(self).pos,
                final(self).line),
    {
        let ghost s = self.chars@;
        self.skip_ws();
        let mut a = A2lAnnotation { label: None, origin: None, text: Vec::new() };
        proof {
            assert(texts(a.text@) =~= Seq::empty());
        }
        let ghost p0 = self.pos as int;
        let ghost l0 = self.line as int;
        loop
            invariant_except_break
                annotation_loop(s, p0, l0, empty_annotation()) == annotation_loop(s, self.pos as int,
                    self.line as int, a@),
            invariant
                self.wf(),
                self.chars@ == s,
                s == old(self).chars@,
                old(self).pos <= p0 <= self.pos,
                old(self).line <= l0 <= self.line,
                (p0, l0) == skip_ws_spec(s, old(self).pos as int, old(self).line as int),
            ensures
                annotation_loop(s, p0, l0, empty_annotation()) == Ok::<(AnnotationModel, int, int), A2lFailure>(
                    (a@, self.pos as int, self.line as int)),
            decreases s.len() - self.pos,
        {
            if self.here_kw("/end") {
                break;
            }
            let go = self.annotation_step(&mut a)?;
            if !go {
                break;
            }
        }
        self.close("ANNOTATION")?;
        Ok(a)
    }


    /// Matrix dimensions: numbers until one cannot be read, or until
    /// `/end` or `stop` follows one.
    fn dims(&mut self, stop: &str) -> (r: Vec<u32>)
        requires
            old(self).wf(),
        ensures
            final(self).moved_from(old(self)),
            (r@, final(self).at(), final(self).line_no()) == dims_from(old(self).text(), old(self).at(),
                old(self).line_no(), Seq::empty(), stop@),
    {
        let ghost s = self.chars@;
        let mut d: Vec<u32> = Vec::new();
        loop
            invariant
                self.wf(),
                self.chars@ == s,
                s == old(self).chars@,
                old(self).pos <= self.pos,
                old(self).line <= self.line,
                dims_from(s, old(self).pos as int, old(self).line as int, Seq::empty(), stop@) == dims_from(s,
                    self.pos as int, self.line as int, d@, stop@),
            decreases s.len() - self.pos,
        {
            let ghost p = self.pos as int;
            self.skip_ws();
            let e = scan(self.chars.as_slice(), self.pos, CharClass::Digit);
            if e == self.pos {
                return d;
            }
            match parse_unsigned(self.chars.as_slice(), self.pos, e, 10, 0xFFFF_FFFF) {
                Err(_) => {
                    self.pos = e;
                    return d;
                },
                Ok(v) => {
                    proof {
                        crate::number::lemma_parse_unsigned_bound(self.chars@.subrange(self.pos as int, e as int), 10,
                            0xFFFF_FFFF);
                    }
                    self.pos = e;
                    self.skip_ws();
                    d.push(v as u32);
                    if self.here_kw("/end") || self.here_kw(stop) {
                        return d;
                    }
                },
            }
        }
    }

    /// A nested block after `/begin`: `IF_DATA`, `ANNOTATION`, or another
    /// (skipped).
    fn nested(&mut self, if_data: &mut Vec<A2lIfData>, annotations: &mut Vec<A2lAnnotation>) -> (r: Result<
        (),
        BusmasterError,
    >)
        requires
            old(self).wf(),
        ensures
            final(self).moved_from(old(self)),
            match nested_spec(old(self).text(), old(self).at(), old(self).line_no(), if_data_view(old(if_data)@),
                annotations_view(old(annotations)@)) {
                Ok((d, a, p, l)) => r is Ok && if_data_view(final(if_data)@) == d && annotations_view(
                    final(annotations)@,
                ) == a && final(self).at() == p && final(self).line_no() == l,
                Err(f) => r matches Err(e) && failure_is(e, f),
            },
    {
        if self.here_kw("IF_DATA") {
            self.pass_kw("IF_DATA");
            let d = self.if_data()?;
            let ghost before = if_data@;
            if_data.push(d);
            proof {
                assert(if_data_view(if_data@) =~= if_data_view(before).push(d@));
            }
        } else if self.here_kw("ANNOTATION") {
            self.pass_kw("ANNOTATION");
            let a = self.annotation()?;
            let ghost before = annotations@;
            annotations.push(a);
            proof {
                assert(annotations_view(annotations@) =~= annotations_view(before).push(a@));
            }
        } else {
            self.skip_block();
        }
        Ok(())
    }

    /// One entry of a `MEASUREMENT` block.
    fn measurement_step(&mut self, x: &mut A2lMeasurement) -> (r: Result<bool, BusmasterError>)
        requires
            old(self).wf(),
        ensures
            final(self).moved_from(old(self)),
            match measurement_step(old(self).text(), old(self).at(), old(self).line_no(), old(x)@) {
                Ok((go, b, p, l)) => r == Ok::<bool, BusmasterError>(go) && final(x)@ == b
                    && final(self).at() == p && final(self).line_no() == l,
                Err(f) => r matches Err(e) && failure_is(e, f),
            },
            r == Ok::<bool, BusmasterError>(true) ==> final(self).at() > old(self).at(),
    {
        reveal(measurement_step);
        self.skip_ws();
        if self.here_kw("ECU_ADDRESS") {
            self.pass_kw("ECU_ADDRESS");
            x.ecu_address = Some(self.address()?);
        } else if self.here_kw("ECU_ADDRESS_EXTENSION") {
            self.pass_kw("ECU_ADDRESS_EXTENSION");
            let v = self.uint(0xFFFF)?;
            x.ecu_address_extension = Some((v % 256) as u8);
        } else if self.here_kw("FORMAT") {
            self.pass_kw("FORMAT");
            x.format = Some(self.string()?);
        } else if self.here_kw("PHYS_UNIT") {
            self.pass_kw("PHYS_UNIT");
            x.phys_unit = Some(self.string()?);
        } else if self.here_kw("BIT_MASK") {
            self.pass_kw("BIT_MASK");
            x.bit_mask = Some(self.address()?);
        } else if self.here_kw("BYTE_ORDER") {
            self.pass_kw("BYTE_ORDER");
            let o = self.ident()?;
            x.byte_order = Some(byte_order_from(&o));
        } else if self.here_kw("DISCRETE") {
            self.pass_kw("DISCRETE");
            x.discrete = true;
        } else if self.here_kw("READ_WRITE") {
            self.pass_kw("READ_WRITE");
            x.read_write = true;
        } else if self.here_kw("DISPLAY_IDENTIFIER") {
            self.pass_kw("DISPLAY_IDENTIFIER");
            x.display_identifier = Some(self.ident()?);
        } else if self.here_kw("MATRIX_DIM") {
            self.pass_kw("MATRIX_DIM");
            x.matrix_dim = Some(self.dims("ECU_ADDRESS"));
        } else if self.here_kw("/begin") {
            self.pass_kw("/begin");
            self.skip_ws();
            self.nested(&mut x.if_data, &mut x.annotations)?;
        } else if self.at_end() || self.here_kw("/end") {
            return Ok(false);
        } else {
            self.pos += 1;
        }
        Ok(true)
    }

    /// A `MEASUREMENT` block after its keyword.
    fn measurement(&mut self) -> (r: Result<A2lMeasurement, BusmasterError>)
        requires
            old(self).wf(),
        ensures
            final(self).moved_from(old(self)),
            outcome(r, measurement_spec(old(self).text(), old(self).at(), old(self).line_no()), final(self).pos,
                final(self).line),
    {
        let ghost s = self.chars@;
        let name = self.ident()?;
        let long = self.string()?;
        let dt = self.ident()?;
        let data_type = data_type_from(&dt);
        let cm = self.ident()?;
        let res = self.decimal()?;
        let acc = self.decimal()?;
        let lo = self.decimal()?;
        let hi = self.decimal()?;
        let mut x = A2lMeasurement::plain(name, long, data_type, cm, res, acc, lo, hi);
        let ghost p8 = self.pos as int;
        let ghost l8 = self.line as int;
        let ghost x0 = x@;
        assert(measurement_spec(s, old(self).pos as int, old(self).line as int) == block_rest(s, p8, l8, x0,
            measurement_stepper(s), "MEASUREMENT"@));
        self.skip_ws();
        let ghost p0 = self.pos as int;
        let ghost l0 = self.line as int;
        loop
            invariant_except_break
                block_loop(s, p0, l0, x0, measurement_stepper(s)) == block_loop(s, self.pos as int,
                    self.line as int, x@, measurement_stepper(s)),
            invariant
                self.wf(),
                self.chars@ == s,
                s == old(self).chars@,
                old(self).pos <= p0 <= self.pos,
                old(self).line <= l0 <= self.line,
                (p0, l0) == skip_ws_spec(s, p8, l8),
                measurement_spec(s, old(self).pos as int, old(self).line as int) == block_rest(s, p8, l8, x0,
                    measurement_stepper(s), "MEASUREMENT"@),
            ensures
                block_loop(s, p0, l0, x0, measurement_stepper(s)) == Ok::<(MeasurementModel, int, int), A2lFailure>(
                    (x@, self.pos as int, self.line as int)),
            decreases s.len() - self.pos,
        {
            if self.here_kw("/end") {
                break;
            }
            let go = self.measurement_step(&mut x)?;
            if !go {
                break;
            }
        }
        self.close("MEASUREMENT")?;
        Ok(x)
    }

    /// One entry of a block (see `axis_descr_step`).
    fn axis_descr_step(&mut self, x: &mut A2lAxisDescr) -> (r: Result<bool, BusmasterError>)
        requires
            old(self).wf(),
        ensures
            final(self).moved_from(old(self)),
            match axis_descr_step(old(self).text(), old(self).at(), old(self).line_no(), old(x)@) {
                Ok((go, b, p, l)) => r == Ok::<bool, BusmasterError>(go) && final(x)@ == b
                    && final(self).at() == p && final(self).line_no() == l,
                Err(f) => r matches Err(e) && failure_is(e, f),
            },
            r == Ok::<bool, BusmasterError>(true) ==> final(self).at() > old(self).at(),
    {
        reveal(axis_descr_step);
        self.skip_ws();
        if self.here_kw("EXTENDED_LIMITS") {
            self.pass_kw("EXTENDED_LIMITS");
            let a = self.decimal()?;
            let b = self.decimal()?;
            x.extended_limits = Some((a, b));
        } else if self.here_kw("READ_ONLY") {
            self.pass_kw("READ_ONLY");
            x.read_only = true;
        } else if self.here_kw("AXIS_PTS_REF") {
            self.pass_kw("AXIS_PTS_REF");
            x.axis_pts_ref = Some(self.ident()?);
        } else if self.here_kw("CURVE_AXIS_REF") {
            self.pass_kw("CURVE_AXIS_REF");
            x.curve_axis_ref = Some(self.ident()?);
        } else if self.at_end() || self.here_kw("/end") {
            return Ok(false);
        } else {
            self.pos += 1;
        }
        Ok(true)
    }

    /// An `AXIS_DESCR` block after its keyword.
    fn axis_descr(&mut self) -> (r: Result<A2lAxisDescr, BusmasterError>)
        requires
            old(self).wf(),
        ensures
            final(self).moved_from(old(self)),
            outcome(r, axis_descr_spec(old(self).text(), old(self).at(), old(self).line_no()), final(self).pos,
                final(self).line),
    {
        let ghost s = self.chars@;
        let at = self.ident()?;
        let axis_type = axis_type_from(&at);
        let iq = self.ident()?;
        let cm = self.ident()?;
        let n = self.uint(0xFFFF)?;
        let lo = self.decimal()?;
        let hi = self.decimal()?;
        let mut x = A2lAxisDescr::plain(axis_type, iq, cm, n as u16, lo, hi);
        let ghost pe = self.pos as int;
        let ghost le = self.line as int;
        let ghost x0 = x@;
        assert(axis_descr_spec(s, old(self).pos as int, old(self).line as int) == block_rest(s, pe, le, x0,
            axis_descr_stepper(s), "AXIS_DESCR"@));
        self.skip_ws();
        let ghost p0 = self.pos as int;
        let ghost l0 = self.line as int;
        loop
            invariant_except_break
                block_loop(s, p0, l0, x0, axis_descr_stepper(s)) == block_loop(s, self.pos as int,
                    self.line as int, x@, axis_descr_stepper(s)),
            invariant
                self.wf(),
                self.chars@ == s,
                s == old(self).chars@,
                old(self).pos <= p0 <= self.pos,
                old(self).line <= l0 <= self.line,
                (p0, l0) == skip_ws_spec(s, pe, le),
                axis_descr_spec(s, old(self).pos as int, old(self).line as int) == block_rest(s, pe, le, x0,
                    axis_descr_stepper(s), "AXIS_DESCR"@),
            ensures
                block_loop(s, p0, l0, x0, axis_descr_stepper(s)) == Ok::<(AxisDescrModel, int, int), A2lFailure>(
                    (x@, self.pos as int, self.line as int)),
            decreases s.len() - self.pos,
        {
            if self.here_kw("/end") {
                break;
            }
            let go = self.axis_descr_step(&mut x)?;
            if !go {
                break;
            }
        }
        self.close("AXIS_DESCR")?;
        Ok(x)
    }

    /// One entry of a block (see `characteristic_step`).
    fn characteristic_step(&mut self, x: &mut A2lCharacteristic) -> (r: Result<bool, BusmasterError>)
        requires
            old(self).wf(),
        ensures
            final(self).moved_from(old(self)),
            match characteristic_step(old(self).text(), old(self).at(), old(self).line_no(), old(x)@) {
                Ok((go, b, p, l)) => r == Ok::<bool, BusmasterError>(go) && final(x)@ == b
                    && final(self).at() == p && final(self).line_no() == l,
                Err(f) => r matches Err(e) && failure_is(e, f),
            },
            r == Ok::<bool, BusmasterError>(true) ==> final(self).at() > old(self).at(),
    {
        reveal(characteristic_step);
        self.skip_ws();
        if self.here_kw("FORMAT") {
            self.pass_kw("FORMAT");
            x.format = Some(self.string()?);
        } else if self.here_kw("PHYS_UNIT") {
            self.pass_kw("PHYS_UNIT");
            x.phys_unit = Some(self.string()?);
        } else if self.here_kw("EXTENDED_LIMITS") {
            self.pass_kw("EXTENDED_LIMITS");
            let a = self.decimal()?;
            let b = self.decimal()?;
            x.extended_limits = Some((a, b));
        } else if self.here_kw("READ_ONLY") {
            self.pass_kw("READ_ONLY");
            x.read_only = true;
        } else if self.here_kw("DISCRETE") {
            self.pass_kw("DISCRETE");
            x.discrete = true;
        } else if self.here_kw("GUARD_RAILS") {
            self.pass_kw("GUARD_RAILS");
            x.guard_rails = true;
        } else if self.here_kw("STEP_SIZE") {
            self.pass_kw("STEP_SIZE");
            x.step_size = Some(self.decimal()?);
        } else if self.here_kw("NUMBER") {
            self.pass_kw("NUMBER");
            let v = self.uint(0xFFFF_FFFF)?;
            x.number = Some(v as u32);
        } else if self.here_kw("MATRIX_DIM") {
            self.pass_kw("MATRIX_DIM");
            x.matrix_dim = Some(self.dims("/begin"));
        } else if self.here_kw("/begin") {
            self.pass_kw("/begin");
            self.skip_ws();
            if self.here_kw("AXIS_DESCR") {
                self.pass_kw("AXIS_DESCR");
                let a = self.axis_descr()?;
                let ghost before = x.axis_descr@;
                x.axis_descr.push(a);
                proof {
                    assert(axes_view(x.axis_descr@) =~= axes_view(before).push(a@));
                }
            } else {
                self.nested(&mut x.if_data, &mut x.annotations)?;
            }
        } else if self.at_end() || self.here_kw("/end") {
            return Ok(false);
        } else {
            self.pos += 1;
        }
        Ok(true)
    }

    /// A `CHARACTERISTIC` block after its keyword.
    fn characteristic(&mut self) -> (r: Result<A2lCharacteristic, BusmasterError>)
        requires
            old(self).wf(),
        ensures
            final(self).moved_from(old(self)),
            outcome(r, characteristic_spec(old(self).text(), old(self).at(), old(self).line_no()), final(self).pos,
                final(self).line),
    {
        let ghost s = self.chars@;
        let name = self.ident()?;
        let long = self.string()?;
        let ct = self.ident()?;
        let char_type = characteristic_type_from(&ct);
        let address = self.address()?;
        let rl = self.ident()?;
        let md = self.decimal()?;
        let cm = self.ident()?;
        let lo = self.decimal()?;
        let hi = self.decimal()?;
        let mut x = A2lCharacteristic::plain(name, long, char_type, address, rl, md, cm, lo, hi);
        let ghost pe = self.pos as int;
        let ghost le = self.line as int;
        let ghost x0 = x@;
        assert(characteristic_spec(s, old(self).pos as int, old(self).line as int) == block_rest(s, pe, le, x0,
            characteristic_stepper(s), "CHARACTERISTIC"@));
        self.skip_ws();
        let ghost p0 = self.pos as int;
        let ghost l0 = self.line as int;
        loop
            invariant_except_break
                block_loop(s, p0, l0, x0, characteristic_stepper(s)) == block_loop(s, self.pos as int,
                    self.line as int, x@, characteristic_stepper(s)),
            invariant
                self.wf(),
                self.chars@ == s,
                s == old(self).chars@,
                old(self).pos <= p0 <= self.pos,
                old(self).line <= l0 <= self.line,
                (p0, l0) == skip_ws_spec(s, pe, le),
                characteristic_spec(s, old(self).pos as int, old(self).line as int) == block_rest(s, pe, le, x0,
                    characteristic_stepper(s), "CHARACTERISTIC"@),
            ensures
                block_loop(s, p0, l0, x0, characteristic_stepper(s)) == Ok::<(CharacteristicModel, int, int), A2lFailure>(
                    (x@, self.pos as int, self.line as int)),
            decreases s.len() - self.pos,
        {
            if self.here_kw("/end") {
                break;
            }
            let go = self.characteristic_step(&mut x)?;
            if !go {
                break;
            }
        }
        self.close("CHARACTERISTIC")?;
        Ok(x)
    }


    /// Pass over everything up to the next `/end` (or the end of the text).
    fn to_end(&mut self)
        requires
            old(self).wf(),
        ensures
            final(self).moved_from(old(self)),
            final(self).at() == skip_to_end(old(self).text(), old(self).at()),
            final(self).line_no() == old(self).line_no(),
    {
        let ghost s = self.chars@;
        while self.pos < self.chars.len() && !self.here_kw("/end")
            invariant
                self.wf(),
                self.chars@ == s,
                s == old(self).chars@,
                old(self).pos <= self.pos,
                self.line == old(self).line,
                skip_to_end(s, old(self).pos as int) == skip_to_end(s, self.pos as int),
            decreases s.len() - self.pos,
        {
            self.pos += 1;
        }
    }

    /// The six decimal numbers of `COEFFS`.
    fn six_decimals(&mut self) -> (r: Result<(String, String, String, String, String, String), BusmasterError>)
        requires
            old(self).wf(),
        ensures
            final(self).moved_from(old(self)),
            match six_decimals(old(self).text(), old(self).at(), old(self).line_no()) {
                Ok((v, p, l)) => r matches Ok(x) && (x.0@, x.1@, x.2@, x.3@, x.4@, x.5@) == v
                    && final(self).at() == p && final(self).line_no() == l,
                Err(f) => r matches Err(e) && failure_is(e, f),
            },
    {
        let a = self.decimal()?;
        let b = self.decimal()?;
        let c = self.decimal()?;
        let d = self.decimal()?;
        let e = self.decimal()?;
        let g = self.decimal()?;
        Ok((a, b, c, d, e, g))
    }

    /// The seven SI exponents of `SI_EXPONENTS`.
    fn seven_exponents(&mut self) -> (r: Result<(i8, i8, i8, i8, i8, i8, i8), BusmasterError>)
        requires
            old(self).wf(),
        ensures
            final(self).moved_from(old(self)),
            outcome(r, seven_exponents(old(self).text(), old(self).at(), old(self).line_no()), final(self).pos,
                final(self).line),
    {
        let a = self.signed(-128, 127)?;
        let b = self.signed(-128, 127)?;
        let c = self.signed(-128, 127)?;
        let d = self.signed(-128, 127)?;
        let e = self.signed(-128, 127)?;
        let g = self.signed(-128, 127)?;
        let h = self.signed(-128, 127)?;
        Ok((a as i8, b as i8, c as i8, d as i8, e as i8, g as i8, h as i8))
    }

    /// `k` pairs of decimal numbers.
    fn decimal_pairs(&mut self, k: u16) -> (r: Result<Vec<(String, String)>, BusmasterError>)
        requires
            old(self).wf(),
        ensures
            final(self).moved_from(old(self)),
            match decimal_pairs(old(self).text(), old(self).at(), old(self).line_no(), k as nat, Seq::empty()) {
                Ok((v, p, l)) => r matches Ok(x) && x@.map_values(|q: (String, String)| (q.0@, q.1@)) == v
                    && final(self).at() == p && final(self).line_no() == l,
                Err(f) => r matches Err(e) && failure_is(e, f),
            },
    {
        let ghost s = self.chars@;
        let mut v: Vec<(String, String)> = Vec::new();
        let mut i: u16 = 0;
        proof {
            assert(v@.map_values(|q: (String, String)| (q.0@, q.1@)) =~= Seq::empty());
        }
        while i < k
            invariant
                self.wf(),
                self.chars@ == s,
                s == old(self).chars@,
                old(self).pos <= self.pos,
                old(self).line <= self.line,
                i <= k,
                decimal_pairs(s, old(self).pos as int, old(self).line as int, k as nat, Seq::empty())
                    == decimal_pairs(s, self.pos as int, self.line as int, (k - i) as nat, v@.map_values(
                    |q: (String, String)| (q.0@, q.1@),
                )),
            decreases k - i,
        {
            let a = self.decimal()?;
            let b = self.decimal()?;
            let ghost before = v@;
            v.push((a, b));
            proof {
                assert(v@.map_values(|q: (String, String)| (q.0@, q.1@)) =~= before.map_values(
                    |q: (String, String)| (q.0@, q.1@),
                ).push((a@, b@)));
            }
            i += 1;
        }
        Ok(v)
    }

    /// `k` pairs of an integer and a string.
    fn verbal_pairs(&mut self, k: u16) -> (r: Result<Vec<(i64, String)>, BusmasterError>)
        requires
            old(self).wf(),
        ensures
            final(self).moved_from(old(self)),
            match verbal_pairs(old(self).text(), old(self).at(), old(self).line_no(), k as nat, Seq::empty()) {
                Ok((v, p, l)) => r matches Ok(x) && x@.map_values(|q: (i64, String)| (q.0, q.1@)) == v
                    && final(self).at() == p && final(self).line_no() == l,
                Err(f) => r matches Err(e) && failure_is(e, f),
            },
    {
        let ghost s = self.chars@;
        let mut v: Vec<(i64, String)> = Vec::new();
        let mut i: u16 = 0;
        proof {
            assert(v@.map_values(|q: (i64, String)| (q.0, q.1@)) =~= Seq::empty());
        }
        while i < k
            invariant
                self.wf(),
                self.chars@ == s,
                s == old(self).chars@,
                old(self).pos <= self.pos,
                old(self).line <= self.line,
                i <= k,
                verbal_pairs(s, old(self).pos as int, old(self).line as int, k as nat, Seq::empty())
                    == verbal_pairs(s, self.pos as int, self.line as int, (k - i) as nat, v@.map_values(
                    |q: (i64, String)| (q.0, q.1@),
                )),
            decreases k - i,
        {
            let a = self.signed(i64::MIN, i64::MAX)?;
            let b = self.string()?;
            let ghost before = v@;
            v.push((a, b));
            proof {
                assert(v@.map_values(|q: (i64, String)| (q.0, q.1@)) =~= before.map_values(
                    |q: (i64, String)| (q.0, q.1@),
                ).push((a, b@)));
            }
            i += 1;
        }
        Ok(v)
    }

    /// One entry of a block (see `compu_method_step`).
    fn compu_method_step(&mut self, x: &mut A2lCompuMethod) -> (r: Result<bool, BusmasterError>)
        requires
            old(self).wf(),
        ensures
            final(self).moved_from(old(self)),
            match compu_method_step(old(self).text(), old(self).at(), old(self).line_no(), old(x)@) {
                Ok((go, b, p, l)) => r == Ok::<bool, BusmasterError>(go) && final(x)@ == b
                    && final(self).at() == p && final(self).line_no() == l,
                Err(f) => r matches Err(e) && failure_is(e, f),
            },
            r == Ok::<bool, BusmasterError>(true) ==> final(self).at() > old(self).at(),
    {
        reveal(compu_method_step);
        self.skip_ws();
        if self.here_kw("COEFFS_LINEAR") {
            self.pass_kw("COEFFS_LINEAR");
            let a = self.decimal()?;
            let b = self.decimal()?;
            x.coeffs_linear = Some((a, b));
        } else if self.here_kw("COEFFS") {
            self.pass_kw("COEFFS");
            x.coeffs = Some(self.six_decimals()?);
        } else if self.here_kw("COMPU_TAB_REF") {
            self.pass_kw("COMPU_TAB_REF");
            x.compu_tab_ref = Some(self.ident()?);
        } else if self.here_kw("REF_UNIT") {
            self.pass_kw("REF_UNIT");
            x.ref_unit = Some(self.ident()?);
        } else if self.here_kw("/begin") {
            self.pass_kw("/begin");
            self.skip_ws();
            if self.here_kw("FORMULA") {
                self.pass_kw("FORMULA");
                let t = self.string()?;
                self.to_end();
                self.close("FORMULA")?;
                x.formula = Some(t);
            } else {
                self.skip_block();
            }
        } else if self.at_end() || self.here_kw("/end") {
            return Ok(false);
        } else {
            self.pos += 1;
        }
        Ok(true)
    }

    /// A `COMPU_METHOD` block after its keyword.
    fn compu_method(&mut self) -> (r: Result<A2lCompuMethod, BusmasterError>)
        requires
            old(self).wf(),
        ensures
            final(self).moved_from(old(self)),
            outcome(r, compu_method_spec(old(self).text(), old(self).at(), old(self).line_no()), final(self).pos,
                final(self).line),
    {
        let ghost s = self.chars@;
        let name = self.ident()?;
        let long = self.string()?;
        let conv = self.ident()?;
        let conversion_type = conversion_from(&conv);
        let format = self.string()?;
        let unit = self.string()?;
        let mut x = A2lCompuMethod::bare(name, long, conversion_type, format, unit);
        let ghost pe = self.pos as int;
        let ghost le = self.line as int;
        let ghost x0 = x@;
        assert(compu_method_spec(s, old(self).pos as int, old(self).line as int) == block_rest(s, pe, le, x0,
            compu_method_stepper(s), "COMPU_METHOD"@));
        self.skip_ws();
        let ghost p0 = self.pos as int;
        let ghost l0 = self.line as int;
        loop
            invariant_except_break
                block_loop(s, p0, l0, x0, compu_method_stepper(s)) == block_loop(s, self.pos as int,
                    self.line as int, x@, compu_method_stepper(s)),
            invariant
                self.wf(),
                self.chars@ == s,
                s == old(self).chars@,
                old(self).pos <= p0 <= self.pos,
                old(self).line <= l0 <= self.line,
                (p0, l0) == skip_ws_spec(s, pe, le),
                compu_method_spec(s, old(self).pos as int, old(self).line as int) == block_rest(s, pe, le, x0,
                    compu_method_stepper(s), "COMPU_METHOD"@),
            ensures
                block_loop(s, p0, l0, x0, compu_method_stepper(s)) == Ok::<(CompuMethodModel, int, int), A2lFailure>(
                    (x@, self.pos as int, self.line as int)),
            decreases s.len() - self.pos,
        {
            if self.here_kw("/end") {
                break;
            }
            let go = self.compu_method_step(&mut x)?;
            if !go {
                break;
            }
        }
        self.close("COMPU_METHOD")?;
        Ok(x)
    }

    /// One entry of a block (see `compu_tab_step`).
    fn compu_tab_step(&mut self, x: &mut A2lCompuTab) -> (r: Result<bool, BusmasterError>)
        requires
            old(self).wf(),
        ensures
            final(self).moved_from(old(self)),
            match compu_tab_step(old(self).text(), old(self).at(), old(self).line_no(), old(x)@) {
                Ok((go, b, p, l)) => r == Ok::<bool, BusmasterError>(go) && final(x)@ == b
                    && final(self).at() == p && final(self).line_no() == l,
                Err(f) => r matches Err(e) && failure_is(e, f),
            },
            r == Ok::<bool, BusmasterError>(true) ==> final(self).at() > old(self).at(),
    {
        reveal(compu_tab_step);
        self.skip_ws();
        if self.here_kw("DEFAULT_VALUE") {
            self.pass_kw("DEFAULT_VALUE");
            x.default_value = Some(self.decimal()?);
        } else if self.at_end() || self.here_kw("/end") {
            return Ok(false);
        } else {
            self.pos += 1;
        }
        Ok(true)
    }

    /// A `COMPU_TAB` block after its keyword.
    fn compu_tab(&mut self) -> (r: Result<A2lCompuTab, BusmasterError>)
        requires
            old(self).wf(),
        ensures
            final(self).moved_from(old(self)),
            outcome(r, compu_tab_spec(old(self).text(), old(self).at(), old(self).line_no()), final(self).pos,
                final(self).line),
    {
        let ghost s = self.chars@;
        let name = self.ident()?;
        let long_identifier = self.string()?;
        let conv = self.ident()?;
        let conversion_type = conversion_from(&conv);
        let n = self.uint(0xFFFF)?;
        let values = self.decimal_pairs(n as u16)?;
        let mut x = A2lCompuTab {
            name,
            long_identifier,
            conversion_type,
            number_value_pairs: n as u16,
            values,
            default_value: None,
            default_value_numeric: None,
        };
        let ghost pe = self.pos as int;
        let ghost le = self.line as int;
        let ghost x0 = x@;
        assert(compu_tab_spec(s, old(self).pos as int, old(self).line as int) == block_rest(s, pe, le, x0,
            compu_tab_stepper(s), "COMPU_TAB"@));
        self.skip_ws();
        let ghost p0 = self.pos as int;
        let ghost l0 = self.line as int;
        loop
            invariant_except_break
                block_loop(s, p0, l0, x0, compu_tab_stepper(s)) == block_loop(s, self.pos as int,
                    self.line as int, x@, compu_tab_stepper(s)),
            invariant
                self.wf(),
                self.chars@ == s,
                s == old(self).chars@,
                old(self).pos <= p0 <= self.pos,
                old(self).line <= l0 <= self.line,
                (p0, l0) == skip_ws_spec(s, pe, le),
                compu_tab_spec(s, old(self).pos as int, old(self).line as int) == block_rest(s, pe, le, x0,
                    compu_tab_stepper(s), "COMPU_TAB"@),
            ensures
                block_loop(s, p0, l0, x0, compu_tab_stepper(s)) == Ok::<(CompuTabModel, int, int), A2lFailure>(
                    (x@, self.pos as int, self.line as int)),
            decreases s.len() - self.pos,
        {
            if self.here_kw("/end") {
                break;
            }
            let go = self.compu_tab_step(&mut x)?;
            if !go {
                break;
            }
        }
        self.close("COMPU_TAB")?;
        Ok(x)
    }

    /// One entry of a block (see `compu_vtab_step`).
    fn compu_vtab_step(&mut self, x: &mut A2lCompuVtab) -> (r: Result<bool, BusmasterError>)
        requires
            old(self).wf(),
        ensures
            final(self).moved_from(old(self)),
            match compu_vtab_step(old(self).text(), old(self).at(), old(self).line_no(), old(x)@) {
                Ok((go, b, p, l)) => r == Ok::<bool, BusmasterError>(go) && final(x)@ == b
                    && final(self).at() == p && final(self).line_no() == l,
                Err(f) => r matches Err(e) && failure_is(e, f),
            },
            r == Ok::<bool, BusmasterError>(true) ==> final(self).at() > old(self).at(),
    {
        reveal(compu_vtab_step);
        self.skip_ws();
        if self.here_kw("DEFAULT_VALUE") {
            self.pass_kw("DEFAULT_VALUE");
            x.default_value = Some(self.string()?);
        } else if self.at_end() || self.here_kw("/end") {
            return Ok(false);
        } else {
            self.pos += 1;
        }
        Ok(true)
    }

    /// A `COMPU_VTAB` block after its keyword.
    fn compu_vtab(&mut self) -> (r: Result<A2lCompuVtab, BusmasterError>)
        requires
            old(self).wf(),
        ensures
            final(self).moved_from(old(self)),
            outcome(r, compu_vtab_spec(old(self).text(), old(self).at(), old(self).line_no()), final(self).pos,
                final(self).line),
    {
        let ghost s = self.chars@;
        let name = self.ident()?;
        let long_identifier = self.string()?;
        let conv = self.ident()?;
        let conversion_type = conversion_from(&conv);
        let n = self.uint(0xFFFF)?;
        let values = self.verbal_pairs(n as u16)?;
        let mut x = A2lCompuVtab {
            name,
            long_identifier,
            conversion_type,
            number_value_pairs: n as u16,
            values,
            default_value: None,
        };
        let ghost pe = self.pos as int;
        let ghost le = self.line as int;
        let ghost x0 = x@;
        assert(compu_vtab_spec(s, old(self).pos as int, old(self).line as int) == block_rest(s, pe, le, x0,
            compu_vtab_stepper(s), "COMPU_VTAB"@));
        self.skip_ws();
        let ghost p0 = self.pos as int;
        let ghost l0 = self.line as int;
        loop
            invariant_except_break
                block_loop(s, p0, l0, x0, compu_vtab_stepper(s)) == block_loop(s, self.pos as int,
                    self.line as int, x@, compu_vtab_stepper(s)),
            invariant
                self.wf(),
                self.chars@ == s,
                s == old(self).chars@,
                old(self).pos <= p0 <= self.pos,
                old(self).line <= l0 <= self.line,
                (p0, l0) == skip_ws_spec(s, pe, le),
                compu_vtab_spec(s, old(self).pos as int, old(self).line as int) == block_rest(s, pe, le, x0,
                    compu_vtab_stepper(s), "COMPU_VTAB"@),
            ensures
                block_loop(s, p0, l0, x0, compu_vtab_stepper(s)) == Ok::<(CompuVtabModel, int, int), A2lFailure>(
                    (x@, self.pos as int, self.line as int)),
            decreases s.len() - self.pos,
        {
            if self.here_kw("/end") {
                break;
            }
            let go = self.compu_vtab_step(&mut x)?;
            if !go {
                break;
            }
        }
        self.close("COMPU_VTAB")?;
        Ok(x)
    }

    /// One entry of a block (see `record_layout_step`).
    fn record_layout_step(&mut self, x: &mut A2lRecordLayout) -> (r: Result<bool, BusmasterError>)
        requires
            old(self).wf(),
        ensures
            final(self).moved_from(old(self)),
            match record_layout_step(old(self).text(), old(self).at(), old(self).line_no(), old(x)@) {
                Ok((go, b, p, l)) => r == Ok::<bool, BusmasterError>(go) && final(x)@ == b
                    && final(self).at() == p && final(self).line_no() == l,
                Err(f) => r matches Err(e) && failure_is(e, f),
            },
            r == Ok::<bool, BusmasterError>(true) ==> final(self).at() > old(self).at(),
    {
        reveal(record_layout_step);
        self.skip_ws();
        if self.here_kw("FNC_VALUES") {
            self.pass_kw("FNC_VALUES");
            let position = self.uint(0xFFFF)?;
            let dt = self.ident()?;
            let index_mode = self.ident()?;
            let address_type = self.ident()?;
            x.fnc_values = Some(A2lFncValues {
                position: position as u16,
                data_type: data_type_from(&dt),
                index_mode,
                address_type,
            });
        } else if self.here_kw("STATIC_RECORD_LAYOUT") {
            self.pass_kw("STATIC_RECORD_LAYOUT");
            x.static_record_layout = true;
        } else if self.at_end() || self.here_kw("/end") {
            return Ok(false);
        } else {
            self.pos += 1;
        }
        Ok(true)
    }

    /// A `RECORD_LAYOUT` block after its keyword.
    fn record_layout(&mut self) -> (r: Result<A2lRecordLayout, BusmasterError>)
        requires
            old(self).wf(),
        ensures
            final(self).moved_from(old(self)),
            outcome(r, record_layout_spec(old(self).text(), old(self).at(), old(self).line_no()), final(self).pos,
                final(self).line),
    {
        let ghost s = self.chars@;
        let name = self.ident()?;
        let mut x = A2lRecordLayout::named(name);
        let ghost pe = self.pos as int;
        let ghost le = self.line as int;
        let ghost x0 = x@;
        assert(record_layout_spec(s, old(self).pos as int, old(self).line as int) == block_rest(s, pe, le, x0,
            record_layout_stepper(s), "RECORD_LAYOUT"@));
        self.skip_ws();
        let ghost p0 = self.pos as int;
        let ghost l0 = self.line as int;
        loop
            invariant_except_break
                block_loop(s, p0, l0, x0, record_layout_stepper(s)) == block_loop(s, self.pos as int,
                    self.line as int, x@, record_layout_stepper(s)),
            invariant
                self.wf(),
                self.chars@ == s,
                s == old(self).chars@,
                old(self).pos <= p0 <= self.pos,
                old(self).line <= l0 <= self.line,
                (p0, l0) == skip_ws_spec(s, pe, le),
                record_layout_spec(s, old(self).pos as int, old(self).line as int) == block_rest(s, pe, le, x0,
                    record_layout_stepper(s), "RECORD_LAYOUT"@),
            ensures
                block_loop(s, p0, l0, x0, record_layout_stepper(s)) == Ok::<(RecordLayoutModel, int, int), A2lFailure>(
                    (x@, self.pos as int, self.line as int)),
            decreases s.len() - self.pos,
        {
            if self.here_kw("/end") {
                break;
            }
            let go = self.record_layout_step(&mut x)?;
            if !go {
                break;
            }
        }
        self.close("RECORD_LAYOUT")?;
        Ok(x)
    }

    /// One entry of a block (see `axis_pts_step`).
    fn axis_pts_step(&mut self, x: &mut A2lAxisPts) -> (r: Result<bool, BusmasterError>)
        requires
            old(self).wf(),
        ensures
            final(self).moved_from(old(self)),
            match axis_pts_step(old(self).text(), old(self).at(), old(self).line_no(), old(x)@) {
                Ok((go, b, p, l)) => r == Ok::<bool, BusmasterError>(go) && final(x)@ == b
                    && final(self).at() == p && final(self).line_no() == l,
                Err(f) => r matches Err(e) && failure_is(e, f),
            },
            r == Ok::<bool, BusmasterError>(true) ==> final(self).at() > old(self).at(),
    {
        reveal(axis_pts_step);
        self.skip_ws();
        if self.here_kw("READ_ONLY") {
            self.pass_kw("READ_ONLY");
            x.read_only = true;
        } else if self.here_kw("GUARD_RAILS") {
            self.pass_kw("GUARD_RAILS");
            x.guard_rails = true;
        } else if self.at_end() || self.here_kw("/end") {
            return Ok(false);
        } else {
            self.pos += 1;
        }
        Ok(true)
    }

    /// An `AXIS_PTS` block after its keyword.
    fn axis_pts(&mut self) -> (r: Result<A2lAxisPts, BusmasterError>)
        requires
            old(self).wf(),
        ensures
            final(self).moved_from(old(self)),
            outcome(r, axis_pts_spec(old(self).text(), old(self).at(), old(self).line_no()), final(self).pos,
                final(self).line),
    {
        let ghost s = self.chars@;
        let name = self.ident()?;
        let long = self.string()?;
        let address = self.address()?;
        let iq = self.ident()?;
        let rl = self.ident()?;
        let md = self.decimal()?;
        let cm = self.ident()?;
        let n = self.uint(0xFFFF)?;
        let lo = self.decimal()?;
        let hi = self.decimal()?;
        let mut x = A2lAxisPts::plain(name, long, address, iq, rl, md, cm, n as u16, lo, hi);
        let ghost pe = self.pos as int;
        let ghost le = self.line as int;
        let ghost x0 = x@;
        assert(axis_pts_spec(s, old(self).pos as int, old(self).line as int) == block_rest(s, pe, le, x0,
            axis_pts_stepper(s), "AXIS_PTS"@));
        self.skip_ws();
        let ghost p0 = self.pos as int;
        let ghost l0 = self.line as int;
        loop
            invariant_except_break
                block_loop(s, p0, l0, x0, axis_pts_stepper(s)) == block_loop(s, self.pos as int,
                    self.line as int, x@, axis_pts_stepper(s)),
            invariant
                self.wf(),
                self.chars@ == s,
                s == old(self).chars@,
                old(self).pos <= p0 <= self.pos,
                old(self).line <= l0 <= self.line,
                (p0, l0) == skip_ws_spec(s, pe, le),
                axis_pts_spec(s, old(self).pos as int, old(self).line as int) == block_rest(s, pe, le, x0,
                    axis_pts_stepper(s), "AXIS_PTS"@),
            ensures
                block_loop(s, p0, l0, x0, axis_pts_stepper(s)) == Ok::<(AxisPtsModel, int, int), A2lFailure>(
                    (x@, self.pos as int, self.line as int)),
            decreases s.len() - self.pos,
        {
            if self.here_kw("/end") {
                break;
            }
            let go = self.axis_pts_step(&mut x)?;
            if !go {
                break;
            }
        }
        self.close("AXIS_PTS")?;
        Ok(x)
    }

    /// One entry of a block (see `unit_step`).
    fn unit_step(&mut self, x: &mut A2lUnit) -> (r: Result<bool, BusmasterError>)
        requires
            old(self).wf(),
        ensures
            final(self).moved_from(old(self)),
            match unit_step(old(self).text(), old(self).at(), old(self).line_no(), old(x)@) {
                Ok((go, b, p, l)) => r == Ok::<bool, BusmasterError>(go) && final(x)@ == b
                    && final(self).at() == p && final(self).line_no() == l,
                Err(f) => r matches Err(e) && failure_is(e, f),
            },
            r == Ok::<bool, BusmasterError>(true) ==> final(self).at() > old(self).at(),
    {
        reveal(unit_step);
        self.skip_ws();
        if self.here_kw("REF_UNIT") {
            self.pass_kw("REF_UNIT");
            x.ref_unit = Some(self.ident()?);
        } else if self.here_kw("SI_EXPONENTS") {
            self.pass_kw("SI_EXPONENTS");
            x.si_exponents = Some(self.seven_exponents()?);
        } else if self.here_kw("UNIT_CONVERSION") {
            self.pass_kw("UNIT_CONVERSION");
            let a = self.decimal()?;
            let b = self.decimal()?;
            x.unit_conversion = Some((a, b));
        } else if self.at_end() || self.here_kw("/end") {
            return Ok(false);
        } else {
            self.pos += 1;
        }
        Ok(true)
    }

    /// A `UNIT` block after its keyword.
    fn unit(&mut self) -> (r: Result<A2lUnit, BusmasterError>)
        requires
            old(self).wf(),
        ensures
            final(self).moved_from(old(self)),
            outcome(r, unit_spec(old(self).text(), old(self).at(), old(self).line_no()), final(self).pos,
                final(self).line),
    {
        let ghost s = self.chars@;
        let name = self.ident()?;
        let long_identifier = self.string()?;
        let display = self.string()?;
        let unit_type = self.ident()?;
        let mut x = A2lUnit {
            name,
            long_identifier,
            display,
            unit_type,
            ref_unit: None,
            si_exponents: None,
            unit_conversion: None,
        };
        let ghost pe = self.pos as int;
        let ghost le = self.line as int;
        let ghost x0 = x@;
        assert(unit_spec(s, old(self).pos as int, old(self).line as int) == block_rest(s, pe, le, x0,
            unit_stepper(s), "UNIT"@));
        self.skip_ws();
        let ghost p0 = self.pos as int;
        let ghost l0 = self.line as int;
        loop
            invariant_except_break
                block_loop(s, p0, l0, x0, unit_stepper(s)) == block_loop(s, self.pos as int,
                    self.line as int, x@, unit_stepper(s)),
            invariant
                self.wf(),
                self.chars@ == s,
                s == old(self).chars@,
                old(self).pos <= p0 <= self.pos,
                old(self).line <= l0 <= self.line,
                (p0, l0) == skip_ws_spec(s, pe, le),
                unit_spec(s, old(self).pos as int, old(self).line as int) == block_rest(s, pe, le, x0,
                    unit_stepper(s), "UNIT"@),
            ensures
                block_loop(s, p0, l0, x0, unit_stepper(s)) == Ok::<(UnitModel, int, int), A2lFailure>(
                    (x@, self.pos as int, self.line as int)),
            decreases s.len() - self.pos,
        {
            if self.here_kw("/end") {
                break;
            }
            let go = self.unit_step(&mut x)?;
            if !go {
                break;
            }
        }
        self.close("UNIT")?;
        Ok(x)
    }


    /// A list of identifiers, then `/end` and the list's keyword `kw`.
    fn list_block(&mut self, kw: &str) -> (r: Result<Vec<String>, BusmasterError>)
        requires
            old(self).wf(),
        ensures
            final(self).moved_from(old(self)),
            match list_block_spec(old(self).text(), old(self).at(), old(self).line_no(), kw@) {
                Ok((v, p, l)) => r matches Ok(x) && texts(x@) == v && final(self).at() == p
                    && final(self).line_no() == l,
                Err(f) => r matches Err(e) && failure_is(e, f),
            },
    {
        let v = self.ident_list()?;
        self.close(kw)?;
        Ok(v)
    }

    /// One entry of a block (see `function_step`).
    fn function_step(&mut self, x: &mut A2lFunction) -> (r: Result<bool, BusmasterError>)
        requires
            old(self).wf(),
        ensures
            final(self).moved_from(old(self)),
            match function_step(old(self).text(), old(self).at(), old(self).line_no(), old(x)@) {
                Ok((go, b, p, l)) => r == Ok::<bool, BusmasterError>(go) && final(x)@ == b
                    && final(self).at() == p && final(self).line_no() == l,
                Err(f) => r matches Err(e) && failure_is(e, f),
            },
            r == Ok::<bool, BusmasterError>(true) ==> final(self).at() > old(self).at(),
    {
        reveal(function_step);
        self.skip_ws();
        if self.here_kw("FUNCTION_VERSION") {
            self.pass_kw("FUNCTION_VERSION");
            x.version = Some(self.string()?);
        } else if self.here_kw("/begin") {
            self.pass_kw("/begin");
            self.skip_ws();
            if self.here_kw("DEF_CHARACTERISTIC") {
                self.pass_kw("DEF_CHARACTERISTIC");
                let v = self.list_block("DEF_CHARACTERISTIC")?;
                x.def_characteristic = v;
            }
            else             if self.here_kw("REF_CHARACTERISTIC") {
                self.pass_kw("REF_CHARACTERISTIC");
                let v = self.list_block("REF_CHARACTERISTIC")?;
                x.ref_characteristic = v;
            }
            else             if self.here_kw("IN_MEASUREMENT") {
                self.pass_kw("IN_MEASUREMENT");
                let v = self.list_block("IN_MEASUREMENT")?;
                x.in_measurement = v;
            }
            else             if self.here_kw("OUT_MEASUREMENT") {
                self.pass_kw("OUT_MEASUREMENT");
                let v = self.list_block("OUT_MEASUREMENT")?;
                x.out_measurement = v;
            }
            else             if self.here_kw("LOC_MEASUREMENT") {
                self.pass_kw("LOC_MEASUREMENT");
                let v = self.list_block("LOC_MEASUREMENT")?;
                x.loc_measurement = v;
            }
            else             if self.here_kw("SUB_FUNCTION") {
                self.pass_kw("SUB_FUNCTION");
                let v = self.list_block("SUB_FUNCTION")?;
                x.sub_function = v;
            } else {
                self.skip_block();
            }
        } else if self.at_end() || self.here_kw("/end") {
            return Ok(false);
        } else {
            self.pos += 1;
        }
        Ok(true)
    }

    /// A `FUNCTION` block after its keyword.
    fn function(&mut self) -> (r: Result<A2lFunction, BusmasterError>)
        requires
            old(self).wf(),
        ensures
            final(self).moved_from(old(self)),
            outcome(r, function_spec(old(self).text(), old(self).at(), old(self).line_no()), final(self).pos,
                final(self).line),
    {
        let ghost s = self.chars@;
        let name = self.ident()?;
        let long = self.string()?;
        let mut x = A2lFunction::named(name, long);
        let ghost pe = self.pos as int;
        let ghost le = self.line as int;
        let ghost x0 = x@;
        assert(function_spec(s, old(self).pos as int, old(self).line as int) == block_rest(s, pe, le, x0,
            function_stepper(s), "FUNCTION"@));
        self.skip_ws();
        let ghost p0 = self.pos as int;
        let ghost l0 = self.line as int;
        loop
            invariant_except_break
                block_loop(s, p0, l0, x0, function_stepper(s)) == block_loop(s, self.pos as int,
                    self.line as int, x@, function_stepper(s)),
            invariant
                self.wf(),
                self.chars@ == s,
                s == old(self).chars@,
                old(self).pos <= p0 <= self.pos,
                old(self).line <= l0 <= self.line,
                (p0, l0) == skip_ws_spec(s, pe, le),
                function_spec(s, old(self).pos as int, old(self).line as int) == block_rest(s, pe, le, x0,
                    function_stepper(s), "FUNCTION"@),
            ensures
                block_loop(s, p0, l0, x0, function_stepper(s)) == Ok::<(FunctionModel, int, int), A2lFailure>(
                    (x@, self.pos as int, self.line as int)),
            decreases s.len() - self.pos,
        {
            if self.here_kw("/end") {
                break;
            }
            let go = self.function_step(&mut x)?;
            if !go {
                break;
            }
        }
        self.close("FUNCTION")?;
        Ok(x)
    }

    /// One entry of a block (see `group_step`).
    fn group_step(&mut self, x: &mut A2lGroup) -> (r: Result<bool, BusmasterError>)
        requires
            old(self).wf(),
        ensures
            final(self).moved_from(old(self)),
            match group_step(old(self).text(), old(self).at(), old(self).line_no(), old(x)@) {
                Ok((go, b, p, l)) => r == Ok::<bool, BusmasterError>(go) && final(x)@ == b
                    && final(self).at() == p && final(self).line_no() == l,
                Err(f) => r matches Err(e) && failure_is(e, f),
            },
            r == Ok::<bool, BusmasterError>(true) ==> final(self).at() > old(self).at(),
    {
        reveal(group_step);
        self.skip_ws();
        if self.here_kw("ROOT") {
            self.pass_kw("ROOT");
            x.root = true;
        } else if self.here_kw("/begin") {
            self.pass_kw("/begin");
            self.skip_ws();
            if self.here_kw("REF_CHARACTERISTIC") {
                self.pass_kw("REF_CHARACTERISTIC");
                let v = self.list_block("REF_CHARACTERISTIC")?;
                x.ref_characteristic = v;
            }
            else             if self.here_kw("REF_MEASUREMENT") {
                self.pass_kw("REF_MEASUREMENT");
                let v = self.list_block("REF_MEASUREMENT")?;
                x.ref_measurement = v;
            }
            else             if self.here_kw("SUB_GROUP") {
                self.pass_kw("SUB_GROUP");
                let v = self.list_block("SUB_GROUP")?;
                x.sub_group = v;
            } else {
                self.skip_block();
            }
        } else if self.at_end() || self.here_kw("/end") {
            return Ok(false);
        } else {
            self.pos += 1;
        }
        Ok(true)
    }

    /// A `GROUP` block after its keyword.
    fn group(&mut self) -> (r: Result<A2lGroup, BusmasterError>)
        requires
            old(self).wf(),
        ensures
            final(self).moved_from(old(self)),
            outcome(r, group_spec(old(self).text(), old(self).at(), old(self).line_no()), final(self).pos,
                final(self).line),
    {
        let ghost s = self.chars@;
        let name = self.ident()?;
        let long = self.string()?;
        let mut x = A2lGroup::named(name, long);
        let ghost pe = self.pos as int;
        let ghost le = self.line as int;
        let ghost x0 = x@;
        assert(group_spec(s, old(self).pos as int, old(self).line as int) == block_rest(s, pe, le, x0,
            group_stepper(s), "GROUP"@));
        self.skip_ws();
        let ghost p0 = self.pos as int;
        let ghost l0 = self.line as int;
        loop
            invariant_except_break
                block_loop(s, p0, l0, x0, group_stepper(s)) == block_loop(s, self.pos as int,
                    self.line as int, x@, group_stepper(s)),
            invariant
                self.wf(),
                self.chars@ == s,
                s == old(self).chars@,
                old(self).pos <= p0 <= self.pos,
                old(self).line <= l0 <= self.line,
                (p0, l0) == skip_ws_spec(s, pe, le),
                group_spec(s, old(self).pos as int, old(self).line as int) == block_rest(s, pe, le, x0,
                    group_stepper(s), "GROUP"@),
            ensures
                block_loop(s, p0, l0, x0, group_stepper(s)) == Ok::<(GroupModel, int, int), A2lFailure>(
                    (x@, self.pos as int, self.line as int)),
            decreases s.len() - self.pos,
        {
            if self.here_kw("/end") {
                break;
            }
            let go = self.group_step(&mut x)?;
            if !go {
                break;
            }
        }
        self.close("GROUP")?;
        Ok(x)
    }

    /// One entry of a block (see `mod_common_step`).
    fn mod_common_step(&mut self, x: &mut A2lModCommon) -> (r: Result<bool, BusmasterError>)
        requires
            old(self).wf(),
        ensures
            final(self).moved_from(old(self)),
            match mod_common_step(old(self).text(), old(self).at(), old(self).line_no(), old(x)@) {
                Ok((go, b, p, l)) => r == Ok::<bool, BusmasterError>(go) && final(x)@ == b
                    && final(self).at() == p && final(self).line_no() == l,
                Err(f) => r matches Err(e) && failure_is(e, f),
            },
            r == Ok::<bool, BusmasterError>(true) ==> final(self).at() > old(self).at(),
    {
        reveal(mod_common_step);
        self.skip_ws();
        if self.here_kw("BYTE_ORDER") {
            self.pass_kw("BYTE_ORDER");
            let o = self.ident()?;
            x.byte_order = Some(byte_order_from(&o));
        } else if self.here_kw("DATA_SIZE") {
            self.pass_kw("DATA_SIZE");
            let v = self.uint(0xFFFF)?;
            x.data_size = Some(v as u16);
        } else if self.here_kw("DEPOSIT") {
            self.pass_kw("DEPOSIT");
            let d = self.ident()?;
            x.deposit = Some(if same_text(&d, "DIFFERENCE") { DepositMode::Difference } else { DepositMode::Absolute });
        } else if self.here_kw("ALIGNMENT_BYTE") {
            self.pass_kw("ALIGNMENT_BYTE");
            let v = self.uint(0xFFFF)?;
            x.alignment_byte = Some(v as u16);
        } else if self.here_kw("ALIGNMENT_WORD") {
            self.pass_kw("ALIGNMENT_WORD");
            let v = self.uint(0xFFFF)?;
            x.alignment_word = Some(v as u16);
        } else if self.here_kw("ALIGNMENT_LONG") {
            self.pass_kw("ALIGNMENT_LONG");
            let v = self.uint(0xFFFF)?;
            x.alignment_long = Some(v as u16);
        } else if self.here_kw("ALIGNMENT_FLOAT32_IEEE") {
            self.pass_kw("ALIGNMENT_FLOAT32_IEEE");
            let v = self.uint(0xFFFF)?;
            x.alignment_float32 = Some(v as u16);
        } else if self.here_kw("ALIGNMENT_FLOAT64_IEEE") {
            self.pass_kw("ALIGNMENT_FLOAT64_IEEE");
            let v = self.uint(0xFFFF)?;
            x.alignment_float64 = Some(v as u16);
        } else if self.here_kw("ALIGNMENT_INT64") {
            self.pass_kw("ALIGNMENT_INT64");
            let v = self.uint(0xFFFF)?;
            x.alignment_int64 = Some(v as u16);
        } else if self.at_end() || self.here_kw("/end") {
            return Ok(false);
        } else {
            self.pos += 1;
        }
        Ok(true)
    }

    /// A `MOD_COMMON` block after its keyword.
    fn mod_common(&mut self) -> (r: Result<A2lModCommon, BusmasterError>)
        requires
            old(self).wf(),
        ensures
            final(self).moved_from(old(self)),
            outcome(r, mod_common_spec(old(self).text(), old(self).at(), old(self).line_no()), final(self).pos,
                final(self).line),
    {
        let ghost s = self.chars@;
        let comment = self.string()?;
        let mut x = A2lModCommon {
            comment,
            byte_order: None,
            data_size: None,
            deposit: None,
            alignment_byte: None,
            alignment_word: None,
            alignment_long: None,
            alignment_float32: None,
            alignment_float64: None,
            alignment_int64: None,
        };
        let ghost pe = self.pos as int;
        let ghost le = self.line as int;
        let ghost x0 = x@;
        assert(mod_common_spec(s, old(self).pos as int, old(self).line as int) == block_rest(s, pe, le, x0,
            mod_common_stepper(s), "MOD_COMMON"@));
        self.skip_ws();
        let ghost p0 = self.pos as int;
        let ghost l0 = self.line as int;
        loop
            invariant_except_break
                block_loop(s, p0, l0, x0, mod_common_stepper(s)) == block_loop(s, self.pos as int,
                    self.line as int, x@, mod_common_stepper(s)),
            invariant
                self.wf(),
                self.chars@ == s,
                s == old(self).chars@,
                old(self).pos <= p0 <= self.pos,
                old(self).line <= l0 <= self.line,
                (p0, l0) == skip_ws_spec(s, pe, le),
                mod_common_spec(s, old(self).pos as int, old(self).line as int) == block_rest(s, pe, le, x0,
                    mod_common_stepper(s), "MOD_COMMON"@),
            ensures
                block_loop(s, p0, l0, x0, mod_common_stepper(s)) == Ok::<(ModCommonModel, int, int), A2lFailure>(
                    (x@, self.pos as int, self.line as int)),
            decreases s.len() - self.pos,
        {
            if self.here_kw("/end") {
                break;
            }
            let go = self.mod_common_step(&mut x)?;
            if !go {
                break;
            }
        }
        self.close("MOD_COMMON")?;
        Ok(x)
    }

    /// A `MEMORY_SEGMENT` block after its keyword.
    fn memory_segment(&mut self) -> (r: Result<A2lMemorySegment, BusmasterError>)
        requires
            old(self).wf(),
        ensures
            final(self).moved_from(old(self)),
            outcome(r, memory_segment_spec(old(self).text(), old(self).at(), old(self).line_no()), final(self).pos,
                final(self).line),
    {
        let name = self.ident()?;
        let long_identifier = self.string()?;
        let prg_type = self.ident()?;
        let memory_type = self.ident()?;
        let attribute = self.ident()?;
        let address = self.address()?;
        let size = self.address()?;
        self.skip_ws();
        self.to_end();
        self.close("MEMORY_SEGMENT")?;
        let r = A2lMemorySegment {
            name,
            long_identifier,
            prg_type,
            memory_type,
            attribute,
            address,
            size,
            offsets: Vec::new(),
        };
        proof {
            assert(r@.offsets =~= Seq::empty());
        }
        Ok(r)
    }

    /// One entry of a block (see `mod_par_step`).
    fn mod_par_step(&mut self, x: &mut A2lModPar) -> (r: Result<bool, BusmasterError>)
        requires
            old(self).wf(),
        ensures
            final(self).moved_from(old(self)),
            match mod_par_step(old(self).text(), old(self).at(), old(self).line_no(), old(x)@) {
                Ok((go, b, p, l)) => r == Ok::<bool, BusmasterError>(go) && final(x)@ == b
                    && final(self).at() == p && final(self).line_no() == l,
                Err(f) => r matches Err(e) && failure_is(e, f),
            },
            r == Ok::<bool, BusmasterError>(true) ==> final(self).at() > old(self).at(),
    {
        reveal(mod_par_step);
        self.skip_ws();
        if self.here_kw("CPU_TYPE") {
            self.pass_kw("CPU_TYPE");
            x.cpu_type = Some(self.string()?);
        } else if self.here_kw("CUSTOMER") {
            self.pass_kw("CUSTOMER");
            x.customer = Some(self.string()?);
        } else if self.here_kw("VERSION") {
            self.pass_kw("VERSION");
            x.version = Some(self.string()?);
        } else if self.here_kw("EPK") {
            self.pass_kw("EPK");
            x.epk = Some(self.string()?);
        } else if self.here_kw("/begin") {
            self.pass_kw("/begin");
            self.skip_ws();
            if self.here_kw("MEMORY_SEGMENT") {
                self.pass_kw("MEMORY_SEGMENT");
                let g = self.memory_segment()?;
                let ghost before = x.memory_segments@;
                x.memory_segments.push(g);
                proof {
                    assert(x.memory_segments@.map_values(|m: A2lMemorySegment| m@) =~= before.map_values(
                        |m: A2lMemorySegment| m@,
                    ).push(g@));
                }
            } else {
                self.skip_block();
            }
        } else if self.at_end() || self.here_kw("/end") {
            return Ok(false);
        } else {
            self.pos += 1;
        }
        Ok(true)
    }

    /// A `MOD_PAR` block after its keyword.
    fn mod_par(&mut self) -> (r: Result<A2lModPar, BusmasterError>)
        requires
            old(self).wf(),
        ensures
            final(self).moved_from(old(self)),
            outcome(r, mod_par_spec(old(self).text(), old(self).at(), old(self).line_no()), final(self).pos,
                final(self).line),
    {
        let ghost s = self.chars@;
        let comment = self.string()?;
        let mut x = A2lModPar::commented(comment);
        let ghost pe = self.pos as int;
        let ghost le = self.line as int;
        let ghost x0 = x@;
        assert(mod_par_spec(s, old(self).pos as int, old(self).line as int) == block_rest(s, pe, le, x0,
            mod_par_stepper(s), "MOD_PAR"@));
        self.skip_ws();
        let ghost p0 = self.pos as int;
        let ghost l0 = self.line as int;
        loop
            invariant_except_break
                block_loop(s, p0, l0, x0, mod_par_stepper(s)) == block_loop(s, self.pos as int,
                    self.line as int, x@, mod_par_stepper(s)),
            invariant
                self.wf(),
                self.chars@ == s,
                s == old(self).chars@,
                old(self).pos <= p0 <= self.pos,
                old(self).line <= l0 <= self.line,
                (p0, l0) == skip_ws_spec(s, pe, le),
                mod_par_spec(s, old(self).pos as int, old(self).line as int) == block_rest(s, pe, le, x0,
                    mod_par_stepper(s), "MOD_PAR"@),
            ensures
                block_loop(s, p0, l0, x0, mod_par_stepper(s)) == Ok::<(ModParModel, int, int), A2lFailure>(
                    (x@, self.pos as int, self.line as int)),
            decreases s.len() - self.pos,
        {
            if self.here_kw("/end") {
                break;
            }
            let go = self.mod_par_step(&mut x)?;
            if !go {
                break;
            }
        }
        self.close("MOD_PAR")?;
        Ok(x)
    }

    /// One entry of a block (see `header_step`).
    fn header_step(&mut self, x: &mut A2lHeader) -> (r: Result<bool, BusmasterError>)
        requires
            old(self).wf(),
        ensures
            final(self).moved_from(old(self)),
            match header_step(old(self).text(), old(self).at(), old(self).line_no(), old(x)@) {
                Ok((go, b, p, l)) => r == Ok::<bool, BusmasterError>(go) && final(x)@ == b
                    && final(self).at() == p && final(self).line_no() == l,
                Err(f) => r matches Err(e) && failure_is(e, f),
            },
            r == Ok::<bool, BusmasterError>(true) ==> final(self).at() > old(self).at(),
    {
        reveal(header_step);
        self.skip_ws();
        if self.here_kw("/end") || self.at_end() {
            return Ok(false);
        } else if self.here_kw("PROJECT_NO") {
            self.pass_kw("PROJECT_NO");
            x.project_no = Some(self.ident()?);
        } else if self.here_kw("VERSION") {
            self.pass_kw("VERSION");
            x.version = Some(self.string()?);
        } else {
            self.pos += 1;
        }
        Ok(true)
    }

    /// A `HEADER` block after its keyword.
    fn header(&mut self) -> (r: Result<A2lHeader, BusmasterError>)
        requires
            old(self).wf(),
        ensures
            final(self).moved_from(old(self)),
            outcome(r, header_spec(old(self).text(), old(self).at(), old(self).line_no()), final(self).pos,
                final(self).line),
    {
        let ghost s = self.chars@;
        let comment = self.string()?;
        let mut x = A2lHeader { comment, project_no: None, version: None };
        let ghost pe = self.pos as int;
        let ghost le = self.line as int;
        let ghost x0 = x@;
        assert(header_spec(s, old(self).pos as int, old(self).line as int) == block_rest(s, pe, le, x0,
            header_stepper(s), "HEADER"@));
        self.skip_ws();
        let ghost p0 = self.pos as int;
        let ghost l0 = self.line as int;
        loop
            invariant_except_break
                block_loop(s, p0, l0, x0, header_stepper(s)) == block_loop(s, self.pos as int,
                    self.line as int, x@, header_stepper(s)),
            invariant
                self.wf(),
                self.chars@ == s,
                s == old(self).chars@,
                old(self).pos <= p0 <= self.pos,
                old(self).line <= l0 <= self.line,
                (p0, l0) == skip_ws_spec(s, pe, le),
                header_spec(s, old(self).pos as int, old(self).line as int) == block_rest(s, pe, le, x0,
                    header_stepper(s), "HEADER"@),
            ensures
                block_loop(s, p0, l0, x0, header_stepper(s)) == Ok::<(HeaderModel, int, int), A2lFailure>(
                    (x@, self.pos as int, self.line as int)),
            decreases s.len() - self.pos,
        {
            if self.here_kw("/end") {
                break;
            }
            let go = self.header_step(&mut x)?;
            if !go {
                break;
            }
        }
        self.close("HEADER")?;
        Ok(x)
    }


    /// A block of a module after `/begin`, at its keyword.
    #[verifier::spinoff_prover]
    fn module_block(&mut self, x: &mut A2lModule) -> (r: Result<bool, BusmasterError>)
        requires
            old(self).wf(),
        ensures
            final(self).moved_from(old(self)),
            match module_block(old(self).text(), old(self).at(), old(self).line_no(), old(x)@) {
                Ok((go, b, p, l)) => r == Ok::<bool, BusmasterError>(go) && final(x)@ == b
                    && final(self).at() == p && final(self).line_no() == l,
                Err(f) => r matches Err(e) && failure_is(e, f),
            },
            r matches Ok(go) ==> go,
    {
        reveal(module_block);
        if self.here_kw("MOD_COMMON") {
            self.pass_kw("MOD_COMMON");
            x.mod_common = Some(self.mod_common()?);
        } else if self.here_kw("MOD_PAR") {
            self.pass_kw("MOD_PAR");
            x.mod_par = Some(self.mod_par()?);
        } else if self.here_kw("MEASUREMENT") {
            self.pass_kw("MEASUREMENT");
            let b = self.measurement()?;
            let ghost before = x.measurements@;
            x.measurements.push(b);
            proof {
                assert(x.measurements@.map_values(|v: A2lMeasurement| v@) =~= before.map_values(|v: A2lMeasurement| v@).push(b@));
            }
        } else if self.here_kw("CHARACTERISTIC") {
            self.pass_kw("CHARACTERISTIC");
            let b = self.characteristic()?;
            let ghost before = x.characteristics@;
            x.characteristics.push(b);
            proof {
                assert(x.characteristics@.map_values(|v: A2lCharacteristic| v@) =~= before.map_values(|v: A2lCharacteristic| v@).push(b@));
            }
        } else if self.here_kw("COMPU_METHOD") {
            self.pass_kw("COMPU_METHOD");
            let b = self.compu_method()?;
            let ghost before = x.compu_methods@;
            x.compu_methods.push(b);
            proof {
                assert(x.compu_methods@.map_values(|v: A2lCompuMethod| v@) =~= before.map_values(|v: A2lCompuMethod| v@).push(b@));
            }
        } else if self.here_kw("COMPU_TAB") {
            self.pass_kw("COMPU_TAB");
            let b = self.compu_tab()?;
            let ghost before = x.compu_tabs@;
            x.compu_tabs.push(b);
            proof {
                assert(x.compu_tabs@.map_values(|v: A2lCompuTab| v@) =~= before.map_values(|v: A2lCompuTab| v@).push(b@));
            }
        } else if self.here_kw("COMPU_VTAB") {
            self.pass_kw("COMPU_VTAB");
            let b = self.compu_vtab()?;
            let ghost before = x.compu_vtabs@;
            x.compu_vtabs.push(b);
            proof {
                assert(x.compu_vtabs@.map_values(|v: A2lCompuVtab| v@) =~= before.map_values(|v: A2lCompuVtab| v@).push(b@));
            }
        } else {
            return self.module_block_more(x);
        }
        Ok(true)
    }

    /// A block of a module after `/begin`, at its keyword (layouts, axis
    /// points, functions, groups, units, interface data and others).
    #[verifier::spinoff_prover]
    fn module_block_more(&mut self, x: &mut A2lModule) -> (r: Result<bool, BusmasterError>)
        requires
            old(self).wf(),
        ensures
            final(self).moved_from(old(self)),
            match module_block_more(old(self).text(), old(self).at(), old(self).line_no(), old(x)@) {
                Ok((go, b, p, l)) => r == Ok::<bool, BusmasterError>(go) && final(x)@ == b
                    && final(self).at() == p && final(self).line_no() == l,
                Err(f) => r matches Err(e) && failure_is(e, f),
            },
            r matches Ok(go) ==> go,
    {
        reveal(module_block_more);
        if self.here_kw("RECORD_LAYOUT") {
            self.pass_kw("RECORD_LAYOUT");
            let b = self.record_layout()?;
            let ghost before = x.record_layouts@;
            x.record_layouts.push(b);
            proof {
                assert(x.record_layouts@.map_values(|v: A2lRecordLayout| v@) =~= before.map_values(|v: A2lRecordLayout| v@).push(b@));
            }
        } else if self.here_kw("AXIS_PTS") {
            self.pass_kw("AXIS_PTS");
            let b = self.axis_pts()?;
            let ghost before = x.axis_pts@;
            x.axis_pts.push(b);
            proof {
                assert(x.axis_pts@.map_values(|v: A2lAxisPts| v@) =~= before.map_values(|v: A2lAxisPts| v@).push(b@));
            }
        } else if self.here_kw("FUNCTION") {
            self.pass_kw("FUNCTION");
            let b = self.function()?;
            let ghost before = x.functions@;
            x.functions.push(b);
            proof {
                assert(x.functions@.map_values(|v: A2lFunction| v@) =~= before.map_values(|v: A2lFunction| v@).push(b@));
            }
        } else if self.here_kw("GROUP") {
            self.pass_kw("GROUP");
            let b = self.group()?;
            let ghost before = x.groups@;
            x.groups.push(b);
            proof {
                assert(x.groups@.map_values(|v: A2lGroup| v@) =~= before.map_values(|v: A2lGroup| v@).push(b@));
            }
        } else if self.here_kw("UNIT") {
            self.pass_kw("UNIT");
            let b = self.unit()?;
            let ghost before = x.units@;
            x.units.push(b);
            proof {
                assert(x.units@.map_values(|v: A2lUnit| v@) =~= before.map_values(|v: A2lUnit| v@).push(b@));
            }
        } else if self.here_kw("IF_DATA") {
            self.pass_kw("IF_DATA");
            let b = self.if_data()?;
            let ghost before = x.if_data@;
            x.if_data.push(b);
            proof {
                assert(x.if_data@.map_values(|v: A2lIfData| v@) =~= before.map_values(|v: A2lIfData| v@).push(b@));
            }
        } else if self.here_kw("A2ML") {
            self.pass_kw("A2ML");
            self.skip_block();
        } else {
            self.skip_block();
        }
        Ok(true)
    }

    /// One entry of a `MODULE` block.
    fn module_step(&mut self, x: &mut A2lModule) -> (r: Result<bool, BusmasterError>)
        requires
            old(self).wf(),
        ensures
            final(self).moved_from(old(self)),
            match module_step(old(self).text(), old(self).at(), old(self).line_no(), old(x)@) {
                Ok((go, b, p, l)) => r == Ok::<bool, BusmasterError>(go) && final(x)@ == b
                    && final(self).at() == p && final(self).line_no() == l,
                Err(f) => r matches Err(e) && failure_is(e, f),
            },
            r == Ok::<bool, BusmasterError>(true) ==> final(self).at() > old(self).at(),
    {
        self.skip_ws();
        if self.here_kw("/end") || self.at_end() {
            Ok(false)
        } else if self.here_kw("/begin") {
            self.pass_kw("/begin");
            self.skip_ws();
            self.module_block(x)
        } else {
            self.pos += 1;
            Ok(true)
        }
    }

    /// A `MODULE` block after its keyword.
    fn module(&mut self) -> (r: Result<A2lModule, BusmasterError>)
        requires
            old(self).wf(),
        ensures
            final(self).moved_from(old(self)),
            outcome(r, module_spec(old(self).text(), old(self).at(), old(self).line_no()), final(self).pos,
                final(self).line),
    {
        let ghost s = self.chars@;
        let name = self.ident()?;
        let long = self.string()?;
        let mut x = A2lModule::named(name, long);
        let ghost pe = self.pos as int;
        let ghost le = self.line as int;
        let ghost x0 = x@;
        assert(module_spec(s, old(self).pos as int, old(self).line as int) == block_rest(s, pe, le, x0,
            module_stepper(s), "MODULE"@));
        self.skip_ws();
        let ghost p0 = self.pos as int;
        let ghost l0 = self.line as int;
        loop
            invariant_except_break
                block_loop(s, p0, l0, x0, module_stepper(s)) == block_loop(s, self.pos as int,
                    self.line as int, x@, module_stepper(s)),
            invariant
                self.wf(),
                self.chars@ == s,
                s == old(self).chars@,
                old(self).pos <= p0 <= self.pos,
                old(self).line <= l0 <= self.line,
                (p0, l0) == skip_ws_spec(s, pe, le),
                module_spec(s, old(self).pos as int, old(self).line as int) == block_rest(s, pe, le, x0,
                    module_stepper(s), "MODULE"@),
            ensures
                block_loop(s, p0, l0, x0, module_stepper(s)) == Ok::<(ModuleModel, int, int), A2lFailure>(
                    (x@, self.pos as int, self.line as int)),
            decreases s.len() - self.pos,
        {
            if self.here_kw("/end") {
                break;
            }
            let go = self.module_step(&mut x)?;
            if !go {
                break;
            }
        }
        self.close("MODULE")?;
        Ok(x)
    }

    /// One entry of a block (see `project_step`).
    fn project_step(&mut self, x: &mut A2lProject) -> (r: Result<bool, BusmasterError>)
        requires
            old(self).wf(),
        ensures
            final(self).moved_from(old(self)),
            match project_step(old(self).text(), old(self).at(), old(self).line_no(), old(x)@) {
                Ok((go, b, p, l)) => r == Ok::<bool, BusmasterError>(go) && final(x)@ == b
                    && final(self).at() == p && final(self).line_no() == l,
                Err(f) => r matches Err(e) && failure_is(e, f),
            },
            r == Ok::<bool, BusmasterError>(true) ==> final(self).at() > old(self).at(),
    {
        reveal(project_step);
        self.skip_ws();
        if self.here_kw("/end") || self.at_end() {
            return Ok(false);
        } else if self.here_kw("/begin") {
            self.pass_kw("/begin");
            self.skip_ws();
            if self.here_kw("HEADER") {
                self.pass_kw("HEADER");
                x.header = Some(self.header()?);
            } else if self.here_kw("MODULE") {
                self.pass_kw("MODULE");
                let b = self.module()?;
                let ghost before = x.modules@;
                x.modules.push(b);
                proof {
                    assert(x.modules@.map_values(|v: A2lModule| v@) =~= before.map_values(|v: A2lModule| v@).push(b@));
                }
            } else {
                self.skip_block();
            }
        } else {
            self.pos += 1;
        }
        Ok(true)
    }

    /// A `PROJECT` block after its keyword.
    fn project(&mut self) -> (r: Result<A2lProject, BusmasterError>)
        requires
            old(self).wf(),
        ensures
            final(self).moved_from(old(self)),
            outcome(r, project_spec(old(self).text(), old(self).at(), old(self).line_no()), final(self).pos,
                final(self).line),
    {
        let ghost s = self.chars@;
        let name = self.ident()?;
        let long_identifier = self.string()?;
        let mut x = A2lProject { name, long_identifier, header: None, modules: Vec::new() };
        proof {
            assert(x@.modules =~= Seq::empty());
        }
        let ghost pe = self.pos as int;
        let ghost le = self.line as int;
        let ghost x0 = x@;
        assert(project_spec(s, old(self).pos as int, old(self).line as int) == block_rest(s, pe, le, x0,
            project_stepper(s), "PROJECT"@));
        self.skip_ws();
        let ghost p0 = self.pos as int;
        let ghost l0 = self.line as int;
        loop
            invariant_except_break
                block_loop(s, p0, l0, x0, project_stepper(s)) == block_loop(s, self.pos as int,
                    self.line as int, x@, project_stepper(s)),
            invariant
                self.wf(),
                self.chars@ == s,
                s == old(self).chars@,
                old(self).pos <= p0 <= self.pos,
                old(self).line <= l0 <= self.line,
                (p0, l0) == skip_ws_spec(s, pe, le),
                project_spec(s, old(self).pos as int, old(self).line as int) == block_rest(s, pe, le, x0,
                    project_stepper(s), "PROJECT"@),
            ensures
                block_loop(s, p0, l0, x0, project_stepper(s)) == Ok::<(ProjectModel, int, int), A2lFailure>(
                    (x@, self.pos as int, self.line as int)),
            decreases s.len() - self.pos,
        {
            if self.here_kw("/end") {
                break;
            }
            let go = self.project_step(&mut x)?;
            if !go {
                break;
            }
        }
        self.close("PROJECT")?;
        Ok(x)
    }

    /// A version: two decimal numbers.
    fn version(&mut self) -> (r: Result<Asap2Version, BusmasterError>)
        requires
            old(self).wf(),
        ensures
            final(self).moved_from(old(self)),
            outcome(r, version_spec(old(self).text(), old(self).at(), old(self).line_no()), final(self).pos,
                final(self).line),
    {
        let major = self.uint(0xFFFF)?;
        let minor = self.uint(0xFFFF)?;
        Ok(Asap2Version { major: major as u16, minor: minor as u16 })
    }

    /// The version after `kw`, if `kw` stands here.
    fn optional_version(&mut self, kw: &str) -> (r: Result<Option<Asap2Version>, BusmasterError>)
        requires
            old(self).wf(),
        ensures
            final(self).moved_from(old(self)),
            outcome(r, optional_version(old(self).text(), old(self).at(), old(self).line_no(), kw@),
                final(self).pos, final(self).line),
    {
        if self.here_kw(kw) {
            self.pass_kw(kw);
            let v = self.version()?;
            self.skip_ws();
            Ok(Some(v))
        } else {
            Ok(None)
        }
    }

}

/// Whether the text of `t` is `lit`.
fn same_text(t: &String, lit: &str) -> (r: bool)
    ensures
        r == (t@ == lit@),
{
    let a = chars_of(t.as_str());
    let b = chars_of(lit);
    crate::text::chars_eq(a.as_slice(), b.as_slice())
}

/// The byte order that a `BYTE_ORDER` value names.
fn byte_order_from(o: &String) -> (r: A2lByteOrder)
    ensures
        r == byte_order_of(o@),
{
    if same_text(o, "MSB_FIRST") {
        A2lByteOrder::BigEndian
    } else {
        A2lByteOrder::LittleEndian
    }
}

/// The data type that a name gives; `UBYTE` for an unknown name.
fn data_type_from(t: &String) -> (r: A2lDataType)
    ensures
        r == data_type_or_default(t@),
{
    match A2lDataType::from_str(t.as_str()) {
        Some(d) => d,
        None => A2lDataType::UByte,
    }
}

/// The axis type that a name gives; a standard axis for an unknown name.
fn axis_type_from(t: &String) -> (r: AxisType)
    ensures
        r == axis_type_or_default(t@),
{
    match AxisType::from_str(t.as_str()) {
        Some(a) => a,
        None => AxisType::StdAxis,
    }
}

/// The characteristic type that a name gives; a single value for an
/// unknown name.
fn characteristic_type_from(t: &String) -> (r: CharacteristicType)
    ensures
        r == characteristic_type_or_default(t@),
{
    match CharacteristicType::from_str(t.as_str()) {
        Some(c) => c,
        None => CharacteristicType::Value,
    }
}

/// The conversion type that a name gives; identical for an unknown name.
fn conversion_from(t: &String) -> (r: CompuMethodType)
    ensures
        r == conversion_or_default(t@),
{
    match CompuMethodType::from_str(t.as_str()) {
        Some(c) => c,
        None => CompuMethodType::Identical,
    }
}

/// Where the raw text of a block that starts at `p` ends.
fn raw_block_end_exec(s: &[char], p: usize) -> (r: usize)
    requires
        p <= s.len() < usize::MAX,
    ensures
        r as int == raw_block_end(s@, p as int, 1),
        p <= r <= s.len(),
{
    let mut i = p;
    let mut depth: usize = 1;
    while i < s.len()
        invariant
            p <= i <= s.len() < usize::MAX,
            1 <= depth <= i + 1,
            raw_block_end(s@, p as int, 1) == raw_block_end(s@, i as int, depth as nat),
        decreases s.len() - i,
    {
        if let Some(e) = kw_end(s, i, "/begin") {
            i = e;
            depth += 1;
        } else if let Some(e) = kw_end(s, i, "/end") {
            if depth == 1 {
                return i;
            }
            depth -= 1;
            i = e;
        } else {
            i += 1;
        }
    }
    i
}

/// The end of a `//` comment whose text starts at `p`.
fn line_comment_exec(s: &[char], p: usize, l: usize) -> (r: (usize, usize))
    requires
        p <= s.len() < usize::MAX,
        1 <= l <= p,
    ensures
        (r.0 as int, r.1 as int) == line_comment_end(s@, p as int, l as int),
        p <= r.0 <= s.len(),
        l <= r.1 <= r.0,
{
    let mut i = p;
    while i < s.len()
        invariant
            p <= i <= s.len() < usize::MAX,
            1 <= l <= p,
            line_comment_end(s@, p as int, l as int) == line_comment_end(s@, i as int, l as int),
        decreases s.len() - i,
    {
        if s[i] == '\n' {
            return (i + 1, l + 1);
        }
        i += 1;
    }
    (i, l)
}

/// The end of a `/*` comment whose text starts at `p`.
fn block_comment_exec(s: &[char], p: usize, l: usize) -> (r: (usize, usize))
    requires
        p <= s.len() < usize::MAX,
        1 <= l <= p,
    ensures
        (r.0 as int, r.1 as int) == block_comment_end(s@, p as int, l as int),
        p <= r.0 <= s.len(),
        l <= r.1 <= r.0,
{
    let mut i = p;
    let mut m = l;
    while i < s.len()
        invariant
            p <= i <= s.len() < usize::MAX,
            l <= m <= i,
            block_comment_end(s@, p as int, l as int) == block_comment_end(s@, i as int, m as int),
        decreases s.len() - i,
    {
        if let Some(e) = lit_end(s, i, "*/") {
            proof {
                reveal_strlit("*/");
            }
            return (e, m);
        }
        if s[i] == '\n' {
            m += 1;
        }
        i += 1;
    }
    (i, m)
}


/// A2L file parser.
pub struct A2lParser;

impl A2lParser {
    /// Parse an A2L file from a string: the database it describes, or the
    /// first failure with its line (see `a2l_spec`). The text must hold
    /// fewer than `usize::MAX` characters, which every text in memory does.
    pub fn parse(input: &str) -> (r: Result<A2lDatabase, BusmasterError>)
        requires
            input@.len() < usize::MAX,
        ensures
            match a2l_spec(input@) {
                Ok(m) => r matches Ok(db) && db@ == m,
                Err(f) => r matches Err(e) && failure_is(e, f),
            },
    {
        let chars = chars_of(input);
        let mut cur = A2lCursor { chars, pos: 0, line: 1 };
        cur.skip_ws();
        let asap2 = cur.optional_version("ASAP2_VERSION")?;
        let a2ml_version = cur.optional_version("A2ML_VERSION")?;
        let asap2_version = match asap2 {
            Some(v) => v,
            None => Asap2Version { major: 0, minor: 0 },
        };
        if cur.here_kw("/begin") {
            cur.pass_kw("/begin");
            cur.expect("PROJECT")?;
            let project = cur.project()?;
            Ok(A2lDatabase { asap2_version, a2ml_version, project })
        } else {
            let empty = A2lDatabase::new();
            Ok(A2lDatabase { asap2_version, a2ml_version, project: empty.project })
        }
    }
}

} // verus!
