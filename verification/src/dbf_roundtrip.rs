//! Writing a DBF database and reading the text back gives the database
//! again, for databases the format can carry: the lemmas here follow the
//! reader over each kind of line the writer produces.
use vstd::prelude::*;
use crate::arxml_parser::at;
use crate::number::{digit_value, parse_i64_spec, parse_signed_spec, parse_unsigned_spec, scan_digits, IntErrorKind};
use crate::scan::{in_class, scan_spec, CharClass};
use crate::dbf::{
    blank_end, line_text, table_entry_lines, table_lines, table_step, table_text, tables_block, tables_step,
    tables_text, DbfValueTableModel, close_message, message_text, messages_text, with_signal, signals_text, DbfDatabaseModel, byte_order_char, byte_order_of, descriptor_text, first_or, parse_signal_spec, signal_text,
    signal_layout_text, signal_limits_text, signal_scaling_text, signal_type_char, signal_type_of, value_description_lines, DbfSignalModel, frame_format_char, frame_format_of, uint_field, message_line, parse_message_spec, transmitter_text,
    written_id, DbfFrameFormat, DbfMessageModel, i64_text, join_spec, nonempty_trimmed, parse_value_descriptor_spec,
    DbfValueDescriptorModel, main_step, next_line, read_tag_spec, run, tag_step, tag_value, DbfFailure,
    DbfParseState,
};
use crate::text::{dec_digits, digit_char, is_ws, split_spec, trim_end_spec, trim_spec, trim_start_spec};

verus! {

// ---------------------------------------------------------------------------
// Texts in a text
// ---------------------------------------------------------------------------

/// A character of a text found at `p`.
pub proof fn lemma_at_index(s: Seq<char>, p: int, l: Seq<char>, i: int)
    requires
        at(s, p, l),
        0 <= i < l.len(),
    ensures
        s[p + i] == l[i],
{
    assert(s.subrange(p, p + l.len())[i] == s[p + i]);
}

/// A text found at `p` made of two parts: each part is found in its place.
pub proof fn lemma_at_split(s: Seq<char>, p: int, x: Seq<char>, y: Seq<char>)
    requires
        at(s, p, x + y),
    ensures
        at(s, p, x),
        at(s, p + x.len(), y),
{
    assert(s.subrange(p, p + x.len()) =~= x) by {
        assert forall|i: int| 0 <= i < x.len() implies s.subrange(p, p + x.len())[i] == x[i] by {
            lemma_at_index(s, p, x + y, i);
        }
    }
    assert(s.subrange(p + x.len(), p + x.len() + y.len()) =~= y) by {
        assert forall|i: int| 0 <= i < y.len() implies s.subrange(p + x.len(), p + x.len() + y.len())[i]
            == y[i] by {
            lemma_at_index(s, p, x + y, x.len() + i);
        }
    }
}

/// A scan over `k` characters of the class, stopped by one outside it or
/// by the end.
pub proof fn lemma_scan_run(s: Seq<char>, p: int, k: int, cls: CharClass)
    requires
        0 <= p,
        0 <= k,
        p + k <= s.len(),
        forall|i: int| p <= i < p + k ==> in_class(cls, #[trigger] s[i]),
        p + k == s.len() || !in_class(cls, s[p + k]),
    ensures
        scan_spec(s, p, cls) == p + k,
    decreases k,
{
    if k > 0 {
        lemma_scan_run(s, p + 1, k - 1, cls);
    }
}

// ---------------------------------------------------------------------------
// Numbers and fields
// ---------------------------------------------------------------------------

/// The decimal digits of `n` are ASCII digits and read back as `n`.
pub proof fn lemma_dec_digits(n: nat, max: nat)
    requires
        n <= max,
    ensures
        dec_digits(n).len() >= 1,
        forall|i: int| 0 <= i < dec_digits(n).len() ==> '0' <= #[trigger] dec_digits(n)[i] && dec_digits(n)[i] <= '9',
        scan_digits(dec_digits(n), 10, max) == Ok::<nat, IntErrorKind>(n),
    decreases n,
{
    let d = dec_digits(n);
    if n < 10 {
        assert(d.drop_last() =~= Seq::<char>::empty());
        assert(d.last() == digit_char(n as int));
        assert(scan_digits(Seq::<char>::empty(), 10, max) == Ok::<nat, IntErrorKind>(0));
        assert(digit_value(digit_char(n as int), 10) == Some(n));
    } else {
        lemma_dec_digits(n / 10, max);
        assert(d.drop_last() =~= dec_digits(n / 10));
        assert(d.last() == digit_char((n % 10) as int));
        assert(digit_value(digit_char((n % 10) as int), 10) == Some(n % 10));
        assert((n / 10) * 10 + n % 10 == n) by (nonlinear_arith);
        assert(scan_digits(d.drop_last(), 10, max) == Ok::<nat, IntErrorKind>(n / 10));
    }
}

/// A text with no whitespace at either end is its own trim.
pub proof fn lemma_trim_id(s: Seq<char>)
    requires
        s.len() > 0 ==> !is_ws(s[0]) && !is_ws(s.last()),
    ensures
        trim_spec(s) == s,
{
    assert(trim_start_spec(s) == s);
}

/// The decimal digits of `n`, as a field, read back as `n`.
pub proof fn lemma_dec_field(n: nat, max: nat)
    requires
        n <= max,
    ensures
        trim_spec(dec_digits(n)) == dec_digits(n),
        parse_unsigned_spec(dec_digits(n), 10, max) == Ok::<nat, IntErrorKind>(n),
        forall|i: int| 0 <= i < dec_digits(n).len() ==> #[trigger] dec_digits(n)[i] != ',' && dec_digits(n)[i] != '\n'
            && dec_digits(n)[i] != '"' && !is_ws(dec_digits(n)[i]),
{
    lemma_dec_digits(n, max);
    let d = dec_digits(n);
    assert(!is_ws(d[0]) && !is_ws(d.last()));
    lemma_trim_id(d);
}

/// A text without the separator splits into itself alone.
pub proof fn lemma_split_whole(l: Seq<char>, sep: char)
    requires
        forall|i: int| 0 <= i < l.len() ==> #[trigger] l[i] != sep,
    ensures
        split_spec(l, sep) == seq![l],
    decreases l.len(),
{
    if l.len() > 0 {
        lemma_split_whole(l.drop_last(), sep);
        assert(l.drop_last().push(l.last()) =~= l);
        assert(seq![l.drop_last()].last() == l.drop_last());
        assert(seq![l.drop_last()].update(0, l) =~= seq![l]);
    } else {
        assert(l =~= Seq::<char>::empty());
    }
}

/// Splitting `x`, the separator and a piece without it gives the pieces of
/// `x` and then that piece.
pub proof fn lemma_split_append(x: Seq<char>, sep: char, l: Seq<char>)
    requires
        forall|i: int| 0 <= i < l.len() ==> #[trigger] l[i] != sep,
    ensures
        split_spec(x.push(sep) + l, sep) == split_spec(x, sep).push(l),
    decreases l.len(),
{
    if l.len() == 0 {
        assert(x.push(sep) + l =~= x.push(sep));
        assert(x.push(sep).drop_last() =~= x);
        assert(l =~= Seq::<char>::empty());
    } else {
        let l0 = l.drop_last();
        lemma_split_append(x, sep, l0);
        let t = x.push(sep) + l;
        assert(t.drop_last() =~= x.push(sep) + l0);
        assert(t.last() == l.last());
        crate::text::lemma_split_nonempty(x, sep);
        assert(l0.push(l.last()) =~= l);
        let r = split_spec(x, sep).push(l0);
        assert(r.last() == l0);
        assert(r.update(r.len() - 1, l) =~= split_spec(x, sep).push(l));
    }
}

/// Pieces without commas, joined with commas, split back into the pieces.
pub proof fn lemma_split_join(v: Seq<Seq<char>>)
    requires
        v.len() >= 1,
        forall|k: int, i: int| 0 <= k < v.len() && 0 <= i < v[k].len() ==> #[trigger] v[k][i] != ',',
    ensures
        split_spec(join_spec(v, ","@), ',') == v,
    decreases v.len(),
{
    reveal_strlit(",");
    if v.len() == 1 {
        assert forall|i: int| 0 <= i < v[0].len() implies #[trigger] v[0][i] != ',' by {}
        lemma_split_whole(v[0], ',');
        assert(seq![v[0]] =~= v);
    } else {
        let w = v.drop_last();
        assert forall|k: int, i: int| 0 <= k < w.len() && 0 <= i < w[k].len() implies #[trigger] w[k][i] != ',' by {
            assert(w[k] == v[k]);
        }
        lemma_split_join(w);
        assert(join_spec(v, ","@) == join_spec(w, ","@) + ","@ + v.last());
        assert(join_spec(w, ","@) + ","@ + v.last() =~= join_spec(w, ","@).push(',') + v.last());
        assert forall|i: int| 0 <= i < v.last().len() implies #[trigger] v.last()[i] != ',' by {
            assert(v.last() == v[v.len() - 1]);
        }
        lemma_split_append(join_spec(w, ","@), ',', v.last());
        assert(w.push(v.last()) =~= v);
    }
}

/// The decimal text of a signed integer reads back as the integer.
pub proof fn lemma_i64_text(v: i64)
    ensures
        parse_i64_spec(i64_text(v)) == Ok::<int, IntErrorKind>(v as int),
        i64_text(v).len() >= 1,
        !is_ws(i64_text(v)[0]),
        !is_ws(i64_text(v).last()),
        forall|i: int| 0 <= i < i64_text(v).len() ==> #[trigger] i64_text(v)[i] != '"' && i64_text(v)[i] != '\n',
{
    reveal_strlit("-");
    if v < 0 {
        let m = (-v) as nat;
        lemma_dec_digits(m, 0x8000_0000_0000_0000);
        let s = i64_text(v);
        assert(s.drop_first() =~= dec_digits(m));
        assert(s[0] == '-');
        assert(s.last() == dec_digits(m).last());
    } else {
        lemma_dec_digits(v as nat, 0x7FFF_FFFF_FFFF_FFFF);
    }
}

// ---------------------------------------------------------------------------
// Lines
// ---------------------------------------------------------------------------

/// A space, tab or carriage return.
pub open spec fn is_blank(c: char) -> bool {
    c == ' ' || c == '\t' || c == '\r'
}

/// A tag line `[tag] value`: the reader finds the tag, and its value is the
/// trimmed rest of the line; the step at the line is the tag's step.
#[verifier::rlimit(40)]
pub proof fn lemma_tag_line(s: Seq<char>, p: int, tag: Seq<char>, value: Seq<char>, st: DbfParseState)
    requires
        at(s, p, "["@ + tag + "] "@ + value + "\n"@),
        forall|i: int| 0 <= i < tag.len() ==> #[trigger] tag[i] != ']',
        forall|i: int| 0 <= i < value.len() ==> #[trigger] value[i] != '\n',
        value.len() > 0 ==> !is_blank(value[0]),
    ensures
        read_tag_spec(s, p) == (p + tag.len() + 2, Some(tag)),
        tag_value(s, p + tag.len() + 2) == (p + tag.len() + 4 + value.len(), trim_spec(value)),
        main_step(s, p, st) == tag_step(s, p + tag.len() + 2, tag, st),
        ("["@ + tag + "] "@ + value + "\n"@).len() == tag.len() + 4 + value.len(),
        p + tag.len() + 4 + value.len() <= s.len(),
{
    reveal_strlit("[");
    reveal_strlit("] ");
    reveal_strlit("\n");
    reveal_strlit("//");
    let l = "["@ + tag + "] "@ + value + "\n"@;
    let n = tag.len() as int;
    assert(l.len() == n + value.len() + 4);
    assert(s[p] == '[') by {
        lemma_at_index(s, p, l, 0);
    }
    assert forall|i: int| 0 <= i < n implies #[trigger] s[p + 1 + i] == tag[i] by {
        lemma_at_index(s, p, l, 1 + i);
    }
    assert(s[p + 1 + n] == ']') by {
        lemma_at_index(s, p, l, 1 + n);
    }
    assert(s[p + 2 + n] == ' ') by {
        lemma_at_index(s, p, l, 2 + n);
    }
    assert forall|i: int| 0 <= i < value.len() implies #[trigger] s[p + 3 + n + i] == value[i] by {
        lemma_at_index(s, p, l, 3 + n + i);
    }
    assert(s[p + 3 + n + value.len()] == '\n') by {
        lemma_at_index(s, p, l, 3 + n + value.len());
    }
    lemma_scan_run(s, p, 0, CharClass::Blank);
    assert forall|i: int| p + 1 <= i < p + 1 + n implies in_class(CharClass::NotCloseBracket, #[trigger] s[i]) by {
        assert(s[p + 1 + (i - p - 1)] == tag[i - p - 1]);
    }
    lemma_scan_run(s, p + 1, n, CharClass::NotCloseBracket);
    assert(s.subrange(p + 1, p + 1 + n) =~= tag) by {
        assert forall|i: int| 0 <= i < n implies s.subrange(p + 1, p + 1 + n)[i] == tag[i] by {
            assert(s[p + 1 + i] == tag[i]);
        }
    }
    let q = p + 3 + n;
    assert(value.len() > 0 ==> s[q] == value[0]) by {
        if value.len() > 0 {
            assert(s[p + 3 + n + 0] == value[0]);
        }
    }
    assert forall|i: int| p + 2 + n <= i < p + 2 + n + 1 implies in_class(CharClass::Blank, #[trigger] s[i]) by {
        assert(i == p + 2 + n);
    }
    lemma_scan_run(s, p + 2 + n, 1, CharClass::Blank);
    assert forall|i: int| q <= i < q + value.len() implies in_class(CharClass::NotNewline, #[trigger] s[i]) by {
        assert(s[p + 3 + n + (i - q)] == value[i - q]);
    }
    lemma_scan_run(s, q, value.len() as int, CharClass::NotNewline);
    assert(s.subrange(q, q + value.len()) =~= value) by {
        assert forall|i: int| 0 <= i < value.len() implies s.subrange(q, q + value.len())[i] == value[i] by {
            assert(s[p + 3 + n + i] == value[i]);
        }
    }
    assert(crate::scan::tag_spec(s, p, "//"@) is None) by {
        if p + 2 <= s.len() && s.subrange(p, p + 2) == "//"@ {
            assert(s.subrange(p, p + 2)[0] == s[p]);
        }
    }
    reveal(main_step);
}

/// A bare tag line `[tag]`: the reader finds the tag, and the next line
/// starts right after the line feed.
pub proof fn lemma_bare_tag_line(s: Seq<char>, p: int, tag: Seq<char>, st: DbfParseState)
    requires
        at(s, p, "["@ + tag + "]\n"@),
        forall|i: int| 0 <= i < tag.len() ==> #[trigger] tag[i] != ']',
    ensures
        blank_end(s, p) == p,
        0 <= p < s.len() && s[p] == '[',
        read_tag_spec(s, p) == (p + tag.len() + 2, Some(tag)),
        next_line(s, p + tag.len() + 2) == p + tag.len() + 3,
        blank_end(s, p + tag.len() + 2) == p + tag.len() + 2,
        s[p + tag.len() + 2] == '\n',
        main_step(s, p, st) == tag_step(s, p + tag.len() + 2, tag, st),
        ("["@ + tag + "]\n"@).len() == tag.len() + 3,
        p + tag.len() + 3 <= s.len(),
{
    reveal_strlit("[");
    reveal_strlit("]\n");
    reveal_strlit("//");
    let l = "["@ + tag + "]\n"@;
    let n = tag.len() as int;
    assert(l.len() == n + 3);
    assert(s[p] == '[') by {
        lemma_at_index(s, p, l, 0);
    }
    assert forall|i: int| 0 <= i < n implies #[trigger] s[p + 1 + i] == tag[i] by {
        lemma_at_index(s, p, l, 1 + i);
    }
    assert(s[p + 1 + n] == ']') by {
        lemma_at_index(s, p, l, 1 + n);
    }
    assert(s[p + 2 + n] == '\n') by {
        lemma_at_index(s, p, l, 2 + n);
    }
    lemma_scan_run(s, p, 0, CharClass::Blank);
    assert forall|i: int| p + 1 <= i < p + 1 + n implies in_class(CharClass::NotCloseBracket, #[trigger] s[i]) by {
        assert(s[p + 1 + (i - p - 1)] == tag[i - p - 1]);
    }
    lemma_scan_run(s, p + 1, n, CharClass::NotCloseBracket);
    assert(s.subrange(p + 1, p + 1 + n) =~= tag) by {
        assert forall|i: int| 0 <= i < n implies s.subrange(p + 1, p + 1 + n)[i] == tag[i] by {
            assert(s[p + 1 + i] == tag[i]);
        }
    }
    lemma_scan_run(s, p + 2 + n, 0, CharClass::NotNewline);
    lemma_scan_run(s, p + 2 + n, 0, CharClass::Blank);
    assert(crate::scan::tag_spec(s, p, "//"@) is None) by {
        if p + 2 <= s.len() && s.subrange(p, p + 2) == "//"@ {
            assert(s.subrange(p, p + 2)[0] == s[p]);
        }
    }
    reveal(main_step);
}

/// An empty line: the reader steps over it.
pub proof fn lemma_empty_line(s: Seq<char>, p: int, st: DbfParseState)
    requires
        at(s, p, "\n"@),
    ensures
        main_step(s, p, st) == Ok::<(int, DbfParseState), DbfFailure>((p + 1, st)),
        blank_end(s, p) == p,
        s[p] == '\n',
{
    reveal_strlit("\n");
    lemma_at_index(s, p, "\n"@, 0);
    lemma_scan_run(s, p, 0, CharClass::Blank);
    reveal(main_step);
}

/// One step of the reader, taken: the run from `p` is the run from where
/// the step ends.
pub proof fn lemma_run_step(s: Seq<char>, p: int, st: DbfParseState, q: int, st2: DbfParseState)
    requires
        0 <= p < q <= s.len(),
        main_step(s, p, st) == Ok::<(int, DbfParseState), DbfFailure>((q, st2)),
    ensures
        run(s, p, st) == run(s, q, st2),
{
}

// ---------------------------------------------------------------------------
// Values of lines
// ---------------------------------------------------------------------------

/// A text the format carries as a field: no comma, quote, square bracket
/// or line feed, and no whitespace at either end.
pub open spec fn plain_field(t: Seq<char>) -> bool {
    &&& forall|i: int| 0 <= i < t.len() ==> #[trigger] t[i] != ',' && t[i] != '"' && t[i] != '[' && t[i] != ']'
        && t[i] != '\n'
    &&& t.len() > 0 ==> !is_ws(t[0]) && !is_ws(t.last())
}

/// Joining one more piece.
pub proof fn lemma_join_push(v: Seq<Seq<char>>, x: Seq<char>, sep: Seq<char>)
    requires
        v.len() >= 1,
    ensures
        join_spec(v.push(x), sep) == join_spec(v, sep) + sep + x,
{
    assert(v.push(x).drop_last() =~= v);
}

/// Pieces after a separator: splitting `x`, a comma and the joined pieces
/// gives the pieces of `x` and then the pieces.
pub proof fn lemma_split_append_join(x: Seq<char>, rs: Seq<Seq<char>>)
    requires
        rs.len() >= 1,
        forall|k: int, i: int| 0 <= k < rs.len() && 0 <= i < rs[k].len() ==> #[trigger] rs[k][i] != ',',
    ensures
        split_spec(x.push(',') + join_spec(rs, ","@), ',') == split_spec(x, ',') + rs,
    decreases rs.len(),
{
    reveal_strlit(",");
    if rs.len() == 1 {
        assert forall|i: int| 0 <= i < rs[0].len() implies #[trigger] rs[0][i] != ',' by {}
        lemma_split_append(x, ',', rs[0]);
        assert(split_spec(x, ',').push(rs[0]) =~= split_spec(x, ',') + rs);
    } else {
        let w = rs.drop_last();
        assert forall|k: int, i: int| 0 <= k < w.len() && 0 <= i < w[k].len() implies #[trigger] w[k][i] != ',' by {
            assert(w[k] == rs[k]);
        }
        lemma_split_append_join(x, w);
        assert(w.push(rs.last()) =~= rs);
        lemma_join_push(w, rs.last(), ","@);
        let y = x.push(',') + join_spec(w, ","@);
        assert(x.push(',') + join_spec(rs, ","@) =~= y.push(',') + rs.last());
        assert forall|i: int| 0 <= i < rs.last().len() implies #[trigger] rs.last()[i] != ',' by {
            assert(rs.last() == rs[rs.len() - 1]);
        }
        lemma_split_append(y, ',', rs.last());
        assert((split_spec(x, ',') + w).push(rs.last()) =~= split_spec(x, ',') + rs);
    }
}

/// Non-empty trimmed pieces are kept as they are.
pub proof fn lemma_nonempty_trimmed_id(rs: Seq<Seq<char>>)
    requires
        forall|k: int| 0 <= k < rs.len() ==> (#[trigger] rs[k]).len() > 0 && plain_field(rs[k]),
    ensures
        nonempty_trimmed(rs) == rs,
    decreases rs.len(),
{
    if rs.len() > 0 {
        let w = rs.drop_last();
        assert forall|k: int| 0 <= k < w.len() implies (#[trigger] w[k]).len() > 0 && plain_field(w[k]) by {
            assert(w[k] == rs[k]);
        }
        lemma_nonempty_trimmed_id(w);
        assert(rs.last() == rs[rs.len() - 1]);
        lemma_trim_id(rs.last());
        assert(w.push(rs.last()) =~= rs);
    }
}

/// A value descriptor's text reads back as the descriptor.
pub proof fn lemma_descriptor_reads_back(d: DbfValueDescriptorModel)
    requires
        forall|i: int| 0 <= i < d.description.len() ==> #[trigger] d.description[i] != '"' && d.description[i] != '\n',
    ensures
        trim_spec(descriptor_text(d)) == descriptor_text(d),
        parse_value_descriptor_spec(descriptor_text(d)) == Some(d),
        descriptor_text(d).len() > 0,
        descriptor_text(d)[0] == '"',
        forall|i: int| 0 <= i < descriptor_text(d).len() ==> #[trigger] descriptor_text(d)[i] != '\n',
{
    reveal_strlit("\"");
    reveal_strlit("\",");
    let x = descriptor_text(d);
    let desc = d.description;
    let it = i64_text(d.value);
    lemma_i64_text(d.value);
    let n = desc.len() as int;
    assert(x =~= seq!['"'] + desc + seq!['"', ','] + it);
    assert(x[0] == '"');
    assert(x.last() == it.last());
    lemma_trim_id(x);
    assert forall|i: int| 0 <= i < x.len() implies #[trigger] x[i] != '\n' by {
        if i == 0 {
        } else if i <= n {
            assert(x[i] == desc[i - 1]);
        } else if i <= n + 2 {
        } else {
            assert(x[i] == it[i - n - 3]);
        }
    }
    lemma_scan_run(x, 0, 0, CharClass::NotQuote);
    assert forall|i: int| 1 <= i < 1 + n implies in_class(CharClass::NotQuote, #[trigger] x[i]) by {
        assert(x[i] == desc[i - 1]);
    }
    assert(x[1 + n] == '"');
    lemma_scan_run(x, 1, n, CharClass::NotQuote);
    let tail = x.subrange(n + 2, x.len() as int);
    assert(tail =~= seq![','] + it);
    assert(tail.last() == it.last());
    lemma_trim_id(tail);
    assert(tail.drop_first() =~= it);
    lemma_trim_id(it);
    assert(x.subrange(1, 1 + n) =~= desc);
}

/// Pieces and a separator without a character join into a text without
/// it.
pub proof fn lemma_join_without(v: Seq<Seq<char>>, sep: Seq<char>, c: char)
    requires
        forall|k: int, i: int| 0 <= k < v.len() && 0 <= i < v[k].len() ==> #[trigger] v[k][i] != c,
        forall|i: int| 0 <= i < sep.len() ==> #[trigger] sep[i] != c,
    ensures
        forall|i: int| 0 <= i < join_spec(v, sep).len() ==> #[trigger] join_spec(v, sep)[i] != c,
    decreases v.len(),
{
    if v.len() == 1 {
        assert forall|i: int| 0 <= i < v[0].len() implies #[trigger] v[0][i] != c by {}
    } else if v.len() > 1 {
        let w = v.drop_last();
        assert forall|k: int, i: int| 0 <= k < w.len() && 0 <= i < w[k].len() implies #[trigger] w[k][i] != c by {
            assert(w[k] == v[k]);
        }
        lemma_join_without(w, sep, c);
        let j = join_spec(w, sep);
        let l = v.last();
        assert(l == v[v.len() - 1]);
        assert forall|i: int| 0 <= i < join_spec(v, sep).len() implies #[trigger] join_spec(v, sep)[i] != c by {
            assert(join_spec(v, sep) == j + sep + l);
            if i < j.len() {
                assert(join_spec(v, sep)[i] == j[i]);
            } else if i < j.len() + sep.len() {
                assert(join_spec(v, sep)[i] == sep[i - j.len()]);
            } else {
                assert(join_spec(v, sep)[i] == l[i - j.len() - sep.len()]);
            }
        }
    }
}

/// The value of a message's `[START_MSG]` line.
pub open spec fn message_value(m: DbfMessageModel) -> Seq<char> {
    m.name + ","@ + dec_digits(written_id(m)) + ","@ + dec_digits(m.length as nat) + ","@ + dec_digits(
        m.signals.len(),
    ) + ",1,"@ + seq![frame_format_char(m.frame_format)] + transmitter_text(m)
}

/// A message as its `[START_MSG]` line gives it: no signals yet, the
/// count of its signals, no comment.
pub open spec fn message_head(m: DbfMessageModel) -> DbfMessageModel {
    DbfMessageModel { signals: Seq::empty(), signal_count: m.signals.len() as u16, comment: Seq::empty(), ..m }
}

/// A message the format can carry: plain name and transmitter, an extended
/// id with room for the top bit, its count and data format as written, no
/// comment.
pub open spec fn message_fits(m: DbfMessageModel) -> bool {
    &&& m.name.len() > 0
    &&& plain_field(m.name)
    &&& plain_field(m.transmitter)
    &&& m.frame_format == DbfFrameFormat::Extended ==> m.id < 0x8000_0000
    &&& m.signals.len() <= 0xFFFF
    &&& m.signal_count == m.signals.len()
    &&& m.data_format == 1
    &&& m.comment.len() == 0
}

/// The comma-separated fields of a message's `[START_MSG]` value.
pub open spec fn message_fields(m: DbfMessageModel) -> Seq<Seq<char>> {
    let f6 = seq![
        m.name,
        dec_digits(written_id(m)),
        dec_digits(m.length as nat),
        dec_digits(m.signals.len()),
        "1"@,
        seq![frame_format_char(m.frame_format)],
    ];
    if m.transmitter.len() == 0 {
        f6
    } else {
        f6.push(m.transmitter)
    }
}

proof fn lemma_message_fields(m: DbfMessageModel)
    requires
        message_fits(m),
    ensures
        message_value(m) == join_spec(message_fields(m), ","@),
        split_spec(message_value(m), ',') == message_fields(m),
        forall|i: int| 0 <= i < message_value(m).len() ==> #[trigger] message_value(m)[i] != '\n',
        trim_spec(message_value(m)) == message_value(m),
        !is_blank(message_value(m)[0]),
{
    reveal_strlit(",");
    reveal_strlit(",1,");
    reveal_strlit("1");
    let wid = written_id(m);
    let d1 = dec_digits(wid);
    let d2 = dec_digits(m.length as nat);
    let d3 = dec_digits(m.signals.len());
    let fc = seq![frame_format_char(m.frame_format)];
    lemma_dec_field(wid, 0xFFFF_FFFF);
    lemma_dec_field(m.length as nat, 0xFF);
    lemma_dec_field(m.signals.len(), 0xFFFF);
    let f6 = seq![m.name, d1, d2, d3, "1"@, fc];
    lemma_join_push(seq![m.name], d1, ","@);
    assert(seq![m.name].push(d1) =~= seq![m.name, d1]);
    lemma_join_push(seq![m.name, d1], d2, ","@);
    assert(seq![m.name, d1].push(d2) =~= seq![m.name, d1, d2]);
    lemma_join_push(seq![m.name, d1, d2], d3, ","@);
    assert(seq![m.name, d1, d2].push(d3) =~= seq![m.name, d1, d2, d3]);
    lemma_join_push(seq![m.name, d1, d2, d3], "1"@, ","@);
    assert(seq![m.name, d1, d2, d3].push("1"@) =~= seq![m.name, d1, d2, d3, "1"@]);
    lemma_join_push(seq![m.name, d1, d2, d3, "1"@], fc, ","@);
    assert(seq![m.name, d1, d2, d3, "1"@].push(fc) =~= f6);
    let v = message_value(m);
    let fields = message_fields(m);
    if m.transmitter.len() == 0 {
        assert(v =~= join_spec(f6, ","@));
    } else {
        lemma_join_push(f6, m.transmitter, ","@);
        assert(v =~= join_spec(fields, ","@));
    }
    assert forall|k: int, i: int| 0 <= k < fields.len() && 0 <= i < fields[k].len() implies #[trigger] fields[k][i]
        != ',' && fields[k][i] != '\n' by {
        if k == 1 {
            assert(d1[i] != ',' && d1[i] != '\n');
        } else if k == 2 {
            assert(d2[i] != ',' && d2[i] != '\n');
        } else if k == 3 {
            assert(d3[i] != ',' && d3[i] != '\n');
        } else if k == 6 {
            assert(fields[6] == m.transmitter);
        }
    }
    lemma_split_join(fields);
    lemma_join_without(fields, ","@, '\n');
    assert(v[0] == m.name[0]);
    if m.transmitter.len() == 0 {
        assert(v.last() == fc[0]);
    } else {
        assert(v.last() == m.transmitter.last());
    }
    lemma_trim_id(v);
}

proof fn lemma_message_line_shape(m: DbfMessageModel)
    ensures
        message_line(m) == "["@ + "START_MSG"@ + "] "@ + message_value(m) + "\n"@,
{
    reveal_strlit("[START_MSG] ");
    reveal_strlit("[");
    reveal_strlit("START_MSG");
    reveal_strlit("] ");
    assert(message_line(m) =~= "["@ + "START_MSG"@ + "] "@ + message_value(m) + "\n"@);
}

/// A message's `[START_MSG]` value reads back as its head.
#[verifier::rlimit(40)]
pub proof fn lemma_message_value(m: DbfMessageModel)
    requires
        message_fits(m),
    ensures
        message_line(m) == "["@ + "START_MSG"@ + "] "@ + message_value(m) + "\n"@,
        trim_spec(message_value(m)) == message_value(m),
        parse_message_spec(message_value(m)) == Ok::<DbfMessageModel, Seq<char>>(message_head(m)),
        forall|i: int| 0 <= i < message_value(m).len() ==> #[trigger] message_value(m)[i] != '\n',
        !is_blank(message_value(m)[0]),
{
    reveal_strlit("1");
    lemma_message_line_shape(m);
    lemma_message_fields(m);
    let parts = message_fields(m);
    let wid = written_id(m);
    let fc = seq![frame_format_char(m.frame_format)];
    lemma_dec_field(wid, 0xFFFF_FFFF);
    lemma_dec_field(m.length as nat, 0xFF);
    lemma_dec_field(m.signals.len(), 0xFFFF);
    lemma_trim_id(m.name);
    lemma_trim_id(m.transmitter);
    lemma_trim_id(fc);
    assert(parts.len() >= 6);
    assert(parts[0] == m.name);
    assert(parts[5] == fc);
    assert(uint_field(parts[1], 0xFFFF_FFFF) == Some(wid));
    assert(uint_field(parts[2], 0xFF) == Some(m.length as nat));
    assert(uint_field(parts[3], 0xFFFF) == Some(m.signals.len()));
    assert(uint_field(parts[4], 0xFF) == Some(1nat)) by {
        lemma_dec_field(1, 0xFF);
        assert(dec_digits(1) =~= "1"@);
        assert(parts[4] == "1"@);
    }
    let c = first_or(trim_spec(parts[5]), 'S');
    assert(c == frame_format_char(m.frame_format));
    assert(frame_format_of(c) == m.frame_format);
    let id2: u32 = if (c == 'X' || c == 'x') && wid >= 0x8000_0000 {
        (wid - 0x8000_0000) as u32
    } else {
        wid as u32
    };
    assert(id2 == m.id);
    assert(parts.len() > 6 ==> trim_spec(parts[6]) == m.transmitter);
    assert(parts.len() == 6 ==> m.transmitter.len() == 0);
    assert(m.transmitter.len() == 0 ==> m.transmitter =~= Seq::<char>::empty());
}

/// The value of a signal's `[START_SIGNALS]` line.
pub open spec fn signal_value(g: DbfSignalModel) -> Seq<char> {
    g.name + ","@ + dec_digits(g.length as nat) + ","@ + dec_digits(g.which_byte as nat) + ","@ + dec_digits(
        g.start_bit as nat,
    ) + ","@ + seq![signal_type_char(g.signal_type)] + ","@ + g.max_value + ","@ + g.min_value + ","@
        + seq![byte_order_char(g.byte_order)] + ","@ + g.offset + ","@ + g.scale_factor + ","@ + g.unit + ","@
        + g.multiplex + ","@ + join_spec(g.receivers, ","@)
}

/// The first twelve fields of a signal's `[START_SIGNALS]` value.
pub open spec fn signal_fields(g: DbfSignalModel) -> Seq<Seq<char>> {
    seq![
        g.name,
        dec_digits(g.length as nat),
        dec_digits(g.which_byte as nat),
        dec_digits(g.start_bit as nat),
        seq![signal_type_char(g.signal_type)],
        g.max_value,
        g.min_value,
        seq![byte_order_char(g.byte_order)],
        g.offset,
        g.scale_factor,
        g.unit,
        g.multiplex,
    ]
}

/// A signal the format can carry: plain name (not empty), limits, scaling,
/// unit and multiplexer, receivers that are plain and not empty, value
/// descriptions without quotes or line feeds, no comment.
pub open spec fn signal_fits(g: DbfSignalModel) -> bool {
    &&& g.name.len() > 0
    &&& plain_field(g.name)
    &&& plain_field(g.max_value)
    &&& plain_field(g.min_value)
    &&& plain_field(g.offset)
    &&& plain_field(g.scale_factor)
    &&& plain_field(g.unit)
    &&& plain_field(g.multiplex)
    &&& forall|k: int| 0 <= k < g.receivers.len() ==> (#[trigger] g.receivers[k]).len() > 0 && plain_field(g.receivers[k])
    &&& forall|k: int, i: int| 0 <= k < g.value_descriptors.len() && 0 <= i < g.value_descriptors[k].description.len()
        ==> #[trigger] g.value_descriptors[k].description[i] != '"' && g.value_descriptors[k].description[i] != '\n'
    &&& g.comment.len() == 0
}

/// A signal as its `[START_SIGNALS]` line gives it: no value descriptions
/// yet, no comment.
pub open spec fn signal_head(g: DbfSignalModel) -> DbfSignalModel {
    DbfSignalModel { value_descriptors: Seq::empty(), comment: Seq::empty(), ..g }
}

#[verifier::spinoff_prover]
#[verifier::rlimit(80)]
proof fn lemma_signal_line_shape(g: DbfSignalModel)
    ensures
        signal_text(g) == "["@ + "START_SIGNALS"@ + "] "@ + signal_value(g) + "\n"@ + value_description_lines(
            g.value_descriptors,
        ),
{
    assert("[START_SIGNALS] "@ =~= "["@ + "START_SIGNALS"@ + "] "@) by {
        reveal_strlit("[START_SIGNALS] ");
        reveal_strlit("[");
        reveal_strlit("START_SIGNALS");
        reveal_strlit("] ");
    }
    assert(signal_layout_text(g) + signal_limits_text(g) + signal_scaling_text(g) =~= "[START_SIGNALS] "@
        + signal_value(g));
}

#[verifier::rlimit(40)]
proof fn lemma_signal_fields(g: DbfSignalModel)
    requires
        signal_fits(g),
    ensures
        split_spec(signal_value(g), ',') == if g.receivers.len() == 0 {
            signal_fields(g).push(Seq::empty())
        } else {
            signal_fields(g) + g.receivers
        },
        forall|i: int| 0 <= i < signal_value(g).len() ==> #[trigger] signal_value(g)[i] != '\n',
        trim_spec(signal_value(g)) == signal_value(g),
        !is_blank(signal_value(g)[0]),
{
    reveal_strlit(",");
    let d1 = dec_digits(g.length as nat);
    let d2 = dec_digits(g.which_byte as nat);
    let d3 = dec_digits(g.start_bit as nat);
    let tc = seq![signal_type_char(g.signal_type)];
    let bc = seq![byte_order_char(g.byte_order)];
    lemma_dec_field(g.length as nat, 0xFF);
    lemma_dec_field(g.which_byte as nat, 0xFF);
    lemma_dec_field(g.start_bit as nat, 0xFF);
    lemma_join_push(seq![g.name], d1, ","@);
    assert(seq![g.name].push(d1) =~= seq![g.name, d1]);
    lemma_join_push(seq![g.name, d1], d2, ","@);
    assert(seq![g.name, d1].push(d2) =~= seq![g.name, d1, d2]);
    lemma_join_push(seq![g.name, d1, d2], d3, ","@);
    assert(seq![g.name, d1, d2].push(d3) =~= seq![g.name, d1, d2, d3]);
    lemma_join_push(seq![g.name, d1, d2, d3], tc, ","@);
    assert(seq![g.name, d1, d2, d3].push(tc) =~= seq![g.name, d1, d2, d3, tc]);
    lemma_join_push(seq![g.name, d1, d2, d3, tc], g.max_value, ","@);
    assert(seq![g.name, d1, d2, d3, tc].push(g.max_value) =~= seq![g.name, d1, d2, d3, tc, g.max_value]);
    lemma_join_push(seq![g.name, d1, d2, d3, tc, g.max_value], g.min_value, ","@);
    assert(seq![g.name, d1, d2, d3, tc, g.max_value].push(g.min_value) =~= seq![g.name, d1, d2, d3, tc, g.max_value, g.min_value]);
    lemma_join_push(seq![g.name, d1, d2, d3, tc, g.max_value, g.min_value], bc, ","@);
    assert(seq![g.name, d1, d2, d3, tc, g.max_value, g.min_value].push(bc) =~= seq![g.name, d1, d2, d3, tc, g.max_value, g.min_value, bc]);
    lemma_join_push(seq![g.name, d1, d2, d3, tc, g.max_value, g.min_value, bc], g.offset, ","@);
    assert(seq![g.name, d1, d2, d3, tc, g.max_value, g.min_value, bc].push(g.offset) =~= seq![g.name, d1, d2, d3, tc, g.max_value, g.min_value, bc, g.offset]);
    lemma_join_push(seq![g.name, d1, d2, d3, tc, g.max_value, g.min_value, bc, g.offset], g.scale_factor, ","@);
    assert(seq![g.name, d1, d2, d3, tc, g.max_value, g.min_value, bc, g.offset].push(g.scale_factor) =~= seq![g.name, d1, d2, d3, tc, g.max_value, g.min_value, bc, g.offset, g.scale_factor]);
    lemma_join_push(seq![g.name, d1, d2, d3, tc, g.max_value, g.min_value, bc, g.offset, g.scale_factor], g.unit, ","@);
    assert(seq![g.name, d1, d2, d3, tc, g.max_value, g.min_value, bc, g.offset, g.scale_factor].push(g.unit) =~= seq![g.name, d1, d2, d3, tc, g.max_value, g.min_value, bc, g.offset, g.scale_factor, g.unit]);
    lemma_join_push(seq![g.name, d1, d2, d3, tc, g.max_value, g.min_value, bc, g.offset, g.scale_factor, g.unit], g.multiplex, ","@);
    assert(seq![g.name, d1, d2, d3, tc, g.max_value, g.min_value, bc, g.offset, g.scale_factor, g.unit].push(g.multiplex) =~= seq![g.name, d1, d2, d3, tc, g.max_value, g.min_value, bc, g.offset, g.scale_factor, g.unit, g.multiplex]);
    let f = signal_fields(g);
    assert(f == seq![g.name, d1, d2, d3, tc, g.max_value, g.min_value, bc, g.offset, g.scale_factor, g.unit, g.multiplex]);
    let j = join_spec(f, ","@);
    let v = signal_value(g);
    assert(v =~= j.push(',') + join_spec(g.receivers, ","@));
    assert forall|k: int, i: int| 0 <= k < f.len() && 0 <= i < f[k].len() implies #[trigger] f[k][i] != ','
        && f[k][i] != '\n' by {
        if k == 1 {
            assert(d1[i] != ',' && d1[i] != '\n');
        } else if k == 2 {
            assert(d2[i] != ',' && d2[i] != '\n');
        } else if k == 3 {
            assert(d3[i] != ',' && d3[i] != '\n');
        }
    }
    lemma_split_join(f);
    lemma_join_without(f, ","@, '\n');
    let rs = g.receivers;
    assert forall|k: int, i: int| 0 <= k < rs.len() && 0 <= i < rs[k].len() implies #[trigger] rs[k][i] != ','
        && rs[k][i] != '\n' by {
        assert(plain_field(rs[k]));
    }
    if rs.len() == 0 {
        lemma_split_append(j, ',', Seq::empty());
        assert(join_spec(rs, ","@) =~= Seq::<char>::empty());
        assert(v =~= j.push(',') + Seq::<char>::empty());
        assert(v.last() == ',');
    } else {
        lemma_split_append_join(j, rs);
        assert(rs.last() == rs[rs.len() - 1]);
        lemma_join_without(rs, ","@, '\n');
        let jr = join_spec(rs, ","@);
        assert(jr.len() > 0 && jr.last() == rs.last().last()) by {
            if rs.len() > 1 {
                lemma_join_push(rs.drop_last(), rs.last(), ","@);
                assert(rs.drop_last().push(rs.last()) =~= rs);
            }
        }
        assert(v.last() == jr.last());
    }
    assert forall|i: int| 0 <= i < v.len() implies #[trigger] v[i] != '\n' by {
        let jr = join_spec(rs, ","@);
        if i < j.len() {
            assert(v[i] == j[i]);
        } else if i == j.len() {
        } else {
            if rs.len() > 0 {
                lemma_join_without(rs, ","@, '\n');
            }
            assert(v[i] == jr[i - j.len() - 1]);
        }
    }
    assert(v[0] == g.name[0]);
    lemma_trim_id(v);
}

/// A signal's `[START_SIGNALS]` value reads back as its head.
#[verifier::rlimit(60)]
pub proof fn lemma_signal_value(g: DbfSignalModel)
    requires
        signal_fits(g),
    ensures
        signal_text(g) == "["@ + "START_SIGNALS"@ + "] "@ + signal_value(g) + "\n"@ + value_description_lines(
            g.value_descriptors,
        ),
        trim_spec(signal_value(g)) == signal_value(g),
        parse_signal_spec(signal_value(g)) == Ok::<DbfSignalModel, Seq<char>>(signal_head(g)),
        forall|i: int| 0 <= i < signal_value(g).len() ==> #[trigger] signal_value(g)[i] != '\n',
        !is_blank(signal_value(g)[0]),
{
    lemma_signal_line_shape(g);
    lemma_signal_fields(g);
    let f = signal_fields(g);
    let parts = split_spec(signal_value(g), ',');
    let tc = seq![signal_type_char(g.signal_type)];
    let bc = seq![byte_order_char(g.byte_order)];
    lemma_dec_field(g.length as nat, 0xFF);
    lemma_dec_field(g.which_byte as nat, 0xFF);
    lemma_dec_field(g.start_bit as nat, 0xFF);
    lemma_trim_id(g.name);
    lemma_trim_id(g.max_value);
    lemma_trim_id(g.min_value);
    lemma_trim_id(g.offset);
    lemma_trim_id(g.scale_factor);
    lemma_trim_id(g.unit);
    lemma_trim_id(g.multiplex);
    lemma_trim_id(tc);
    lemma_trim_id(bc);
    assert(parts.len() >= 13);
    assert forall|k: int| 0 <= k < 12 implies #[trigger] parts[k] == f[k] by {}
    assert(uint_field(parts[1], 0xFF) == Some(g.length as nat));
    assert(uint_field(parts[2], 0xFF) == Some(g.which_byte as nat));
    assert(uint_field(parts[3], 0xFF) == Some(g.start_bit as nat));
    assert(signal_type_of(first_or(trim_spec(parts[4]), 'U')) == g.signal_type);
    assert(byte_order_of(first_or(trim_spec(parts[7]), '1')) == g.byte_order);
    let rest = parts.subrange(12, parts.len() as int);
    if g.receivers.len() == 0 {
        assert(rest =~= seq![Seq::<char>::empty()]);
        assert(seq![Seq::<char>::empty()].drop_last() =~= Seq::<Seq<char>>::empty());
        assert(nonempty_trimmed(Seq::<Seq<char>>::empty()) =~= Seq::<Seq<char>>::empty());
        assert(rest.last() =~= Seq::<char>::empty());
        assert(trim_spec(Seq::<char>::empty()) =~= Seq::<char>::empty()) by {
            lemma_trim_id(Seq::<char>::empty());
        }
        assert(nonempty_trimmed(rest) =~= g.receivers);
    } else {
        assert(rest =~= g.receivers);
        lemma_nonempty_trimmed_id(g.receivers);
    }
}

// ---------------------------------------------------------------------------
// Runs of lines
// ---------------------------------------------------------------------------

/// The tag names the reader compares, revealed and told apart.
proof fn lemma_tag_names()
    ensures
        "BUSMASTER_VERSION"@ != "VALUE_DESCRIPTION"@,
        "BUSMASTER_VERSION"@ != "START_VALUE_TABLE"@,
        "VALUE_DESCRIPTION"@ != "START_VALUE_TABLE"@,
        "DATABASE_VERSION"@.len() == 16,
        "PROTOCOL"@.len() == 8,
        "BUSMASTER_VERSION"@.len() == 17,
        "NUMBER_OF_MESSAGES"@.len() == 18,
        "NODE"@.len() == 4,
        "START_MSG"@.len() == 9,
        "END_MSG"@.len() == 7,
        "START_SIGNALS"@.len() == 13,
        "VALUE_DESCRIPTION"@.len() == 17,
        "START_SIG_LIST"@.len() == 14,
        "START_VALUE_TABLE"@.len() == 17,
        "END_VALUE_TABLE"@.len() == 15,
        "START_TABLE"@.len() == 11,
        "END_TABLE"@.len() == 9,
        forall|i: int| 0 <= i < 17 ==> #[trigger] "VALUE_DESCRIPTION"@[i] != ']',
        forall|i: int| 0 <= i < 13 ==> #[trigger] "START_SIGNALS"@[i] != ']',
        forall|i: int| 0 <= i < 9 ==> #[trigger] "START_MSG"@[i] != ']',
        forall|i: int| 0 <= i < 7 ==> #[trigger] "END_MSG"@[i] != ']',
        forall|i: int| 0 <= i < 16 ==> #[trigger] "DATABASE_VERSION"@[i] != ']',
        forall|i: int| 0 <= i < 8 ==> #[trigger] "PROTOCOL"@[i] != ']',
        forall|i: int| 0 <= i < 17 ==> #[trigger] "BUSMASTER_VERSION"@[i] != ']',
        forall|i: int| 0 <= i < 18 ==> #[trigger] "NUMBER_OF_MESSAGES"@[i] != ']',
        forall|i: int| 0 <= i < 4 ==> #[trigger] "NODE"@[i] != ']',
        forall|i: int| 0 <= i < 17 ==> #[trigger] "START_VALUE_TABLE"@[i] != ']',
        forall|i: int| 0 <= i < 15 ==> #[trigger] "END_VALUE_TABLE"@[i] != ']',
        forall|i: int| 0 <= i < 11 ==> #[trigger] "START_TABLE"@[i] != ']',
        forall|i: int| 0 <= i < 9 ==> #[trigger] "END_TABLE"@[i] != ']',
{
    reveal_strlit("DATABASE_VERSION");
    reveal_strlit("PROTOCOL");
    reveal_strlit("BUSMASTER_VERSION");
    reveal_strlit("NUMBER_OF_MESSAGES");
    reveal_strlit("NODE");
    reveal_strlit("START_MSG");
    reveal_strlit("END_MSG");
    reveal_strlit("START_SIGNALS");
    reveal_strlit("VALUE_DESCRIPTION");
    reveal_strlit("START_SIG_LIST");
    reveal_strlit("START_VALUE_TABLE");
    reveal_strlit("END_VALUE_TABLE");
    reveal_strlit("START_TABLE");
    reveal_strlit("END_TABLE");
    assert("BUSMASTER_VERSION"@[0] != "VALUE_DESCRIPTION"@[0]);
    assert("BUSMASTER_VERSION"@[0] != "START_VALUE_TABLE"@[0]);
    assert("VALUE_DESCRIPTION"@[0] != "START_VALUE_TABLE"@[0]);
}

/// The signal with descriptions added at the end.
pub open spec fn with_descriptors(x: DbfSignalModel, ds: Seq<DbfValueDescriptorModel>) -> DbfSignalModel {
    DbfSignalModel { value_descriptors: x.value_descriptors + ds, ..x }
}

/// Descriptions without quotes or line feeds.
pub open spec fn descriptors_fit(ds: Seq<DbfValueDescriptorModel>) -> bool {
    forall|k: int, i: int| 0 <= k < ds.len() && 0 <= i < ds[k].description.len() ==> #[trigger] ds[k].description[i]
        != '"' && ds[k].description[i] != '\n'
}

/// One `[VALUE_DESCRIPTION]` line adds its description to the signal
/// being read.
proof fn lemma_descriptor_line(s: Seq<char>, p: int, d: DbfValueDescriptorModel, st: DbfParseState)
    requires
        at(s, p, "[VALUE_DESCRIPTION] "@ + descriptor_text(d) + "\n"@),
        st.sig is Some,
        forall|i: int| 0 <= i < d.description.len() ==> #[trigger] d.description[i] != '"' && d.description[i] != '\n',
    ensures
        ("[VALUE_DESCRIPTION] "@ + descriptor_text(d) + "\n"@).len() == descriptor_text(d).len() + 21,
        main_step(s, p, st) == Ok::<(int, DbfParseState), DbfFailure>(
            (
                p + descriptor_text(d).len() + 21,
                DbfParseState { sig: Some(with_descriptors(st.sig->0, seq![d])), ..st },
            ),
        ),
{
    let tg = "VALUE_DESCRIPTION"@;
    lemma_descriptor_reads_back(d);
    lemma_tag_names();
    assert("[VALUE_DESCRIPTION] "@ + descriptor_text(d) + "\n"@ == "["@ + tg + "] "@ + descriptor_text(d) + "\n"@) by {
        reveal_strlit("[VALUE_DESCRIPTION] ");
        reveal_strlit("[");
        reveal_strlit("VALUE_DESCRIPTION");
        reveal_strlit("] ");
        assert("[VALUE_DESCRIPTION] "@ =~= "["@ + tg + "] "@);
    }
    lemma_tag_line(s, p, tg, descriptor_text(d), st);
    let x = st.sig->0;
    assert(x.value_descriptors.push(d) =~= x.value_descriptors + seq![d]);
    assert(tg != "DATABASE_VERSION"@ && tg != "PROTOCOL"@ && tg != "NUMBER_OF_MESSAGES"@ && tg != "NODE"@
        && tg != "START_MSG"@ && tg != "END_MSG"@ && tg != "START_SIGNALS"@);
}

/// The `[VALUE_DESCRIPTION]` lines of a signal add their descriptions to the
/// signal being read.
pub proof fn lemma_descriptor_lines(s: Seq<char>, p: int, ds: Seq<DbfValueDescriptorModel>, st: DbfParseState)
    requires
        at(s, p, value_description_lines(ds)),
        st.sig is Some,
        descriptors_fit(ds),
    ensures
        run(s, p, st) == run(
            s,
            p + value_description_lines(ds).len(),
            DbfParseState { sig: Some(with_descriptors(st.sig->0, ds)), ..st },
        ),
    decreases ds.len(),
{
    if ds.len() == 0 {
        assert(st.sig->0.value_descriptors + ds =~= st.sig->0.value_descriptors);
        assert(DbfParseState { sig: Some(with_descriptors(st.sig->0, ds)), ..st } == st);
    } else {
        let w = ds.drop_last();
        let d = ds.last();
        assert forall|k: int, i: int| 0 <= k < w.len() && 0 <= i < w[k].description.len() implies #[trigger] w[k].description[i]
            != '"' && w[k].description[i] != '\n' by {
            assert(w[k] == ds[k]);
        }
        let tw = value_description_lines(w);
        let line = "[VALUE_DESCRIPTION] "@ + descriptor_text(d) + "\n"@;
        assert(value_description_lines(ds) == tw + line) by {
            assert(value_description_lines(ds) =~= tw + line);
        }
        lemma_at_split(s, p, tw, line);
        lemma_descriptor_lines(s, p, w, st);
        let st1 = DbfParseState { sig: Some(with_descriptors(st.sig->0, w)), ..st };
        let p1 = p + tw.len();
        assert(d == ds[ds.len() - 1]);
        assert forall|i: int| 0 <= i < d.description.len() implies #[trigger] d.description[i] != '"' && d.description[i] != '\n' by {
            assert(ds[ds.len() - 1].description[i] != '"');
        }
        lemma_descriptor_line(s, p1, d, st1);
        let st2 = DbfParseState { sig: Some(with_descriptors(st.sig->0, ds)), ..st };
        assert(with_descriptors(st1.sig->0, seq![d]) == with_descriptors(st.sig->0, ds)) by {
            assert(st.sig->0.value_descriptors + w + seq![d] =~= st.sig->0.value_descriptors + ds);
        }
        lemma_run_step(s, p1, st1, p1 + line.len(), st2);
    }
}

/// The message with the signals added one by one, as the reader adds them.
pub open spec fn add_signals(m: DbfMessageModel, gs: Seq<DbfSignalModel>) -> DbfMessageModel
    decreases gs.len(),
{
    if gs.len() == 0 {
        m
    } else {
        with_signal(add_signals(m, gs.drop_last()), gs.last())
    }
}

/// What the reader holds after the signals of a message: the message with
/// all but the last signal, and the last signal still being read.
pub open spec fn after_signals(db: DbfDatabaseModel, mm: DbfMessageModel, gs: Seq<DbfSignalModel>) -> DbfParseState {
    if gs.len() == 0 {
        DbfParseState { db, msg: Some(mm), sig: None }
    } else {
        DbfParseState { db, msg: Some(add_signals(mm, gs.drop_last())), sig: Some(gs.last()) }
    }
}

proof fn lemma_add_signals(m: DbfMessageModel, gs: Seq<DbfSignalModel>)
    ensures
        add_signals(m, gs).signals == m.signals + gs,
        gs.len() > 0 ==> add_signals(m, gs).signal_count == (m.signals.len() + gs.len()) as u16,
        gs.len() == 0 ==> add_signals(m, gs).signal_count == m.signal_count,
        add_signals(m, gs).name == m.name,
        add_signals(m, gs).id == m.id,
        add_signals(m, gs).length == m.length,
        add_signals(m, gs).data_format == m.data_format,
        add_signals(m, gs).frame_format == m.frame_format,
        add_signals(m, gs).transmitter == m.transmitter,
        add_signals(m, gs).comment == m.comment,
    decreases gs.len(),
{
    if gs.len() == 0 {
        assert(m.signals + gs =~= m.signals);
    } else {
        lemma_add_signals(m, gs.drop_last());
        assert(m.signals + gs.drop_last() + seq![gs.last()] =~= m.signals + gs);
        assert((m.signals + gs.drop_last()).push(gs.last()) =~= m.signals + gs);
    }
}

/// A `[START_SIGNALS]` line: the pending signal joins the message and the
/// line's signal is the one being read.
proof fn lemma_signal_line(s: Seq<char>, p: int, g: DbfSignalModel, st: DbfParseState)
    requires
        at(s, p, "["@ + "START_SIGNALS"@ + "] "@ + signal_value(g) + "\n"@),
        signal_fits(g),
    ensures
        ("["@ + "START_SIGNALS"@ + "] "@ + signal_value(g) + "\n"@).len() == signal_value(g).len() + 17,
        main_step(s, p, st) == Ok::<(int, DbfParseState), DbfFailure>(
            (
                p + signal_value(g).len() + 17,
                DbfParseState {
                    db: st.db,
                    msg: match (st.sig, st.msg) {
                        (Some(x), Some(m)) => Some(with_signal(m, x)),
                        _ => st.msg,
                    },
                    sig: Some(signal_head(g)),
                },
            ),
        ),
{
    let tg = "START_SIGNALS"@;
    lemma_signal_value(g);
    lemma_tag_names();
    lemma_tag_line(s, p, tg, signal_value(g), st);
    assert(tg != "DATABASE_VERSION"@ && tg != "PROTOCOL"@ && tg != "BUSMASTER_VERSION"@ && tg != "NUMBER_OF_MESSAGES"@
        && tg != "NODE"@ && tg != "START_MSG"@ && tg != "END_MSG"@);
}

/// A signal's lines: the pending signal joins the message and the signal,
/// with its descriptions, is the one being read.
pub proof fn lemma_signal_block(s: Seq<char>, p: int, g: DbfSignalModel, st: DbfParseState)
    requires
        at(s, p, signal_text(g)),
        signal_fits(g),
    ensures
        run(s, p, st) == run(
            s,
            p + signal_text(g).len(),
            DbfParseState {
                db: st.db,
                msg: match (st.sig, st.msg) {
                    (Some(x), Some(m)) => Some(with_signal(m, x)),
                    _ => st.msg,
                },
                sig: Some(g),
            },
        ),
{
    lemma_signal_value(g);
    let line = "["@ + "START_SIGNALS"@ + "] "@ + signal_value(g) + "\n"@;
    let vd = value_description_lines(g.value_descriptors);
    lemma_at_split(s, p, line, vd);
    lemma_signal_line(s, p, g, st);
    let msg2 = match (st.sig, st.msg) {
        (Some(x), Some(m)) => Some(with_signal(m, x)),
        _ => st.msg,
    };
    let st1 = DbfParseState { db: st.db, msg: msg2, sig: Some(signal_head(g)) };
    lemma_run_step(s, p, st, p + line.len(), st1);
    assert forall|k: int, i: int| 0 <= k < g.value_descriptors.len() && 0 <= i < g.value_descriptors[k].description.len()
        implies #[trigger] g.value_descriptors[k].description[i] != '"' && g.value_descriptors[k].description[i] != '\n' by {}
    lemma_descriptor_lines(s, p + line.len(), g.value_descriptors, st1);
    assert(with_descriptors(signal_head(g), g.value_descriptors) == g) by {
        assert(Seq::<DbfValueDescriptorModel>::empty() + g.value_descriptors =~= g.value_descriptors);
        assert(g.comment =~= Seq::<char>::empty());
    }
}

/// The signals of a message, one after the other.
pub proof fn lemma_signals(s: Seq<char>, p: int, gs: Seq<DbfSignalModel>, db: DbfDatabaseModel, mm: DbfMessageModel)
    requires
        at(s, p, signals_text(gs)),
        forall|k: int| 0 <= k < gs.len() ==> signal_fits(#[trigger] gs[k]),
    ensures
        run(s, p, DbfParseState { db, msg: Some(mm), sig: None }) == run(
            s,
            p + signals_text(gs).len(),
            after_signals(db, mm, gs),
        ),
    decreases gs.len(),
{
    if gs.len() == 0 {
    } else {
        let w = gs.drop_last();
        let g = gs.last();
        assert forall|k: int| 0 <= k < w.len() implies signal_fits(#[trigger] w[k]) by {
            assert(w[k] == gs[k]);
        }
        assert(signal_fits(g)) by {
            assert(g == gs[gs.len() - 1]);
        }
        lemma_at_split(s, p, signals_text(w), signal_text(g));
        lemma_signals(s, p, w, db, mm);
        let st1 = after_signals(db, mm, w);
        lemma_signal_block(s, p + signals_text(w).len(), g, st1);
        if w.len() > 0 {
            assert(w.drop_last().push(w.last()) =~= w);
        }
    }
}

/// A message and its signals, as the format can carry them.
pub open spec fn message_carried(m: DbfMessageModel) -> bool {
    &&& message_fits(m)
    &&& forall|k: int| 0 <= k < m.signals.len() ==> signal_fits(#[trigger] m.signals[k])
}

proof fn lemma_message_line(s: Seq<char>, p: int, m: DbfMessageModel, db: DbfDatabaseModel)
    requires
        at(s, p, message_line(m)),
        message_fits(m),
    ensures
        message_line(m).len() == message_value(m).len() + 13,
        main_step(s, p, DbfParseState { db, msg: None, sig: None }) == Ok::<(int, DbfParseState), DbfFailure>(
            (p + message_value(m).len() + 13, DbfParseState { db, msg: Some(message_head(m)), sig: None }),
        ),
{
    let tg = "START_MSG"@;
    lemma_message_value(m);
    lemma_tag_names();
    lemma_tag_line(s, p, tg, message_value(m), DbfParseState { db, msg: None, sig: None });
    assert(tg != "DATABASE_VERSION"@ && tg != "PROTOCOL"@ && tg != "BUSMASTER_VERSION"@ && tg != "NUMBER_OF_MESSAGES"@
        && tg != "NODE"@);
}

proof fn lemma_end_msg_line(s: Seq<char>, p: int, st: DbfParseState)
    requires
        at(s, p, "[END_MSG]\n"@),
    ensures
        "[END_MSG]\n"@.len() == 10,
        main_step(s, p, st) == Ok::<(int, DbfParseState), DbfFailure>((p + 10, close_message(st))),
{
    let tg = "END_MSG"@;
    lemma_tag_names();
    assert("[END_MSG]\n"@ == "["@ + tg + "]\n"@) by {
        reveal_strlit("[END_MSG]\n");
        reveal_strlit("[");
        reveal_strlit("END_MSG");
        reveal_strlit("]\n");
        assert("[END_MSG]\n"@ =~= "["@ + tg + "]\n"@);
    }
    lemma_bare_tag_line(s, p, tg, st);
    assert(tg != "DATABASE_VERSION"@ && tg != "PROTOCOL"@ && tg != "BUSMASTER_VERSION"@ && tg != "NUMBER_OF_MESSAGES"@
        && tg != "NODE"@ && tg != "START_MSG"@);
}

/// A message's lines add the message to the database.
#[verifier::rlimit(40)]
pub proof fn lemma_message_block(s: Seq<char>, p: int, m: DbfMessageModel, db: DbfDatabaseModel)
    requires
        at(s, p, message_text(m)),
        message_carried(m),
    ensures
        run(s, p, DbfParseState { db, msg: None, sig: None }) == run(
            s,
            p + message_text(m).len(),
            DbfParseState { db: DbfDatabaseModel { messages: db.messages.push(m), ..db }, msg: None, sig: None },
        ),
{
    reveal_strlit("[END_MSG]\n\n");
    reveal_strlit("[END_MSG]\n");
    reveal_strlit("\n");
    let l1 = message_line(m);
    let l2 = signals_text(m.signals);
    let l3 = "[END_MSG]\n"@;
    let l4 = "\n"@;
    assert(message_text(m) =~= l1 + l2 + l3 + l4);
    lemma_at_split(s, p, l1 + l2 + l3, l4);
    lemma_at_split(s, p, l1 + l2, l3);
    lemma_at_split(s, p, l1, l2);
    let st0 = DbfParseState { db, msg: None, sig: None };
    lemma_message_line(s, p, m, db);
    let head = message_head(m);
    let p1 = p + l1.len();
    lemma_run_step(s, p, st0, p1, DbfParseState { db, msg: Some(head), sig: None });
    lemma_signals(s, p1, m.signals, db, head);
    let p2 = p1 + l2.len();
    let st2 = after_signals(db, head, m.signals);
    lemma_end_msg_line(s, p2, st2);
    let st3 = close_message(st2);
    lemma_run_step(s, p2, st2, p2 + 10, st3);
    lemma_empty_line(s, p2 + 10, st3);
    lemma_run_step(s, p2 + 10, st3, p2 + 11, st3);
    let gs = m.signals;
    assert(st3 == DbfParseState { db: DbfDatabaseModel { messages: db.messages.push(m), ..db }, msg: None, sig: None }) by {
        if gs.len() == 0 {
            assert(head.signals =~= m.signals);
            assert(head.comment =~= m.comment);
            assert(head == m);
        } else {
            lemma_add_signals(head, gs);
            assert(gs.drop_last().push(gs.last()) =~= gs);
            assert(add_signals(head, gs) == with_signal(add_signals(head, gs.drop_last()), gs.last()));
            assert(Seq::<DbfSignalModel>::empty() + gs =~= gs);
            assert(head.comment =~= m.comment);
            assert(add_signals(head, gs) == m);
        }
    }
}

/// The messages' lines add the messages to the database, in order.
pub proof fn lemma_messages(s: Seq<char>, p: int, ms: Seq<DbfMessageModel>, db: DbfDatabaseModel)
    requires
        at(s, p, messages_text(ms)),
        forall|k: int| 0 <= k < ms.len() ==> message_carried(#[trigger] ms[k]),
    ensures
        run(s, p, DbfParseState { db, msg: None, sig: None }) == run(
            s,
            p + messages_text(ms).len(),
            DbfParseState { db: DbfDatabaseModel { messages: db.messages + ms, ..db }, msg: None, sig: None },
        ),
    decreases ms.len(),
{
    if ms.len() == 0 {
        assert(db.messages + ms =~= db.messages);
        assert(DbfDatabaseModel { messages: db.messages + ms, ..db } == db);
    } else {
        let w = ms.drop_last();
        let m = ms.last();
        assert forall|k: int| 0 <= k < w.len() implies message_carried(#[trigger] w[k]) by {
            assert(w[k] == ms[k]);
        }
        assert(message_carried(m)) by {
            assert(m == ms[ms.len() - 1]);
        }
        lemma_at_split(s, p, messages_text(w), message_text(m));
        lemma_messages(s, p, w, db);
        let db1 = DbfDatabaseModel { messages: db.messages + w, ..db };
        lemma_message_block(s, p + messages_text(w).len(), m, db1);
        assert((db.messages + w).push(m) =~= db.messages + ms);
    }
}

/// A plain line: the reader's view of it.
proof fn lemma_plain_line(s: Seq<char>, p: int, v: Seq<char>)
    requires
        at(s, p, v + "\n"@),
        v.len() > 0,
        forall|i: int| 0 <= i < v.len() ==> #[trigger] v[i] != '\n',
        !is_blank(v[0]),
    ensures
        blank_end(s, p) == p,
        s[p] == v[0],
        next_line(s, p) == p + v.len() + 1,
        line_text(s, p) == trim_spec(v),
        (v + "\n"@).len() == v.len() + 1,
{
    reveal_strlit("\n");
    let l = v + "\n"@;
    assert(s[p] == v[0]) by {
        lemma_at_index(s, p, l, 0);
    }
    assert forall|i: int| 0 <= i < v.len() implies #[trigger] s[p + i] == v[i] by {
        lemma_at_index(s, p, l, i);
    }
    assert(s[p + v.len()] == '\n') by {
        lemma_at_index(s, p, l, v.len() as int);
    }
    lemma_scan_run(s, p, 0, CharClass::Blank);
    assert forall|i: int| p <= i < p + v.len() implies in_class(CharClass::NotNewline, #[trigger] s[i]) by {
        assert(s[p + (i - p)] == v[i - p]);
    }
    lemma_scan_run(s, p, v.len() as int, CharClass::NotNewline);
    assert(s.subrange(p, p + v.len()) =~= v) by {
        assert forall|i: int| 0 <= i < v.len() implies s.subrange(p, p + v.len())[i] == v[i] by {
            assert(s[p + i] == v[i]);
        }
    }
}

/// The entry lines of a value table add their descriptions.
proof fn lemma_table_entries(
    s: Seq<char>,
    p: int,
    vals: Seq<DbfValueDescriptorModel>,
    acc: Seq<DbfValueDescriptorModel>,
)
    requires
        at(s, p, table_entry_lines(vals)),
        descriptors_fit(vals),
    ensures
        table_lines(s, p, acc) == table_lines(s, p + table_entry_lines(vals).len(), acc + vals),
    decreases vals.len(),
{
    if vals.len() == 0 {
        assert(acc + vals =~= acc);
    } else {
        let w = vals.drop_last();
        let d = vals.last();
        assert forall|k: int, i: int| 0 <= k < w.len() && 0 <= i < w[k].description.len() implies #[trigger] w[k].description[i]
            != '"' && w[k].description[i] != '\n' by {
            assert(w[k] == vals[k]);
        }
        assert forall|i: int| 0 <= i < d.description.len() implies #[trigger] d.description[i] != '"' && d.description[i] != '\n' by {
            assert(vals[vals.len() - 1].description[i] != '"');
        }
        let tw = table_entry_lines(w);
        let line = descriptor_text(d) + "\n"@;
        assert(table_entry_lines(vals) =~= tw + line);
        lemma_at_split(s, p, tw, line);
        lemma_table_entries(s, p, w, acc);
        let p1 = p + tw.len();
        lemma_descriptor_reads_back(d);
        lemma_plain_line(s, p1, descriptor_text(d));
        assert(table_step(s, p1, acc + w) == (p1 + line.len(), (acc + w).push(d), false));
        assert((acc + w).push(d) =~= acc + vals);
    }
}

proof fn lemma_end_table_line(s: Seq<char>, p: int, vals: Seq<DbfValueDescriptorModel>)
    requires
        at(s, p, "[END_TABLE]\n"@),
    ensures
        table_lines(s, p, vals) == (p + 12, vals),
{
    let tg = "END_TABLE"@;
    lemma_tag_names();
    assert("[END_TABLE]\n"@ == "["@ + tg + "]\n"@) by {
        reveal_strlit("[END_TABLE]\n");
        reveal_strlit("[");
        reveal_strlit("END_TABLE");
        reveal_strlit("]\n");
        assert("[END_TABLE]\n"@ =~= "["@ + tg + "]\n"@);
    }
    lemma_bare_tag_line(s, p, tg, DbfParseState { db: crate::dbf::empty_database(), msg: None, sig: None });
    assert(table_step(s, p, vals) == (p + 12, vals, true));
}

/// A value table the format can carry: a plain, non-empty name and
/// descriptions without quotes or line feeds.
pub open spec fn table_fits(tb: DbfValueTableModel) -> bool {
    &&& tb.name.len() > 0
    &&& plain_field(tb.name)
    &&& descriptors_fit(tb.values)
}

/// One value table's lines add the table.
#[verifier::rlimit(40)]
proof fn lemma_table(s: Seq<char>, p: int, tb: DbfValueTableModel, acc: Seq<DbfValueTableModel>)
    requires
        at(s, p, table_text(tb)),
        table_fits(tb),
    ensures
        p < s.len(),
        tables_step(s, p, acc) == (p + table_text(tb).len(), acc.push(tb), false),
{
    let tg = "START_TABLE"@;
    lemma_tag_names();
    let l1 = "["@ + tg + "] "@ + tb.name + "\n"@;
    let l2 = table_entry_lines(tb.values);
    let l3 = "[END_TABLE]\n"@;
    assert(table_text(tb) =~= l1 + l2 + l3) by {
        reveal_strlit("[START_TABLE] ");
        reveal_strlit("[");
        reveal_strlit("START_TABLE");
        reveal_strlit("] ");
        assert("[START_TABLE] "@ =~= "["@ + tg + "] "@);
    }
    lemma_at_split(s, p, l1 + l2, l3);
    lemma_at_split(s, p, l1, l2);
    lemma_tag_line(s, p, tg, tb.name, DbfParseState { db: crate::dbf::empty_database(), msg: None, sig: None });
    lemma_trim_id(tb.name);
    let a = p + l1.len();
    lemma_table_entries(s, a, tb.values, Seq::empty());
    assert(Seq::<DbfValueDescriptorModel>::empty() + tb.values =~= tb.values);
    lemma_end_table_line(s, a + l2.len(), tb.values);
    reveal_strlit("[");
    lemma_at_index(s, p, l1, 0);
    lemma_scan_run(s, p, 0, CharClass::Blank);
    assert(blank_end(s, p) == p);
    assert(s[p] == '[');
    assert(tg != "END_VALUE_TABLE"@);
    assert(read_tag_spec(s, p) == (p + 13, Some(tg)));
    assert(tag_value(s, p + 13) == (a, tb.name));
    assert(table_lines(s, a, Seq::empty()) == (a + l2.len() + 12, tb.values));
    assert(l3.len() == 12) by {
        reveal_strlit("[END_TABLE]\n");
    }
}

/// The value tables' lines add the tables, in order.
proof fn lemma_tables(s: Seq<char>, p: int, ts: Seq<DbfValueTableModel>, acc: Seq<DbfValueTableModel>)
    requires
        at(s, p, tables_text(ts)),
        forall|k: int| 0 <= k < ts.len() ==> table_fits(#[trigger] ts[k]),
    ensures
        tables_block(s, p, acc) == tables_block(s, p + tables_text(ts).len(), acc + ts),
    decreases ts.len(),
{
    if ts.len() == 0 {
        assert(acc + ts =~= acc);
    } else {
        let w = ts.drop_last();
        let tb = ts.last();
        assert forall|k: int| 0 <= k < w.len() implies table_fits(#[trigger] w[k]) by {
            assert(w[k] == ts[k]);
        }
        assert(table_fits(tb)) by {
            assert(tb == ts[ts.len() - 1]);
        }
        lemma_at_split(s, p, tables_text(w), table_text(tb));
        lemma_tables(s, p, w, acc);
        lemma_table(s, p + tables_text(w).len(), tb, acc + w);
        assert((acc + w).push(tb) =~= acc + ts);
    }
}

/// Inside the value table block: the line feed after its tag, the tables
/// and the closing tag.
#[verifier::rlimit(40)]
proof fn lemma_tables_block(s: Seq<char>, r: int, ts: Seq<DbfValueTableModel>, acc: Seq<DbfValueTableModel>)
    requires
        0 <= r < s.len(),
        s[r] == '\n',
        blank_end(s, r) == r,
        at(s, r + 1, tables_text(ts) + "[END_VALUE_TABLE]\n"@),
        forall|k: int| 0 <= k < ts.len() ==> table_fits(#[trigger] ts[k]),
    ensures
        tables_block(s, r, acc) == (r + 19 + tables_text(ts).len(), acc + ts),
{
    lemma_tag_names();
    let te = "END_VALUE_TABLE"@;
    let l3 = "[END_VALUE_TABLE]\n"@;
    assert(l3 == "["@ + te + "]\n"@) by {
        reveal_strlit("[END_VALUE_TABLE]\n");
        reveal_strlit("[");
        reveal_strlit("]\n");
        reveal_strlit("END_VALUE_TABLE");
        assert(l3 =~= "["@ + te + "]\n"@);
    }
    let l2 = tables_text(ts);
    lemma_at_split(s, r + 1, l2, l3);
    assert(tables_step(s, r, acc) == (r + 1, acc, false));
    lemma_tables(s, r + 1, ts, acc);
    let p3 = r + 1 + l2.len();
    lemma_bare_tag_line(s, p3, te, DbfParseState { db: crate::dbf::empty_database(), msg: None, sig: None });
    assert(tables_step(s, p3, acc + ts) == (p3 + 18, acc + ts, true));
}

/// The value table block adds its tables to the database.
#[verifier::rlimit(40)]
pub proof fn lemma_value_tables(s: Seq<char>, p: int, ts: Seq<DbfValueTableModel>, db: DbfDatabaseModel)
    requires
        at(s, p, "[START_VALUE_TABLE]\n"@ + tables_text(ts) + "[END_VALUE_TABLE]\n\n"@),
        forall|k: int| 0 <= k < ts.len() ==> table_fits(#[trigger] ts[k]),
    ensures
        run(s, p, DbfParseState { db, msg: None, sig: None }) == run(
            s,
            p + 39 + tables_text(ts).len(),
            DbfParseState { db: DbfDatabaseModel { value_tables: db.value_tables + ts, ..db }, msg: None, sig: None },
        ),
{
    lemma_tag_names();
    let tg = "START_VALUE_TABLE"@;
    let l1 = "[START_VALUE_TABLE]\n"@;
    let l2 = tables_text(ts);
    let l3 = "[END_VALUE_TABLE]\n"@;
    let l4 = "\n"@;
    assert(l1 == "["@ + tg + "]\n"@ && l4.len() == 1 && l3.len() == 18
        && "[END_VALUE_TABLE]\n\n"@ == l3 + l4) by {
        reveal_strlit("[START_VALUE_TABLE]\n");
        reveal_strlit("[END_VALUE_TABLE]\n\n");
        reveal_strlit("[END_VALUE_TABLE]\n");
        reveal_strlit("[");
        reveal_strlit("]\n");
        reveal_strlit("\n");
        reveal_strlit("START_VALUE_TABLE");
        assert(l1 =~= "["@ + tg + "]\n"@);
        assert("[END_VALUE_TABLE]\n\n"@ =~= l3 + l4);
    }
    assert(l1 + l2 + (l3 + l4) =~= l1 + (l2 + l3) + l4);
    lemma_at_split(s, p, l1 + (l2 + l3), l4);
    lemma_at_split(s, p, l1, l2 + l3);
    let st = DbfParseState { db, msg: None, sig: None };
    lemma_bare_tag_line(s, p, tg, st);
    let r = p + 19;
    lemma_tables_block(s, r, ts, db.value_tables);
    let e = r + 19 + l2.len();
    let st2 = DbfParseState { db: DbfDatabaseModel { value_tables: db.value_tables + ts, ..db }, msg: None, sig: None };
    assert(main_step(s, p, st) == Ok::<(int, DbfParseState), DbfFailure>((e, st2)));
    lemma_run_step(s, p, st, e, st2);
    lemma_empty_line(s, e, st2);
    lemma_run_step(s, e, st2, e + 1, st2);
}

// ---------------------------------------------------------------------------
// The header
// ---------------------------------------------------------------------------

/// The banner is a comment line and an empty line, which the reader skips.
#[verifier::rlimit(60)]
proof fn lemma_banner(s: Seq<char>, p: int, st: DbfParseState)
    requires
        0 <= p,
        at(s, p, crate::dbf::banner()),
    ensures
        crate::dbf::banner().len() == 106,
        run(s, p, st) == run(s, p + 106, st),
{
    let bl = "//******************************BUSMASTER Messages and signals Database ******************************//"@;
    reveal_strlit("//******************************BUSMASTER Messages and signals Database ******************************//");
    reveal_strlit("//******************************BUSMASTER Messages and signals Database ******************************//\n\n");
    reveal_strlit("//");
    reveal_strlit("\n\n");
    reveal_strlit("\n");
    assert(crate::dbf::banner() =~= bl + "\n\n"@);
    assert(bl.len() == 104);
    assert forall|i: int| 0 <= i < 104 implies #[trigger] bl[i] != '\n' by {}
    lemma_at_split(s, p, bl, "\n\n"@);
    assert("\n\n"@ =~= "\n"@ + "\n"@);
    lemma_at_split(s, p + 104, "\n"@, "\n"@);
    assert forall|i: int| p <= i < p + 104 implies in_class(CharClass::NotNewline, #[trigger] s[i]) by {
        lemma_at_index(s, p, bl, i - p);
    }
    lemma_at_index(s, p + 104, "\n"@, 0);
    lemma_scan_run(s, p, 104, CharClass::NotNewline);
    lemma_at_index(s, p, bl, 0);
    lemma_scan_run(s, p, 0, CharClass::Blank);
    assert(s.subrange(p, p + 2) =~= "//"@) by {
        lemma_at_index(s, p, bl, 1);
    }
    assert(crate::scan::tag_spec(s, p, "//"@) is Some);
    reveal(main_step);
    assert(main_step(s, p, st) == Ok::<(int, DbfParseState), DbfFailure>((p + 105, st)));
    lemma_run_step(s, p, st, p + 105, st);
    lemma_empty_line(s, p + 105, st);
    lemma_run_step(s, p + 105, st, p + 106, st);
}

/// The protocol's name reads back as the protocol.
proof fn lemma_protocol_reads_back(pr: crate::dbf::DbfProtocol)
    ensures
        crate::dbf::protocol_of_upper(crate::text::upper_text(trim_spec(crate::dbf::protocol_name(pr)))) == pr,
        crate::dbf::protocol_name(pr).len() > 0,
        trim_spec(crate::dbf::protocol_name(pr)) == crate::dbf::protocol_name(pr),
        !is_blank(crate::dbf::protocol_name(pr)[0]),
        forall|i: int| 0 <= i < crate::dbf::protocol_name(pr).len() ==> #[trigger] crate::dbf::protocol_name(pr)[i] != '\n',
{
    reveal_strlit("CAN");
    reveal_strlit("J1939");
    reveal_strlit("LIN");
    let n = crate::dbf::protocol_name(pr);
    lemma_trim_id(n);
    assert(crate::text::all_ascii(n));
    assert(crate::text::ascii_upper(n) =~= n);
    assert("CAN"@[0] != "LIN"@[0]);
}

/// A tag line and the empty line after it, read: the run goes on after
/// them with the tag's effect.
proof fn lemma_tag_line_run(
    s: Seq<char>,
    p: int,
    tag: Seq<char>,
    value: Seq<char>,
    st: DbfParseState,
    st2: DbfParseState,
)
    requires
        0 <= p,
        at(s, p, "["@ + tag + "] "@ + value + "\n\n"@),
        forall|i: int| 0 <= i < tag.len() ==> #[trigger] tag[i] != ']',
        forall|i: int| 0 <= i < value.len() ==> #[trigger] value[i] != '\n',
        value.len() > 0 ==> !is_blank(value[0]),
        tag_step(s, p + tag.len() + 2, tag, st) == Ok::<(int, DbfParseState), DbfFailure>(
            (p + tag.len() + 4 + value.len(), st2),
        ),
    ensures
        ("["@ + tag + "] "@ + value + "\n\n"@).len() == tag.len() + 5 + value.len(),
        run(s, p, st) == run(s, p + tag.len() + 5 + value.len(), st2),
{
    let l = "["@ + tag + "] "@ + value + "\n"@;
    reveal_strlit("\n\n");
    reveal_strlit("\n");
    reveal_strlit("[");
    reveal_strlit("] ");
    assert("["@ + tag + "] "@ + value + "\n\n"@ =~= l + "\n"@);
    lemma_at_split(s, p, l, "\n"@);
    lemma_tag_line(s, p, tag, value, st);
    let q = p + tag.len() + 4 + value.len();
    lemma_run_step(s, p, st, q, st2);
    lemma_empty_line(s, q, st2);
    lemma_run_step(s, q, st2, q + 1, st2);
}

/// The first and the last character of pieces joined with a separator.
proof fn lemma_join_ends(v: Seq<Seq<char>>, sep: Seq<char>)
    requires
        v.len() >= 1,
        forall|k: int| 0 <= k < v.len() ==> (#[trigger] v[k]).len() > 0,
    ensures
        join_spec(v, sep).len() > 0,
        join_spec(v, sep)[0] == v[0][0],
        join_spec(v, sep).last() == v.last().last(),
    decreases v.len(),
{
    if v.len() > 1 {
        let w = v.drop_last();
        assert forall|k: int| 0 <= k < w.len() implies (#[trigger] w[k]).len() > 0 by {
            assert(w[k] == v[k]);
        }
        lemma_join_ends(w, sep);
        assert(v.last() == v[v.len() - 1]);
        let j = join_spec(w, sep);
        assert(join_spec(v, sep) == j + sep + v.last());
        assert((j + sep + v.last())[0] == j[0]);
        assert(w[0] == v[0]);
    }
}

/// A version, a node name: the format carries it as a plain, non-empty
/// field.
pub open spec fn name_fits(t: Seq<char>) -> bool {
    t.len() > 0 && plain_field(t)
}

/// The header fields the format can carry: the versions and the node
/// names are plain, non-empty fields.
pub open spec fn header_fits(db: DbfDatabaseModel) -> bool {
    &&& name_fits(db.version)
    &&& name_fits(db.busmaster_version)
    &&& forall|k: int| 0 <= k < db.nodes.len() ==> name_fits(#[trigger] db.nodes[k])
}

/// The version with its brackets, as the writer puts it, loses them again.
proof fn lemma_brackets(bv: Seq<char>)
    requires
        name_fits(bv),
    ensures
        crate::dbf::trim_brackets("["@ + bv + "]"@) == bv,
        trim_spec("["@ + bv + "]"@) == "["@ + bv + "]"@,
        ("["@ + bv + "]"@).len() == bv.len() + 2,
        ("["@ + bv + "]"@)[0] == '[',
        forall|i: int| 0 <= i < ("["@ + bv + "]"@).len() ==> #[trigger] ("["@ + bv + "]"@)[i] != '\n',
{
    reveal_strlit("[");
    reveal_strlit("]");
    let t = "["@ + bv + "]"@;
    assert(t.drop_first() =~= bv + "]"@);
    assert((bv + "]"@).drop_last() =~= bv);
    assert(bv.last() == bv[bv.len() - 1]);
    assert((bv + "]"@)[0] == bv[0]);
    assert(crate::dbf::trim_brackets(bv) == bv);
    assert(crate::dbf::trim_brackets(bv + "]"@) == bv);
    assert(t.last() == ']');
    lemma_trim_id(t);
    assert forall|i: int| 0 <= i < t.len() implies #[trigger] t[i] != '\n' by {
        if 0 < i < t.len() - 1 {
            assert(t[i] == bv[i - 1]);
        }
    }
}

/// The `[DATABASE_VERSION]` line sets the version.
proof fn lemma_version_line(s: Seq<char>, p: int, v: Seq<char>, d0: DbfDatabaseModel)
    requires
        0 <= p,
        at(s, p, "[DATABASE_VERSION] "@ + v + "\n\n"@),
        name_fits(v),
    ensures
        ("[DATABASE_VERSION] "@ + v + "\n\n"@).len() == v.len() + 21,
        run(s, p, DbfParseState { db: d0, msg: None, sig: None }) == run(
            s,
            p + v.len() + 21,
            DbfParseState { db: DbfDatabaseModel { version: v, ..d0 }, msg: None, sig: None },
        ),
{
    lemma_tag_names();
    let tg = "DATABASE_VERSION"@;
    reveal_strlit("[DATABASE_VERSION] ");
    reveal_strlit("[");
    reveal_strlit("] ");
    reveal_strlit("DATABASE_VERSION");
    reveal_strlit("\n\n");
    reveal_strlit("\n");
    assert("[DATABASE_VERSION] "@ =~= "["@ + tg + "] "@);
    let t = "["@ + tg + "] "@ + v + "\n"@;
    assert("[DATABASE_VERSION] "@ + v + "\n\n"@ =~= t + "\n"@);
    lemma_at_split(s, p, t, "\n"@);
    lemma_trim_id(v);
    assert forall|i: int| 0 <= i < v.len() implies #[trigger] v[i] != '\n' by {}
    let st0 = DbfParseState { db: d0, msg: None, sig: None };
    lemma_tag_line(s, p, tg, v, st0);
    lemma_tag_line_run(s, p, tg, v, st0, DbfParseState { db: DbfDatabaseModel { version: v, ..d0 }, msg: None, sig: None });
}

/// The `[PROTOCOL]` line sets the protocol.
proof fn lemma_protocol_line(s: Seq<char>, p: int, pr: crate::dbf::DbfProtocol, d0: DbfDatabaseModel)
    requires
        0 <= p,
        at(s, p, "[PROTOCOL] "@ + crate::dbf::protocol_name(pr) + "\n\n"@),
    ensures
        ("[PROTOCOL] "@ + crate::dbf::protocol_name(pr) + "\n\n"@).len() == crate::dbf::protocol_name(pr).len() + 13,
        run(s, p, DbfParseState { db: d0, msg: None, sig: None }) == run(
            s,
            p + crate::dbf::protocol_name(pr).len() + 13,
            DbfParseState { db: DbfDatabaseModel { protocol: pr, ..d0 }, msg: None, sig: None },
        ),
{
    lemma_tag_names();
    let tg = "PROTOCOL"@;
    let v = crate::dbf::protocol_name(pr);
    reveal_strlit("[PROTOCOL] ");
    reveal_strlit("[");
    reveal_strlit("] ");
    reveal_strlit("PROTOCOL");
    reveal_strlit("\n\n");
    reveal_strlit("\n");
    assert("[PROTOCOL] "@ =~= "["@ + tg + "] "@);
    let t = "["@ + tg + "] "@ + v + "\n"@;
    assert("[PROTOCOL] "@ + v + "\n\n"@ =~= t + "\n"@);
    lemma_at_split(s, p, t, "\n"@);
    lemma_protocol_reads_back(pr);
    let st0 = DbfParseState { db: d0, msg: None, sig: None };
    lemma_tag_line(s, p, tg, v, st0);
    assert(tg != "DATABASE_VERSION"@);
    lemma_tag_line_run(s, p, tg, v, st0, DbfParseState { db: DbfDatabaseModel { protocol: pr, ..d0 }, msg: None, sig: None });
}

/// The `[BUSMASTER_VERSION]` line sets the BUSMASTER version.
proof fn lemma_busmaster_line(s: Seq<char>, p: int, bv: Seq<char>, d0: DbfDatabaseModel)
    requires
        0 <= p,
        at(s, p, "[BUSMASTER_VERSION] ["@ + bv + "]\n\n"@),
        name_fits(bv),
    ensures
        ("[BUSMASTER_VERSION] ["@ + bv + "]\n\n"@).len() == bv.len() + 24,
        run(s, p, DbfParseState { db: d0, msg: None, sig: None }) == run(
            s,
            p + bv.len() + 24,
            DbfParseState { db: DbfDatabaseModel { busmaster_version: bv, ..d0 }, msg: None, sig: None },
        ),
{
    lemma_tag_names();
    let tg = "BUSMASTER_VERSION"@;
    let v = "["@ + bv + "]"@;
    reveal_strlit("[BUSMASTER_VERSION] [");
    reveal_strlit("[");
    reveal_strlit("]");
    reveal_strlit("] ");
    reveal_strlit("]\n\n");
    reveal_strlit("BUSMASTER_VERSION");
    reveal_strlit("\n\n");
    reveal_strlit("\n");
    let t = "["@ + tg + "] "@ + v + "\n"@;
    assert("[BUSMASTER_VERSION] ["@ + bv + "]\n\n"@ =~= t + "\n"@);
    assert("[BUSMASTER_VERSION] ["@ + bv + "]\n\n"@ =~= "["@ + tg + "] "@ + v + "\n\n"@);
    lemma_at_split(s, p, t, "\n"@);
    lemma_brackets(bv);
    let st0 = DbfParseState { db: d0, msg: None, sig: None };
    lemma_tag_line(s, p, tg, v, st0);
    assert(tg != "DATABASE_VERSION"@ && tg != "PROTOCOL"@);
    lemma_tag_line_run(
        s,
        p,
        tg,
        v,
        st0,
        DbfParseState { db: DbfDatabaseModel { busmaster_version: bv, ..d0 }, msg: None, sig: None },
    );
}

/// The version lines set the versions and the protocol.
proof fn lemma_versions(s: Seq<char>, p: int, db: DbfDatabaseModel, d0: DbfDatabaseModel)
    requires
        0 <= p,
        at(s, p, crate::dbf::versions_text(db)),
        header_fits(db),
    ensures
        run(s, p, DbfParseState { db: d0, msg: None, sig: None }) == run(
            s,
            p + crate::dbf::versions_text(db).len(),
            DbfParseState {
                db: DbfDatabaseModel {
                    version: db.version,
                    protocol: db.protocol,
                    busmaster_version: db.busmaster_version,
                    ..d0
                },
                msg: None,
                sig: None,
            },
        ),
{
    let v = db.version;
    let pn = crate::dbf::protocol_name(db.protocol);
    let bv = db.busmaster_version;
    let t1 = "[DATABASE_VERSION] "@ + v + "\n\n"@;
    let t2 = "[PROTOCOL] "@ + pn + "\n\n"@;
    let t3 = "[BUSMASTER_VERSION] ["@ + bv + "]\n\n"@;
    assert(crate::dbf::versions_text(db) =~= t1 + t2 + t3);
    lemma_at_split(s, p, t1 + t2, t3);
    lemma_at_split(s, p, t1, t2);
    lemma_version_line(s, p, v, d0);
    let d1 = DbfDatabaseModel { version: v, ..d0 };
    lemma_protocol_line(s, p + t1.len(), db.protocol, d1);
    let d2 = DbfDatabaseModel { protocol: db.protocol, ..d1 };
    lemma_busmaster_line(s, p + t1.len() + t2.len(), bv, d2);
}

/// The `[NUMBER_OF_MESSAGES]` line changes nothing.
proof fn lemma_count_line(s: Seq<char>, p: int, n: nat, st: DbfParseState)
    requires
        0 <= p,
        at(s, p, "[NUMBER_OF_MESSAGES] "@ + dec_digits(n) + "\n\n"@),
    ensures
        ("[NUMBER_OF_MESSAGES] "@ + dec_digits(n) + "\n\n"@).len() == dec_digits(n).len() + 23,
        run(s, p, st) == run(s, p + dec_digits(n).len() + 23, st),
{
    lemma_tag_names();
    let tg = "NUMBER_OF_MESSAGES"@;
    let v = dec_digits(n);
    reveal_strlit("[NUMBER_OF_MESSAGES] ");
    reveal_strlit("[");
    reveal_strlit("] ");
    reveal_strlit("NUMBER_OF_MESSAGES");
    reveal_strlit("\n\n");
    reveal_strlit("\n");
    assert("[NUMBER_OF_MESSAGES] "@ =~= "["@ + tg + "] "@);
    let t = "["@ + tg + "] "@ + v + "\n"@;
    assert("[NUMBER_OF_MESSAGES] "@ + v + "\n\n"@ =~= t + "\n"@);
    lemma_at_split(s, p, t, "\n"@);
    lemma_dec_field(n, n);
    lemma_dec_digits(n, n);
    assert(!is_ws(v[0]));
    lemma_tag_line(s, p, tg, v, st);
    assert(tg != "DATABASE_VERSION"@ && tg != "PROTOCOL"@ && tg != "BUSMASTER_VERSION"@);
    lemma_tag_line_run(s, p, tg, v, st, st);
}

/// The `[NODE]` line adds the node names.
#[verifier::rlimit(40)]
proof fn lemma_node_line(s: Seq<char>, p: int, nodes: Seq<Seq<char>>, d0: DbfDatabaseModel)
    requires
        0 <= p,
        nodes.len() > 0,
        forall|k: int| 0 <= k < nodes.len() ==> name_fits(#[trigger] nodes[k]),
        at(s, p, "[NODE] "@ + join_spec(nodes, ","@) + "\n\n"@),
    ensures
        ("[NODE] "@ + join_spec(nodes, ","@) + "\n\n"@).len() == join_spec(nodes, ","@).len() + 9,
        run(s, p, DbfParseState { db: d0, msg: None, sig: None }) == run(
            s,
            p + join_spec(nodes, ","@).len() + 9,
            DbfParseState { db: DbfDatabaseModel { nodes: d0.nodes + nodes, ..d0 }, msg: None, sig: None },
        ),
{
    lemma_tag_names();
    reveal_strlit("NODE");
    let tg = "NODE"@;
    let v = join_spec(nodes, ","@);
    reveal_strlit("[NODE] ");
    reveal_strlit("[");
    reveal_strlit("] ");
    reveal_strlit("\n\n");
    reveal_strlit("\n");
    reveal_strlit(",");
    assert("[NODE] "@ =~= "["@ + tg + "] "@);
    let t = "["@ + tg + "] "@ + v + "\n"@;
    assert("[NODE] "@ + v + "\n\n"@ =~= t + "\n"@);
    lemma_at_split(s, p, t, "\n"@);
    assert forall|k: int| 0 <= k < nodes.len() implies (#[trigger] nodes[k]).len() > 0 && plain_field(nodes[k]) by {
        assert(name_fits(nodes[k]));
    }
    assert forall|k: int, i: int| 0 <= k < nodes.len() && 0 <= i < nodes[k].len() implies #[trigger] nodes[k][i] != '\n' by {
        assert(name_fits(nodes[k]));
    }
    assert forall|k: int, i: int| 0 <= k < nodes.len() && 0 <= i < nodes[k].len() implies #[trigger] nodes[k][i] != ',' by {
        assert(name_fits(nodes[k]));
    }
    lemma_join_without(nodes, ","@, '\n');
    lemma_join_ends(nodes, ","@);
    assert(name_fits(nodes[0]));
    assert(nodes.last() == nodes[nodes.len() - 1]);
    assert(name_fits(nodes.last()));
    assert(nodes.last().last() == nodes.last()[nodes.last().len() - 1]);
    lemma_trim_id(v);
    lemma_split_join(nodes);
    lemma_nonempty_trimmed_id(nodes);
    let st0 = DbfParseState { db: d0, msg: None, sig: None };
    lemma_tag_line(s, p, tg, v, st0);
    assert(tg != "DATABASE_VERSION"@ && tg != "PROTOCOL"@ && tg != "BUSMASTER_VERSION"@ && tg != "NUMBER_OF_MESSAGES"@);
    lemma_tag_line_run(
        s,
        p,
        tg,
        v,
        st0,
        DbfParseState { db: DbfDatabaseModel { nodes: d0.nodes + nodes, ..d0 }, msg: None, sig: None },
    );
}

// ---------------------------------------------------------------------------
// The whole text
// ---------------------------------------------------------------------------

/// A database the DBF format carries: plain, non-empty versions and node
/// names; messages, signals and value tables as the writer can put them;
/// and no parameters, comments or unprocessed lines, which the writer
/// leaves out.
pub open spec fn dbf_carried(db: DbfDatabaseModel) -> bool {
    &&& header_fits(db)
    &&& forall|k: int| 0 <= k < db.messages.len() ==> message_carried(#[trigger] db.messages[k])
    &&& forall|k: int| 0 <= k < db.value_tables.len() ==> table_fits(#[trigger] db.value_tables[k])
    &&& db.param_counts == (0nat, 0nat, 0nat, 0nat)
    &&& db.network_comments.len() == 0
    &&& db.node_comments.len() == 0
    &&& db.message_comments.len() == 0
    &&& db.signal_comments.len() == 0
    &&& db.not_processed.len() == 0
}

/// The header lines: the banner, the versions, the protocol, the message
/// count and the nodes.
#[verifier::rlimit(40)]
proof fn lemma_header(s: Seq<char>, db: DbfDatabaseModel)
    requires
        at(s, 0, crate::dbf::banner() + crate::dbf::versions_text(db) + crate::dbf::count_and_nodes_text(db)),
        header_fits(db),
    ensures
        run(s, 0, DbfParseState { db: crate::dbf::empty_database(), msg: None, sig: None }) == run(
            s,
            (crate::dbf::banner() + crate::dbf::versions_text(db) + crate::dbf::count_and_nodes_text(db)).len() as int,
            DbfParseState {
                db: DbfDatabaseModel {
                    version: db.version,
                    protocol: db.protocol,
                    busmaster_version: db.busmaster_version,
                    nodes: db.nodes,
                    ..crate::dbf::empty_database()
                },
                msg: None,
                sig: None,
            },
        ),
{
    let e = crate::dbf::empty_database();
    let h1 = crate::dbf::banner();
    let h2 = crate::dbf::versions_text(db);
    let h3 = "[NUMBER_OF_MESSAGES] "@ + dec_digits(db.messages.len()) + "\n\n"@;
    let h4 = if db.nodes.len() == 0 {
        Seq::<char>::empty()
    } else {
        "[NODE] "@ + join_spec(db.nodes, ","@) + "\n\n"@
    };
    assert(crate::dbf::count_and_nodes_text(db) =~= h3 + h4);
    assert(h1 + h2 + (h3 + h4) =~= h1 + h2 + h3 + h4);
    lemma_at_split(s, 0, h1 + h2 + h3, h4);
    lemma_at_split(s, 0, h1 + h2, h3);
    lemma_at_split(s, 0, h1, h2);
    lemma_banner(s, 0, DbfParseState { db: e, msg: None, sig: None });
    lemma_versions(s, h1.len() as int, db, e);
    let d1 = DbfDatabaseModel {
        version: db.version,
        protocol: db.protocol,
        busmaster_version: db.busmaster_version,
        ..e
    };
    let st1 = DbfParseState { db: d1, msg: None, sig: None };
    lemma_count_line(s, (h1.len() + h2.len()) as int, db.messages.len(), st1);
    if db.nodes.len() > 0 {
        lemma_node_line(s, (h1.len() + h2.len() + h3.len()) as int, db.nodes, d1);
        assert(d1.nodes + db.nodes =~= db.nodes);
    } else {
        assert(d1.nodes =~= db.nodes);
    }
}

/// Writing a database the DBF format carries and reading the text back
/// gives the same database.
#[verifier::rlimit(60)]
pub proof fn lemma_generate_parse(db: DbfDatabaseModel)
    requires
        dbf_carried(db),
    ensures
        crate::dbf::dbf_spec(crate::dbf::generate_spec(db)) == Ok::<DbfDatabaseModel, DbfFailure>(db),
{
    let s = crate::dbf::generate_spec(db);
    let h = crate::dbf::banner() + crate::dbf::versions_text(db) + crate::dbf::count_and_nodes_text(db);
    let mt = messages_text(db.messages);
    let vt = crate::dbf::value_tables_text(db);
    assert(s =~= h + mt + vt);
    assert(at(s, 0, s)) by {
        assert(s.subrange(0, s.len() as int) =~= s);
    }
    lemma_at_split(s, 0, h + mt, vt);
    lemma_at_split(s, 0, h, mt);
    lemma_header(s, db);
    let e = crate::dbf::empty_database();
    let d1 = DbfDatabaseModel {
        version: db.version,
        protocol: db.protocol,
        busmaster_version: db.busmaster_version,
        nodes: db.nodes,
        ..e
    };
    lemma_messages(s, h.len() as int, db.messages, d1);
    assert(d1.messages + db.messages =~= db.messages);
    let d2 = DbfDatabaseModel { messages: db.messages, ..d1 };
    let p2 = (h.len() + mt.len()) as int;
    let d3 = DbfDatabaseModel { value_tables: db.value_tables, ..d2 };
    let st3 = DbfParseState { db: d3, msg: None, sig: None };
    if db.value_tables.len() > 0 {
        lemma_value_tables(s, p2, db.value_tables, d2);
        assert(d2.value_tables + db.value_tables =~= db.value_tables);
        reveal_strlit("[START_VALUE_TABLE]\n");
        reveal_strlit("[END_VALUE_TABLE]\n\n");
        assert(vt.len() == 39 + tables_text(db.value_tables).len());
    } else {
        assert(d2.value_tables =~= db.value_tables);
        assert(d3 == d2);
    }
    assert(run(s, s.len() as int, st3) == Ok::<DbfParseState, DbfFailure>(st3));
    assert(d3.network_comments =~= db.network_comments);
    assert(d3.node_comments =~= db.node_comments);
    assert(d3.message_comments =~= db.message_comments);
    assert(d3.signal_comments =~= db.signal_comments);
    assert(d3.not_processed =~= db.not_processed);
    assert(d3 == db);
}

} // verus!
