//! Writing A2L (ASAM MCD-2 MC) text from a database.
//!
//! The text of each block is a spec function of the block's model; decimal
//! fractions are written as the text they hold.
use vstd::prelude::*;
use crate::a2l::{
    a2l_data_type_of_upper,
    A2lAxisDescr, A2lAxisPts, A2lByteOrder, A2lCharacteristic, A2lCompuMethod, A2lDataType, A2lDatabase,
    A2lDatabaseModel, A2lFunction, A2lGroup, A2lMeasurement, A2lModCommon, A2lModule, A2lRecordLayout,
    AxisDescrModel, AxisPtsModel, AxisType, CharacteristicModel, CharacteristicType, CompuMethodModel,
    CoeffsModel, CompuMethodType, FunctionModel, GroupModel, HeaderModel, MeasurementModel, ModCommonModel, ModuleModel,
    RecordLayoutModel,
};
use crate::text::{all_ascii, ascii_upper, dec_digits, hex_digits, push_char, push_dec, push_hex, push_str};

verus! {

broadcast use vstd::string::group_string_axioms;

// ---------------------------------------------------------------------------
// Pieces
// ---------------------------------------------------------------------------

/// The upper-case hexadecimal digits of `n`, padded with zeros to eight.
pub open spec fn hex8(n: u64) -> Seq<char> {
    let h = hex_digits(n as nat);
    if h.len() < 8 {
        Seq::new((8 - h.len()) as nat, |i: int| '0') + h
    } else {
        h
    }
}

/// The name of a data type in A2L text.
pub open spec fn data_type_name(t: A2lDataType) -> Seq<char> {
    match t {
        A2lDataType::UByte => "UBYTE"@,
        A2lDataType::SByte => "SBYTE"@,
        A2lDataType::UWord => "UWORD"@,
        A2lDataType::SWord => "SWORD"@,
        A2lDataType::ULong => "ULONG"@,
        A2lDataType::SLong => "SLONG"@,
        A2lDataType::AUint64 => "A_UINT64"@,
        A2lDataType::AInt64 => "A_INT64"@,
        A2lDataType::Float32Ieee => "FLOAT32_IEEE"@,
        A2lDataType::Float64Ieee => "FLOAT64_IEEE"@,
    }
}

/// The name of a conversion type in A2L text.
pub open spec fn conversion_name(c: CompuMethodType) -> Seq<char> {
    match c {
        CompuMethodType::Identical => "IDENTICAL"@,
        CompuMethodType::Linear => "LINEAR"@,
        CompuMethodType::RatFunc => "RAT_FUNC"@,
        CompuMethodType::TabIntp => "TAB_INTP"@,
        CompuMethodType::TabNoIntp => "TAB_NOINTP"@,
        CompuMethodType::TabVerb => "TAB_VERB"@,
        CompuMethodType::Form => "FORM"@,
    }
}

/// The name of a characteristic type in A2L text.
pub open spec fn characteristic_type_name(c: CharacteristicType) -> Seq<char> {
    match c {
        CharacteristicType::Value => "VALUE"@,
        CharacteristicType::Ascii => "ASCII"@,
        CharacteristicType::ValBlk => "VAL_BLK"@,
        CharacteristicType::Curve => "CURVE"@,
        CharacteristicType::Map2d => "MAP"@,
        CharacteristicType::Cuboid => "CUBOID"@,
        CharacteristicType::Cube4 => "CUBE_4"@,
        CharacteristicType::Cube5 => "CUBE_5"@,
    }
}

/// The name of an axis type in A2L text.
pub open spec fn axis_type_name(a: AxisType) -> Seq<char> {
    match a {
        AxisType::StdAxis => "STD_AXIS"@,
        AxisType::FixAxis => "FIX_AXIS"@,
        AxisType::ComAxis => "COM_AXIS"@,
        AxisType::CurveAxis => "CURVE_AXIS"@,
        AxisType::ResAxis => "RES_AXIS"@,
    }
}

/// `t` when `b` holds, else nothing.
pub open spec fn when(b: bool, t: Seq<char>) -> Seq<char> {
    if b {
        t
    } else {
        Seq::empty()
    }
}

/// The text of each item, one after the other.
pub open spec fn each<T>(v: Seq<T>, f: spec_fn(T) -> Seq<char>) -> Seq<char>
    decreases v.len(),
{
    if v.len() == 0 {
        Seq::empty()
    } else {
        each(v.drop_last(), f) + f(v.last())
    }
}

proof fn lemma_each_step<T>(v: Seq<T>, f: spec_fn(T) -> Seq<char>, i: int)
    requires
        0 <= i < v.len(),
    ensures
        each(v.take(i + 1), f) == each(v.take(i), f) + f(v[i]),
{
    assert(v.take(i + 1).drop_last() =~= v.take(i));
}

/// One line of a list of names.
pub open spec fn name_line() -> spec_fn(Seq<char>) -> Seq<char> {
    |t: Seq<char>| "        "@ + t + "\n"@
}

/// A list block of names under `kw`, unless the list is empty.
pub open spec fn list_text(kw: Seq<char>, v: Seq<Seq<char>>) -> Seq<char> {
    when(v.len() > 0, "      /begin "@ + kw + "\n"@ + each(v, name_line()) + "      /end "@ + kw + "\n"@)
}

// ---------------------------------------------------------------------------
// Blocks
// ---------------------------------------------------------------------------

/// The first line of a computation method.
pub open spec fn compu_method_head(c: CompuMethodModel) -> Seq<char> {
    "    /begin COMPU_METHOD "@ + c.name + " \""@ + c.long_identifier + "\" "@ + conversion_name(c.conversion_type)
        + " \""@ + c.format + "\" \""@ + c.unit + "\"\n"@
}

/// The `COEFFS_LINEAR` line of a computation method, if it has one.
pub open spec fn coeffs_linear_line(o: Option<(Seq<char>, Seq<char>)>) -> Seq<char> {
    match o {
        Some((a, b)) => "      COEFFS_LINEAR "@ + a + " "@ + b + "\n"@,
        None => Seq::empty(),
    }
}

/// The `COEFFS` line of a computation method, if it has one.
pub open spec fn coeffs_line(o: Option<CoeffsModel>) -> Seq<char> {
    match o {
        Some((a, b, x, d, e, f)) => "      COEFFS "@ + a + " "@ + b + " "@ + x + " "@ + d + " "@ + e + " "@ + f
            + "\n"@,
        None => Seq::empty(),
    }
}

/// A line `prefix` + value + `suffix`, if there is a value.
pub open spec fn opt_line(prefix: Seq<char>, o: Option<Seq<char>>, suffix: Seq<char>) -> Seq<char> {
    match o {
        Some(t) => prefix + t + suffix,
        None => Seq::empty(),
    }
}

/// The text of a computation method.
pub open spec fn compu_method_text(c: CompuMethodModel) -> Seq<char> {
    compu_method_head(c) + coeffs_linear_line(c.coeffs_linear) + coeffs_line(c.coeffs) + opt_line(
        "      COMPU_TAB_REF "@,
        c.compu_tab_ref,
        "\n"@,
    ) + "    /end COMPU_METHOD\n\n"@
}

/// The text of a record layout.
pub open spec fn record_layout_text(r: RecordLayoutModel) -> Seq<char> {
    "    /begin RECORD_LAYOUT "@ + r.name + "\n"@ + match r.fnc_values {
        Some(f) => "      FNC_VALUES "@ + dec_digits(f.position as nat) + " "@ + data_type_name(f.data_type) + " "@
            + f.index_mode + " "@ + f.address_type + "\n"@,
        None => Seq::empty(),
    } + when(r.static_record_layout, "      STATIC_RECORD_LAYOUT\n"@) + "    /end RECORD_LAYOUT\n\n"@
}

/// The first part of a measurement's first line.
pub open spec fn measurement_head(m: MeasurementModel) -> Seq<char> {
    "    /begin MEASUREMENT "@ + m.name + " \""@ + m.long_identifier + "\" "@ + data_type_name(m.data_type) + " "@
        + m.compu_method
}

/// The numbers that end a measurement's first line.
pub open spec fn measurement_numbers(m: MeasurementModel) -> Seq<char> {
    " "@ + m.resolution + " "@ + m.accuracy + " "@ + m.lower_limit + " "@ + m.upper_limit + "\n"@
}

/// An `ECU_ADDRESS` line, if there is an address.
pub open spec fn address_line(o: Option<u64>) -> Seq<char> {
    match o {
        Some(a) => "      ECU_ADDRESS 0x"@ + hex8(a) + "\n"@,
        None => Seq::empty(),
    }
}

/// The text of a measurement.
pub open spec fn measurement_text(m: MeasurementModel) -> Seq<char> {
    measurement_head(m) + measurement_numbers(m) + address_line(m.ecu_address) + opt_line(
        "      FORMAT \""@,
        m.format,
        "\"\n"@,
    ) + opt_line("      PHYS_UNIT \""@, m.phys_unit, "\"\n"@) + when(m.read_write, "      READ_WRITE\n"@)
        + "    /end MEASUREMENT\n\n"@
}

/// The text of an axis description.
pub open spec fn axis_descr_text(a: AxisDescrModel) -> Seq<char> {
    "      /begin AXIS_DESCR "@ + axis_type_name(a.axis_type) + " "@ + a.input_quantity + " "@ + a.compu_method
        + " "@ + dec_digits(a.max_axis_points as nat) + " "@ + a.lower_limit + " "@ + a.upper_limit + "\n"@
        + match a.axis_pts_ref {
        Some(r) => "        AXIS_PTS_REF "@ + r + "\n"@,
        None => Seq::empty(),
    } + "      /end AXIS_DESCR\n"@
}

/// The text of each axis description.
pub open spec fn axis_descr_texts() -> spec_fn(AxisDescrModel) -> Seq<char> {
    |a: AxisDescrModel| axis_descr_text(a)
}

/// The first part of a characteristic's first line.
pub open spec fn characteristic_head(c: CharacteristicModel) -> Seq<char> {
    "    /begin CHARACTERISTIC "@ + c.name + " \""@ + c.long_identifier + "\" "@ + characteristic_type_name(
        c.char_type,
    ) + " 0x"@ + hex8(c.address)
}

/// The rest of a characteristic's first line.
pub open spec fn characteristic_numbers(c: CharacteristicModel) -> Seq<char> {
    " "@ + c.record_layout + " "@ + c.max_diff + " "@ + c.compu_method + " "@ + c.lower_limit + " "@
        + c.upper_limit + "\n"@
}

/// The text of a characteristic.
pub open spec fn characteristic_text(c: CharacteristicModel) -> Seq<char> {
    characteristic_head(c) + characteristic_numbers(c) + opt_line("      FORMAT \""@, c.format, "\"\n"@) + when(
        c.read_only,
        "      READ_ONLY\n"@,
    ) + each(c.axis_descr, axis_descr_texts()) + "    /end CHARACTERISTIC\n\n"@
}

/// The first part of the first line of axis points.
pub open spec fn axis_pts_head(a: AxisPtsModel) -> Seq<char> {
    "    /begin AXIS_PTS "@ + a.name + " \""@ + a.long_identifier + "\" 0x"@ + hex8(a.address) + " "@
        + a.input_quantity + " "@ + a.record_layout
}

/// The rest of the first line of axis points.
pub open spec fn axis_pts_numbers(a: AxisPtsModel) -> Seq<char> {
    " "@ + a.max_diff + " "@ + a.compu_method + " "@ + dec_digits(a.max_axis_points as nat) + " "@
        + a.lower_limit + " "@ + a.upper_limit + "\n"@
}

/// The text of axis points.
pub open spec fn axis_pts_text(a: AxisPtsModel) -> Seq<char> {
    axis_pts_head(a) + axis_pts_numbers(a) + when(a.read_only, "      READ_ONLY\n"@) + "    /end AXIS_PTS\n\n"@
}

/// The text of a function block.
pub open spec fn function_text(f: FunctionModel) -> Seq<char> {
    "    /begin FUNCTION "@ + f.name + " \""@ + f.long_identifier + "\"\n"@ + list_text(
        "DEF_CHARACTERISTIC"@,
        f.def_characteristic,
    ) + list_text("IN_MEASUREMENT"@, f.in_measurement) + list_text("OUT_MEASUREMENT"@, f.out_measurement)
        + "    /end FUNCTION\n\n"@
}

/// The text of a group.
pub open spec fn group_text(g: GroupModel) -> Seq<char> {
    "    /begin GROUP "@ + g.name + " \""@ + g.long_identifier + "\"\n"@ + when(g.root, "      ROOT\n"@)
        + list_text("REF_CHARACTERISTIC"@, g.ref_characteristic) + list_text(
        "REF_MEASUREMENT"@,
        g.ref_measurement,
    ) + "    /end GROUP\n\n"@
}

/// The `BYTE_ORDER` line of the common module parameters, if a byte order
/// is given.
pub open spec fn byte_order_line(o: Option<A2lByteOrder>) -> Seq<char> {
    match o {
        Some(A2lByteOrder::BigEndian) => "      BYTE_ORDER MSB_FIRST\n"@,
        Some(A2lByteOrder::LittleEndian) => "      BYTE_ORDER LSB_FIRST\n"@,
        None => Seq::empty(),
    }
}

/// The text of the common module parameters, if there are any.
pub open spec fn mod_common_text(o: Option<ModCommonModel>) -> Seq<char> {
    match o {
        None => Seq::empty(),
        Some(mc) => "    /begin MOD_COMMON\n"@ + "      \""@ + mc.comment + "\"\n"@ + byte_order_line(mc.byte_order) + match mc.data_size {
            Some(d) => "      DATA_SIZE "@ + dec_digits(d as nat) + "\n"@,
            None => Seq::empty(),
        } + "    /end MOD_COMMON\n\n"@,
    }
}

/// The blocks of a module: computation methods, record layouts,
/// measurements, characteristics, axis points, functions and groups.
pub open spec fn module_items(m: ModuleModel) -> Seq<char> {
    each(m.compu_methods, compu_method_texts()) + each(m.record_layouts, record_layout_texts()) + each(
        m.measurements,
        measurement_texts(),
    ) + each(m.characteristics, characteristic_texts()) + each(m.axis_pts, axis_pts_texts()) + each(
        m.functions,
        function_texts(),
    ) + each(m.groups, group_texts())
}

/// The first line of a module.
pub open spec fn module_head(m: ModuleModel) -> Seq<char> {
    "  /begin MODULE "@ + m.name + " \""@ + m.long_identifier + "\"\n\n"@
}

/// The text of a module: its common parameters, then its blocks.
#[verifier::opaque]
pub open spec fn module_text(m: ModuleModel) -> Seq<char> {
    module_head(m) + mod_common_text(m.mod_common) + module_items(m) + "  /end MODULE\n\n"@
}

/// The text of a project header, if there is one.
pub open spec fn header_text(o: Option<HeaderModel>) -> Seq<char> {
    match o {
        None => Seq::empty(),
        Some(h) => "  /begin HEADER\n"@ + "    \""@ + h.comment + "\"\n"@ + match h.project_no {
            Some(p) => "    PROJECT_NO "@ + p + "\n"@,
            None => Seq::empty(),
        } + match h.version {
            Some(v) => "    VERSION \""@ + v + "\"\n"@,
            None => Seq::empty(),
        } + "  /end HEADER\n\n"@,
    }
}

/// The text of each compu method.
pub open spec fn compu_method_texts() -> spec_fn(CompuMethodModel) -> Seq<char> {
    |c: CompuMethodModel| compu_method_text(c)
}

/// The text of each record layout.
pub open spec fn record_layout_texts() -> spec_fn(RecordLayoutModel) -> Seq<char> {
    |r: RecordLayoutModel| record_layout_text(r)
}

/// The text of each measurement.
pub open spec fn measurement_texts() -> spec_fn(MeasurementModel) -> Seq<char> {
    |x: MeasurementModel| measurement_text(x)
}

/// The text of each characteristic.
pub open spec fn characteristic_texts() -> spec_fn(CharacteristicModel) -> Seq<char> {
    |c: CharacteristicModel| characteristic_text(c)
}

/// The text of each axis pts.
pub open spec fn axis_pts_texts() -> spec_fn(AxisPtsModel) -> Seq<char> {
    |a: AxisPtsModel| axis_pts_text(a)
}

/// The text of each function.
pub open spec fn function_texts() -> spec_fn(FunctionModel) -> Seq<char> {
    |f: FunctionModel| function_text(f)
}

/// The text of each group.
pub open spec fn group_texts() -> spec_fn(GroupModel) -> Seq<char> {
    |g: GroupModel| group_text(g)
}

/// The text of each module.
pub open spec fn module_texts() -> spec_fn(ModuleModel) -> Seq<char> {
    |m: ModuleModel| module_text(m)
}

/// The version lines of a database.
pub open spec fn versions_text(db: A2lDatabaseModel) -> Seq<char> {
    "ASAP2_VERSION "@ + dec_digits(db.asap2_version.major as nat) + " "@ + dec_digits(
        db.asap2_version.minor as nat,
    ) + "\n\n"@ + match db.a2ml_version {
        Some(v) => "A2ML_VERSION "@ + dec_digits(v.major as nat) + " "@ + dec_digits(v.minor as nat) + "\n\n"@,
        None => Seq::empty(),
    }
}

/// The first line of the project.
pub open spec fn project_head(db: A2lDatabaseModel) -> Seq<char> {
    "/begin PROJECT "@ + db.project.name + " \""@ + db.project.long_identifier + "\"\n"@
}

/// The A2L text of a database: the versions, then the project with its
/// header and modules.
pub open spec fn database_text(db: A2lDatabaseModel) -> Seq<char> {
    versions_text(db) + project_head(db) + header_text(db.project.header) + each(db.project.modules, module_texts())
        + "/end PROJECT\n"@
}

// ---------------------------------------------------------------------------
// Writing
// ---------------------------------------------------------------------------

/// Appends `n` in upper-case hexadecimal, padded with zeros to eight digits.
fn push_hex8(out: &mut String, n: u64)
    ensures
        final(out)@ == old(out)@ + hex8(n),
{
    let mut h = String::new();
    push_hex(&mut h, n);
    let digits = crate::text::chars_of(h.as_str());
    assert(digits@ =~= hex_digits(n as nat));
    let k = digits.len();
    let zeros: usize = if k < 8 { 8 - k } else { 0 };
    let ghost start = out@;
    let mut i: usize = 0;
    while i < zeros
        invariant
            k == hex_digits(n as nat).len(),
            zeros == (if k < 8 { 8 - k } else { 0 }),
            i <= zeros,
            out@ == start + Seq::new(i as nat, |j: int| '0'),
        decreases zeros - i,
    {
        push_char(out, '0');
        proof {
            assert(Seq::new((i + 1) as nat, |j: int| '0') =~= Seq::new(i as nat, |j: int| '0').push('0'));
        }
        i += 1;
    }
    push_str(out, h.as_str());
    proof {
        if k >= 8 {
            assert(Seq::new(i as nat, |j: int| '0') =~= Seq::<char>::empty());
        }
        assert(out@ =~= start + hex8(n));
    }
}

/// The name of a data type.
fn data_type_str(t: A2lDataType) -> (r: &'static str)
    ensures
        r@ == data_type_name(t),
{
    match t {
        A2lDataType::UByte => "UBYTE",
        A2lDataType::SByte => "SBYTE",
        A2lDataType::UWord => "UWORD",
        A2lDataType::SWord => "SWORD",
        A2lDataType::ULong => "ULONG",
        A2lDataType::SLong => "SLONG",
        A2lDataType::AUint64 => "A_UINT64",
        A2lDataType::AInt64 => "A_INT64",
        A2lDataType::Float32Ieee => "FLOAT32_IEEE",
        A2lDataType::Float64Ieee => "FLOAT64_IEEE",
    }
}

/// The name of a conversion type.
fn conversion_str(c: CompuMethodType) -> (r: &'static str)
    ensures
        r@ == conversion_name(c),
{
    match c {
        CompuMethodType::Identical => "IDENTICAL",
        CompuMethodType::Linear => "LINEAR",
        CompuMethodType::RatFunc => "RAT_FUNC",
        CompuMethodType::TabIntp => "TAB_INTP",
        CompuMethodType::TabNoIntp => "TAB_NOINTP",
        CompuMethodType::TabVerb => "TAB_VERB",
        CompuMethodType::Form => "FORM",
    }
}

/// The name of a characteristic type.
fn characteristic_type_str(c: CharacteristicType) -> (r: &'static str)
    ensures
        r@ == characteristic_type_name(c),
{
    match c {
        CharacteristicType::Value => "VALUE",
        CharacteristicType::Ascii => "ASCII",
        CharacteristicType::ValBlk => "VAL_BLK",
        CharacteristicType::Curve => "CURVE",
        CharacteristicType::Map2d => "MAP",
        CharacteristicType::Cuboid => "CUBOID",
        CharacteristicType::Cube4 => "CUBE_4",
        CharacteristicType::Cube5 => "CUBE_5",
    }
}

/// The name of an axis type.
fn axis_type_str(a: AxisType) -> (r: &'static str)
    ensures
        r@ == axis_type_name(a),
{
    match a {
        AxisType::StdAxis => "STD_AXIS",
        AxisType::FixAxis => "FIX_AXIS",
        AxisType::ComAxis => "COM_AXIS",
        AxisType::CurveAxis => "CURVE_AXIS",
        AxisType::ResAxis => "RES_AXIS",
    }
}

/// Appends a list block of names under `kw`, unless the list is empty.
fn push_list(out: &mut String, kw: &str, v: &Vec<String>)
    ensures
        final(out)@ == old(out)@ + list_text(kw@, crate::a2l::texts(v@)),
{
    let ghost names = crate::a2l::texts(v@);
    if v.len() == 0 {
        return;
    }
    push_str(out, "      /begin ");
    push_str(out, kw);
    push_str(out, "\n");
    let ghost start = out@;
    let mut i: usize = 0;
    while i < v.len()
        invariant
            i <= v.len(),
            names == crate::a2l::texts(v@),
            out@ == start + each(names.take(i as int), name_line()),
        decreases v.len() - i,
    {
        proof {
            lemma_each_step(names, name_line(), i as int);
        }
        push_str(out, "        ");
        push_str(out, v[i].as_str());
        push_str(out, "\n");
        i += 1;
        assert(out@ =~= start + each(names.take(i as int), name_line()));
    }
    proof {
        assert(names.take(v.len() as int) =~= names);
    }
    push_str(out, "      /end ");
    push_str(out, kw);
    push_str(out, "\n");
    assert(out@ =~= old(out)@ + list_text(kw@, names));
}


/// Appends the text of a record layout.
fn generate_record_layout(out: &mut String, rl: &A2lRecordLayout)
    ensures
        final(out)@ == old(out)@ + record_layout_text(rl@),
{
    push_str(out, "    /begin RECORD_LAYOUT ");
    push_str(out, rl.name.as_str());
    push_str(out, "\n");
    if let Some(fnc) = &rl.fnc_values {
        push_str(out, "      FNC_VALUES ");
        push_dec(out, fnc.position as u64);
        push_str(out, " ");
        push_str(out, data_type_str(fnc.data_type));
        push_str(out, " ");
        push_str(out, fnc.index_mode.as_str());
        push_str(out, " ");
        push_str(out, fnc.address_type.as_str());
        push_str(out, "\n");
    }
    if rl.static_record_layout {
        push_str(out, "      STATIC_RECORD_LAYOUT\n");
    }
    push_str(out, "    /end RECORD_LAYOUT\n\n");
    assert(out@ =~= old(out)@ + record_layout_text(rl@));
}


/// Appends the text of an axis description.
fn generate_axis_descr(out: &mut String, axis: &A2lAxisDescr)
    ensures
        final(out)@ == old(out)@ + axis_descr_text(axis@),
{
    push_str(out, "      /begin AXIS_DESCR ");
    push_str(out, axis_type_str(axis.axis_type));
    push_str(out, " ");
    push_str(out, axis.input_quantity.as_str());
    push_str(out, " ");
    push_str(out, axis.compu_method.as_str());
    push_str(out, " ");
    push_dec(out, axis.max_axis_points as u64);
    push_str(out, " ");
    push_str(out, axis.lower_limit.as_str());
    push_str(out, " ");
    push_str(out, axis.upper_limit.as_str());
    push_str(out, "\n");
    if let Some(r) = &axis.axis_pts_ref {
        push_str(out, "        AXIS_PTS_REF ");
        push_str(out, r.as_str());
        push_str(out, "\n");
    }
    push_str(out, "      /end AXIS_DESCR\n");
    assert(out@ =~= old(out)@ + axis_descr_text(axis@));
}



/// Appends `prefix`, the value and `suffix`, if there is a value.
fn push_opt_line(out: &mut String, prefix: &str, o: &Option<String>, suffix: &str)
    ensures
        final(out)@ == old(out)@ + opt_line(prefix@, crate::a2l::opt_text(*o), suffix@),
{
    if let Some(t) = o {
        push_str(out, prefix);
        push_str(out, t.as_str());
        push_str(out, suffix);
        assert(out@ =~= old(out)@ + opt_line(prefix@, crate::a2l::opt_text(*o), suffix@));
    } else {
        assert(out@ =~= old(out)@ + Seq::<char>::empty());
    }
}

/// Appends `t` if `b` holds.
fn push_when(out: &mut String, b: bool, t: &str)
    ensures
        final(out)@ == old(out)@ + when(b, t@),
{
    if b {
        push_str(out, t);
    } else {
        assert(out@ =~= old(out)@ + Seq::<char>::empty());
    }
}

fn push_compu_method_head(out: &mut String, cm: &A2lCompuMethod)
    ensures
        final(out)@ == old(out)@ + compu_method_head(cm@),
{
    push_str(out, "    /begin COMPU_METHOD ");
    push_str(out, cm.name.as_str());
    push_str(out, " \"");
    push_str(out, cm.long_identifier.as_str());
    push_str(out, "\" ");
    push_str(out, conversion_str(cm.conversion_type));
    push_str(out, " \"");
    push_str(out, cm.format.as_str());
    push_str(out, "\" \"");
    push_str(out, cm.unit.as_str());
    push_str(out, "\"\n");
    assert(out@ =~= old(out)@ + compu_method_head(cm@));
}

fn push_coeffs_linear(out: &mut String, o: &Option<(String, String)>)
    ensures
        final(out)@ == old(out)@ + coeffs_linear_line(crate::a2l::opt_pair(*o)),
{
    if let Some((a, b)) = o {
        push_str(out, "      COEFFS_LINEAR ");
        push_str(out, a.as_str());
        push_str(out, " ");
        push_str(out, b.as_str());
        push_str(out, "\n");
        assert(out@ =~= old(out)@ + coeffs_linear_line(crate::a2l::opt_pair(*o)));
    } else {
        assert(out@ =~= old(out)@ + Seq::<char>::empty());
    }
}

fn push_coeffs(out: &mut String, cm: &A2lCompuMethod)
    ensures
        final(out)@ == old(out)@ + coeffs_line(cm@.coeffs),
{
    if let Some((a, b, c, d, e, f)) = &cm.coeffs {
        push_str(out, "      COEFFS ");
        push_str(out, a.as_str());
        push_str(out, " ");
        push_str(out, b.as_str());
        push_str(out, " ");
        push_str(out, c.as_str());
        push_str(out, " ");
        push_str(out, d.as_str());
        push_str(out, " ");
        push_str(out, e.as_str());
        push_str(out, " ");
        push_str(out, f.as_str());
        push_str(out, "\n");
        assert(out@ =~= old(out)@ + coeffs_line(cm@.coeffs));
    } else {
        assert(out@ =~= old(out)@ + Seq::<char>::empty());
    }
}

/// Appends the text of a computation method.
fn generate_compu_method(out: &mut String, cm: &A2lCompuMethod)
    ensures
        final(out)@ == old(out)@ + compu_method_text(cm@),
{
    push_compu_method_head(out, cm);
    push_coeffs_linear(out, &cm.coeffs_linear);
    push_coeffs(out, cm);
    push_opt_line(out, "      COMPU_TAB_REF ", &cm.compu_tab_ref, "\n");
    push_str(out, "    /end COMPU_METHOD\n\n");
    assert(out@ =~= old(out)@ + compu_method_text(cm@));
}

fn push_measurement_head(out: &mut String, meas: &A2lMeasurement)
    ensures
        final(out)@ == old(out)@ + measurement_head(meas@),
{
    push_str(out, "    /begin MEASUREMENT ");
    push_str(out, meas.name.as_str());
    push_str(out, " \"");
    push_str(out, meas.long_identifier.as_str());
    push_str(out, "\" ");
    push_str(out, data_type_str(meas.data_type));
    push_str(out, " ");
    push_str(out, meas.compu_method.as_str());
    assert(out@ =~= old(out)@ + measurement_head(meas@));
}

fn push_measurement_numbers(out: &mut String, meas: &A2lMeasurement)
    ensures
        final(out)@ == old(out)@ + measurement_numbers(meas@),
{
    push_str(out, " ");
    push_str(out, meas.resolution.as_str());
    push_str(out, " ");
    push_str(out, meas.accuracy.as_str());
    push_str(out, " ");
    push_str(out, meas.lower_limit.as_str());
    push_str(out, " ");
    push_str(out, meas.upper_limit.as_str());
    push_str(out, "\n");
    assert(out@ =~= old(out)@ + measurement_numbers(meas@));
}

fn push_address_line(out: &mut String, o: Option<u64>)
    ensures
        final(out)@ == old(out)@ + address_line(o),
{
    if let Some(addr) = o {
        push_str(out, "      ECU_ADDRESS 0x");
        push_hex8(out, addr);
        push_str(out, "\n");
        assert(out@ =~= old(out)@ + address_line(o));
    } else {
        assert(out@ =~= old(out)@ + Seq::<char>::empty());
    }
}

/// Appends the text of a measurement.
fn generate_measurement(out: &mut String, meas: &A2lMeasurement)
    ensures
        final(out)@ == old(out)@ + measurement_text(meas@),
{
    push_measurement_head(out, meas);
    push_measurement_numbers(out, meas);
    push_address_line(out, meas.ecu_address);
    push_opt_line(out, "      FORMAT \"", &meas.format, "\"\n");
    push_opt_line(out, "      PHYS_UNIT \"", &meas.phys_unit, "\"\n");
    push_when(out, meas.read_write, "      READ_WRITE\n");
    push_str(out, "    /end MEASUREMENT\n\n");
    assert(out@ =~= old(out)@ + measurement_text(meas@));
}

fn push_characteristic_head(out: &mut String, c: &A2lCharacteristic)
    ensures
        final(out)@ == old(out)@ + characteristic_head(c@),
{
    push_str(out, "    /begin CHARACTERISTIC ");
    push_str(out, c.name.as_str());
    push_str(out, " \"");
    push_str(out, c.long_identifier.as_str());
    push_str(out, "\" ");
    push_str(out, characteristic_type_str(c.char_type));
    push_str(out, " 0x");
    push_hex8(out, c.address);
    assert(out@ =~= old(out)@ + characteristic_head(c@));
}

fn push_characteristic_numbers(out: &mut String, c: &A2lCharacteristic)
    ensures
        final(out)@ == old(out)@ + characteristic_numbers(c@),
{
    push_str(out, " ");
    push_str(out, c.record_layout.as_str());
    push_str(out, " ");
    push_str(out, c.max_diff.as_str());
    push_str(out, " ");
    push_str(out, c.compu_method.as_str());
    push_str(out, " ");
    push_str(out, c.lower_limit.as_str());
    push_str(out, " ");
    push_str(out, c.upper_limit.as_str());
    push_str(out, "\n");
    assert(out@ =~= old(out)@ + characteristic_numbers(c@));
}

fn push_axes(out: &mut String, v: &Vec<A2lAxisDescr>)
    ensures
        final(out)@ == old(out)@ + each(crate::a2l::axes_view(v@), axis_descr_texts()),
{
    let ghost axes = crate::a2l::axes_view(v@);
    let mut i: usize = 0;
    while i < v.len()
        invariant
            i <= v.len(),
            axes == crate::a2l::axes_view(v@),
            out@ == old(out)@ + each(axes.take(i as int), axis_descr_texts()),
        decreases v.len() - i,
    {
        proof {
            lemma_each_step(axes, axis_descr_texts(), i as int);
        }
        generate_axis_descr(out, &v[i]);
        i += 1;
        assert(out@ =~= old(out)@ + each(axes.take(i as int), axis_descr_texts()));
    }
    proof {
        assert(axes.take(v.len() as int) =~= axes);
    }
}

/// Appends the text of a characteristic.
fn generate_characteristic(out: &mut String, c: &A2lCharacteristic)
    ensures
        final(out)@ == old(out)@ + characteristic_text(c@),
{
    push_characteristic_head(out, c);
    push_characteristic_numbers(out, c);
    push_opt_line(out, "      FORMAT \"", &c.format, "\"\n");
    push_when(out, c.read_only, "      READ_ONLY\n");
    push_axes(out, &c.axis_descr);
    push_str(out, "    /end CHARACTERISTIC\n\n");
    assert(out@ =~= old(out)@ + characteristic_text(c@));
}

fn push_axis_pts_head(out: &mut String, axis: &A2lAxisPts)
    ensures
        final(out)@ == old(out)@ + axis_pts_head(axis@),
{
    push_str(out, "    /begin AXIS_PTS ");
    push_str(out, axis.name.as_str());
    push_str(out, " \"");
    push_str(out, axis.long_identifier.as_str());
    push_str(out, "\" 0x");
    push_hex8(out, axis.address);
    push_str(out, " ");
    push_str(out, axis.input_quantity.as_str());
    push_str(out, " ");
    push_str(out, axis.record_layout.as_str());
    assert(out@ =~= old(out)@ + axis_pts_head(axis@));
}

fn push_axis_pts_numbers(out: &mut String, axis: &A2lAxisPts)
    ensures
        final(out)@ == old(out)@ + axis_pts_numbers(axis@),
{
    push_str(out, " ");
    push_str(out, axis.max_diff.as_str());
    push_str(out, " ");
    push_str(out, axis.compu_method.as_str());
    push_str(out, " ");
    push_dec(out, axis.max_axis_points as u64);
    push_str(out, " ");
    push_str(out, axis.lower_limit.as_str());
    push_str(out, " ");
    push_str(out, axis.upper_limit.as_str());
    push_str(out, "\n");
    assert(out@ =~= old(out)@ + axis_pts_numbers(axis@));
}

/// Appends the text of axis points.
fn generate_axis_pts(out: &mut String, axis: &A2lAxisPts)
    ensures
        final(out)@ == old(out)@ + axis_pts_text(axis@),
{
    push_axis_pts_head(out, axis);
    push_axis_pts_numbers(out, axis);
    push_when(out, axis.read_only, "      READ_ONLY\n");
    push_str(out, "    /end AXIS_PTS\n\n");
    assert(out@ =~= old(out)@ + axis_pts_text(axis@));
}

/// Appends the text of a function block.
fn generate_function(out: &mut String, func: &A2lFunction)
    ensures
        final(out)@ == old(out)@ + function_text(func@),
{
    push_str(out, "    /begin FUNCTION ");
    push_str(out, func.name.as_str());
    push_str(out, " \"");
    push_str(out, func.long_identifier.as_str());
    push_str(out, "\"\n");
    push_list(out, "DEF_CHARACTERISTIC", &func.def_characteristic);
    push_list(out, "IN_MEASUREMENT", &func.in_measurement);
    push_list(out, "OUT_MEASUREMENT", &func.out_measurement);
    push_str(out, "    /end FUNCTION\n\n");
    assert(out@ =~= old(out)@ + function_text(func@));
}

/// Appends the text of a group.
fn generate_group(out: &mut String, group: &A2lGroup)
    ensures
        final(out)@ == old(out)@ + group_text(group@),
{
    push_str(out, "    /begin GROUP ");
    push_str(out, group.name.as_str());
    push_str(out, " \"");
    push_str(out, group.long_identifier.as_str());
    push_str(out, "\"\n");
    if group.root {
        push_str(out, "      ROOT\n");
    }
    push_list(out, "REF_CHARACTERISTIC", &group.ref_characteristic);
    push_list(out, "REF_MEASUREMENT", &group.ref_measurement);
    push_str(out, "    /end GROUP\n\n");
    assert(out@ =~= old(out)@ + group_text(group@));
}

/// Appends the text of the common module parameters, if there are any.
fn generate_mod_common(out: &mut String, o: &Option<A2lModCommon>)
    ensures
        final(out)@ == old(out)@ + mod_common_text(match *o {
            Some(mc) => Some(mc@),
            None => None,
        }),
{
    if let Some(mc) = o {
        push_str(out, "    /begin MOD_COMMON\n");
        push_str(out, "      \"");
        push_str(out, mc.comment.as_str());
        push_str(out, "\"\n");
        match mc.byte_order {
            Some(A2lByteOrder::BigEndian) => push_str(out, "      BYTE_ORDER MSB_FIRST\n"),
            Some(A2lByteOrder::LittleEndian) => push_str(out, "      BYTE_ORDER LSB_FIRST\n"),
            None => {},
        }
        if let Some(ds) = mc.data_size {
            push_str(out, "      DATA_SIZE ");
            push_dec(out, ds as u64);
            push_str(out, "\n");
        }
        push_str(out, "    /end MOD_COMMON\n\n");
        assert(out@ =~= old(out)@ + mod_common_text(Some(mc@)));
    } else {
        assert(out@ =~= old(out)@ + Seq::<char>::empty());
    }
}


fn push_compu_methods(out: &mut String, v: &Vec<A2lCompuMethod>)
    ensures
        final(out)@ == old(out)@ + each(v@.map_values(|c: A2lCompuMethod| c@), compu_method_texts()),
{
    let ghost items = v@.map_values(|c: A2lCompuMethod| c@);
    let mut i: usize = 0;
    while i < v.len()
        invariant
            i <= v.len(),
            items == v@.map_values(|c: A2lCompuMethod| c@),
            out@ == old(out)@ + each(items.take(i as int), compu_method_texts()),
        decreases v.len() - i,
    {
        proof {
            lemma_each_step(items, compu_method_texts(), i as int);
        }
        generate_compu_method(out, &v[i]);
        i += 1;
        assert(out@ =~= old(out)@ + each(items.take(i as int), compu_method_texts()));
    }
    proof {
        assert(items.take(v.len() as int) =~= items);
    }
}

fn push_record_layouts(out: &mut String, v: &Vec<A2lRecordLayout>)
    ensures
        final(out)@ == old(out)@ + each(v@.map_values(|r: A2lRecordLayout| r@), record_layout_texts()),
{
    let ghost items = v@.map_values(|r: A2lRecordLayout| r@);
    let mut i: usize = 0;
    while i < v.len()
        invariant
            i <= v.len(),
            items == v@.map_values(|r: A2lRecordLayout| r@),
            out@ == old(out)@ + each(items.take(i as int), record_layout_texts()),
        decreases v.len() - i,
    {
        proof {
            lemma_each_step(items, record_layout_texts(), i as int);
        }
        generate_record_layout(out, &v[i]);
        i += 1;
        assert(out@ =~= old(out)@ + each(items.take(i as int), record_layout_texts()));
    }
    proof {
        assert(items.take(v.len() as int) =~= items);
    }
}

fn push_measurements(out: &mut String, v: &Vec<A2lMeasurement>)
    ensures
        final(out)@ == old(out)@ + each(v@.map_values(|m: A2lMeasurement| m@), measurement_texts()),
{
    let ghost items = v@.map_values(|m: A2lMeasurement| m@);
    let mut i: usize = 0;
    while i < v.len()
        invariant
            i <= v.len(),
            items == v@.map_values(|m: A2lMeasurement| m@),
            out@ == old(out)@ + each(items.take(i as int), measurement_texts()),
        decreases v.len() - i,
    {
        proof {
            lemma_each_step(items, measurement_texts(), i as int);
        }
        generate_measurement(out, &v[i]);
        i += 1;
        assert(out@ =~= old(out)@ + each(items.take(i as int), measurement_texts()));
    }
    proof {
        assert(items.take(v.len() as int) =~= items);
    }
}

fn push_characteristics(out: &mut String, v: &Vec<A2lCharacteristic>)
    ensures
        final(out)@ == old(out)@ + each(v@.map_values(|c: A2lCharacteristic| c@), characteristic_texts()),
{
    let ghost items = v@.map_values(|c: A2lCharacteristic| c@);
    let mut i: usize = 0;
    while i < v.len()
        invariant
            i <= v.len(),
            items == v@.map_values(|c: A2lCharacteristic| c@),
            out@ == old(out)@ + each(items.take(i as int), characteristic_texts()),
        decreases v.len() - i,
    {
        proof {
            lemma_each_step(items, characteristic_texts(), i as int);
        }
        generate_characteristic(out, &v[i]);
        i += 1;
        assert(out@ =~= old(out)@ + each(items.take(i as int), characteristic_texts()));
    }
    proof {
        assert(items.take(v.len() as int) =~= items);
    }
}

fn push_axis_pts_list(out: &mut String, v: &Vec<A2lAxisPts>)
    ensures
        final(out)@ == old(out)@ + each(v@.map_values(|a: A2lAxisPts| a@), axis_pts_texts()),
{
    let ghost items = v@.map_values(|a: A2lAxisPts| a@);
    let mut i: usize = 0;
    while i < v.len()
        invariant
            i <= v.len(),
            items == v@.map_values(|a: A2lAxisPts| a@),
            out@ == old(out)@ + each(items.take(i as int), axis_pts_texts()),
        decreases v.len() - i,
    {
        proof {
            lemma_each_step(items, axis_pts_texts(), i as int);
        }
        generate_axis_pts(out, &v[i]);
        i += 1;
        assert(out@ =~= old(out)@ + each(items.take(i as int), axis_pts_texts()));
    }
    proof {
        assert(items.take(v.len() as int) =~= items);
    }
}

fn push_functions(out: &mut String, v: &Vec<A2lFunction>)
    ensures
        final(out)@ == old(out)@ + each(v@.map_values(|f: A2lFunction| f@), function_texts()),
{
    let ghost items = v@.map_values(|f: A2lFunction| f@);
    let mut i: usize = 0;
    while i < v.len()
        invariant
            i <= v.len(),
            items == v@.map_values(|f: A2lFunction| f@),
            out@ == old(out)@ + each(items.take(i as int), function_texts()),
        decreases v.len() - i,
    {
        proof {
            lemma_each_step(items, function_texts(), i as int);
        }
        generate_function(out, &v[i]);
        i += 1;
        assert(out@ =~= old(out)@ + each(items.take(i as int), function_texts()));
    }
    proof {
        assert(items.take(v.len() as int) =~= items);
    }
}

fn push_groups(out: &mut String, v: &Vec<A2lGroup>)
    ensures
        final(out)@ == old(out)@ + each(v@.map_values(|g: A2lGroup| g@), group_texts()),
{
    let ghost items = v@.map_values(|g: A2lGroup| g@);
    let mut i: usize = 0;
    while i < v.len()
        invariant
            i <= v.len(),
            items == v@.map_values(|g: A2lGroup| g@),
            out@ == old(out)@ + each(items.take(i as int), group_texts()),
        decreases v.len() - i,
    {
        proof {
            lemma_each_step(items, group_texts(), i as int);
        }
        generate_group(out, &v[i]);
        i += 1;
        assert(out@ =~= old(out)@ + each(items.take(i as int), group_texts()));
    }
    proof {
        assert(items.take(v.len() as int) =~= items);
    }
}

fn push_modules(out: &mut String, v: &Vec<A2lModule>)
    ensures
        final(out)@ == old(out)@ + each(v@.map_values(|m: A2lModule| m@), module_texts()),
{
    let ghost items = v@.map_values(|m: A2lModule| m@);
    let mut i: usize = 0;
    while i < v.len()
        invariant
            i <= v.len(),
            items == v@.map_values(|m: A2lModule| m@),
            out@ == old(out)@ + each(items.take(i as int), module_texts()),
        decreases v.len() - i,
    {
        proof {
            lemma_each_step(items, module_texts(), i as int);
        }
        generate_module(out, &v[i]);
        i += 1;
        assert(out@ =~= old(out)@ + each(items.take(i as int), module_texts()));
    }
    proof {
        assert(items.take(v.len() as int) =~= items);
    }
}

/// Appends the blocks of a module.
fn generate_module_items(out: &mut String, module: &A2lModule)
    ensures
        final(out)@ == old(out)@ + module_items(module@),
{
    push_compu_methods(out, &module.compu_methods);
    push_record_layouts(out, &module.record_layouts);
    push_measurements(out, &module.measurements);
    push_characteristics(out, &module.characteristics);
    push_axis_pts_list(out, &module.axis_pts);
    push_functions(out, &module.functions);
    push_groups(out, &module.groups);
    assert(out@ =~= old(out)@ + module_items(module@));
}

fn push_module_head(out: &mut String, module: &A2lModule)
    ensures
        final(out)@ == old(out)@ + module_head(module@),
{
    push_str(out, "  /begin MODULE ");
    push_str(out, module.name.as_str());
    push_str(out, " \"");
    push_str(out, module.long_identifier.as_str());
    push_str(out, "\"\n\n");
    assert(out@ =~= old(out)@ + module_head(module@));
}

/// Appends the text of a module.
#[verifier::spinoff_prover]
#[verifier::rlimit(40)]
fn generate_module(out: &mut String, module: &A2lModule)
    ensures
        final(out)@ == old(out)@ + module_text(module@),
{
    reveal(module_text);
    push_module_head(out, module);
    generate_mod_common(out, &module.mod_common);
    generate_module_items(out, module);
    push_str(out, "  /end MODULE\n\n");
    assert(out@ =~= old(out)@ + module_text(module@));
}

/// Appends the text of a project header, if there is one.
fn generate_header(out: &mut String, o: &Option<crate::a2l::A2lHeader>)
    ensures
        final(out)@ == old(out)@ + header_text(match *o {
            Some(h) => Some(h@),
            None => None,
        }),
{
    if let Some(h) = o {
        push_str(out, "  /begin HEADER\n");
        push_str(out, "    \"");
        push_str(out, h.comment.as_str());
        push_str(out, "\"\n");
        push_opt_line(out, "    PROJECT_NO ", &h.project_no, "\n");
        push_opt_line(out, "    VERSION \"", &h.version, "\"\n");
        push_str(out, "  /end HEADER\n\n");
        assert(out@ =~= old(out)@ + header_text(Some(h@)));
    } else {
        assert(out@ =~= old(out)@ + Seq::<char>::empty());
    }
}

fn push_versions(out: &mut String, db: &A2lDatabase)
    ensures
        final(out)@ == old(out)@ + versions_text(db@),
{
    push_str(out, "ASAP2_VERSION ");
    push_dec(out, db.asap2_version.major as u64);
    push_str(out, " ");
    push_dec(out, db.asap2_version.minor as u64);
    push_str(out, "\n\n");
    if let Some(a2ml) = db.a2ml_version {
        push_str(out, "A2ML_VERSION ");
        push_dec(out, a2ml.major as u64);
        push_str(out, " ");
        push_dec(out, a2ml.minor as u64);
        push_str(out, "\n\n");
    }
    assert(out@ =~= old(out)@ + versions_text(db@));
}

fn push_project_head(out: &mut String, db: &A2lDatabase)
    ensures
        final(out)@ == old(out)@ + project_head(db@),
{
    push_str(out, "/begin PROJECT ");
    push_str(out, db.project.name.as_str());
    push_str(out, " \"");
    push_str(out, db.project.long_identifier.as_str());
    push_str(out, "\"\n");
    assert(out@ =~= old(out)@ + project_head(db@));
}

/// A2L file generator.
pub struct A2lGenerator;

impl A2lGenerator {
    /// Generate A2L file content from a database: the versions, then the
    /// project with its header and modules (see `database_text`).
    pub fn generate(db: &A2lDatabase) -> (r: String)
        ensures
            r@ == database_text(db@),
    {
        let mut out = String::new();
        push_versions(&mut out, db);
        push_project_head(&mut out, db);
        generate_header(&mut out, &db.project.header);
        push_modules(&mut out, &db.project.modules);
        push_str(&mut out, "/end PROJECT\n");
        assert(out@ =~= database_text(db@));
        out
    }
}

/// Reading back a data type name that the writer prints gives the data
/// type: the name is ASCII and already uppercase, so `A2lDataType::from_str`
/// of it, or of any text that uppercases to it (the same name in any case),
/// is that data type.
pub proof fn lemma_data_type_name_reads_back(t: A2lDataType, s: Seq<char>)
    ensures
        all_ascii(data_type_name(t)),
        ascii_upper(data_type_name(t)) == data_type_name(t),
        a2l_data_type_of_upper(data_type_name(t)) == Some(t),
        ascii_upper(s) == data_type_name(t) ==> a2l_data_type_of_upper(ascii_upper(s)) == Some(t),
{
    reveal_strlit("UBYTE");
    reveal_strlit("SBYTE");
    reveal_strlit("UWORD");
    reveal_strlit("SWORD");
    reveal_strlit("ULONG");
    reveal_strlit("SLONG");
    reveal_strlit("A_UINT64");
    reveal_strlit("A_INT64");
    reveal_strlit("FLOAT32_IEEE");
    reveal_strlit("FLOAT64_IEEE");
    let n = data_type_name(t);
    assert(ascii_upper(n) =~= n);
    match t {
        A2lDataType::UByte => {

        },
        A2lDataType::SByte => {
            assert("SBYTE"@[0] != "UBYTE"@[0]);
        },
        A2lDataType::UWord => {
            assert("UWORD"@[1] != "UBYTE"@[1]);
            assert("UWORD"@[0] != "SBYTE"@[0]);
        },
        A2lDataType::SWord => {
            assert("SWORD"@[0] != "UBYTE"@[0]);
            assert("SWORD"@[1] != "SBYTE"@[1]);
            assert("SWORD"@[0] != "UWORD"@[0]);
        },
        A2lDataType::ULong => {
            assert("ULONG"@[1] != "UBYTE"@[1]);
            assert("ULONG"@[0] != "SBYTE"@[0]);
            assert("ULONG"@[1] != "UWORD"@[1]);
            assert("ULONG"@[0] != "SWORD"@[0]);
        },
        A2lDataType::SLong => {
            assert("SLONG"@[0] != "UBYTE"@[0]);
            assert("SLONG"@[1] != "SBYTE"@[1]);
            assert("SLONG"@[0] != "UWORD"@[0]);
            assert("SLONG"@[1] != "SWORD"@[1]);
            assert("SLONG"@[0] != "ULONG"@[0]);
        },
        A2lDataType::AUint64 => {

        },
        A2lDataType::AInt64 => {

        },
        A2lDataType::Float32Ieee => {

        },
        A2lDataType::Float64Ieee => {
            assert("FLOAT64_IEEE"@[5] != "FLOAT32_IEEE"@[5]);
        },
    }
}

/// The byte order the writer prints reads back as that byte order: its
/// `BYTE_ORDER` line names a word that the reader takes for it (`MSB_FIRST`
/// for big-endian, `LSB_FIRST` for little-endian), and the two byte orders
/// are written differently.
pub proof fn lemma_byte_order_reads_back(b: A2lByteOrder)
    ensures
        exists|w: Seq<char>|
            byte_order_line(Some(b)) == "      BYTE_ORDER "@ + w + "\n"@ && #[trigger] crate::a2l_parser::byte_order_of(w)
                == b,
        byte_order_line(Some(A2lByteOrder::BigEndian)) != byte_order_line(Some(A2lByteOrder::LittleEndian)),
{
    reveal_strlit("      BYTE_ORDER MSB_FIRST\n");
    reveal_strlit("      BYTE_ORDER LSB_FIRST\n");
    reveal_strlit("      BYTE_ORDER ");
    reveal_strlit("\n");
    reveal_strlit("MSB_FIRST");
    reveal_strlit("LSB_FIRST");
    assert("      BYTE_ORDER MSB_FIRST\n"@ =~= "      BYTE_ORDER "@ + "MSB_FIRST"@ + "\n"@);
    assert("      BYTE_ORDER LSB_FIRST\n"@ =~= "      BYTE_ORDER "@ + "LSB_FIRST"@ + "\n"@);
    assert("LSB_FIRST"@[0] != "MSB_FIRST"@[0]);
    assert("      BYTE_ORDER MSB_FIRST\n"@[17] != "      BYTE_ORDER LSB_FIRST\n"@[17]);
    match b {
        A2lByteOrder::BigEndian => {
            assert(crate::a2l_parser::byte_order_of("MSB_FIRST"@) == b);
        },
        A2lByteOrder::LittleEndian => {
            assert(crate::a2l_parser::byte_order_of("LSB_FIRST"@) == b);
        },
    }
}

} // verus!
