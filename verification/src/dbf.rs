//! BUSMASTER database files (`.dbf`): the data model, a parser for the
//! tag-based text format and a generator that writes it back.
//!
//! The format is line oriented: tags in square brackets (`[PROTOCOL]`,
//! `[START_MSG]`, `[START_SIGNALS]`, ...) followed by comma-separated
//! fields. Decimal fractions (scaling, offsets, limits) are kept as the
//! text that the file holds.
use vstd::prelude::*;
use crate::scan::{CharClass, scan, scan_spec};
use crate::text::{all_ascii, ascii_upper, upper_text, 
    chars_of, dec_digits, owned, push_char, push_chars, push_dec, push_str, slice_to_vec, split_at_char,
    split_spec, string_from_chars, to_uppercase, trim, trim_spec, unicode_uppercase,
};

verus! {

broadcast use vstd::string::group_string_axioms;

/// Error type for DBF parsing.
#[derive(Debug, Clone, PartialEq, Eq)]
pub enum DbfParseError {
    /// Invalid file format
    InvalidFormat(String),
    /// Missing required field
    MissingField(String),
    /// Invalid value
    InvalidValue(String),
    /// Unexpected end of file
    UnexpectedEof,
    /// Invalid message definition
    InvalidMessage(String),
    /// Invalid signal definition
    InvalidSignal(String),
}

/// The text that a DBF error displays.
pub open spec fn dbf_error_text(e: DbfParseError) -> Seq<char> {
    match e {
        DbfParseError::InvalidFormat(m) => "Invalid DBF format: "@ + m@,
        DbfParseError::MissingField(m) => "Missing required field: "@ + m@,
        DbfParseError::InvalidValue(m) => "Invalid value: "@ + m@,
        DbfParseError::UnexpectedEof => "Unexpected end of file"@,
        DbfParseError::InvalidMessage(m) => "Invalid message: "@ + m@,
        DbfParseError::InvalidSignal(m) => "Invalid signal: "@ + m@,
    }
}

impl DbfParseError {
    /// The text that the error displays.
    pub fn to_display_string(&self) -> (r: String)
        ensures
            r@ == dbf_error_text(*self),
    {
        let mut out = String::new();
        match self {
            DbfParseError::InvalidFormat(m) => {
                push_str(&mut out, "Invalid DBF format: ");
                push_str(&mut out, m.as_str());
            },
            DbfParseError::MissingField(m) => {
                push_str(&mut out, "Missing required field: ");
                push_str(&mut out, m.as_str());
            },
            DbfParseError::InvalidValue(m) => {
                push_str(&mut out, "Invalid value: ");
                push_str(&mut out, m.as_str());
            },
            DbfParseError::UnexpectedEof => {
                push_str(&mut out, "Unexpected end of file");
            },
            DbfParseError::InvalidMessage(m) => {
                push_str(&mut out, "Invalid message: ");
                push_str(&mut out, m.as_str());
            },
            DbfParseError::InvalidSignal(m) => {
                push_str(&mut out, "Invalid signal: ");
                push_str(&mut out, m.as_str());
            },
        }
        proof {
            reveal_strlit("Invalid DBF format: ");
            reveal_strlit("Missing required field: ");
            reveal_strlit("Invalid value: ");
            reveal_strlit("Unexpected end of file");
            reveal_strlit("Invalid message: ");
            reveal_strlit("Invalid signal: ");
        }
        out
    }
}

/// Protocol type in a DBF file.
#[derive(Debug, Clone, Copy, PartialEq, Eq, Structural)]
pub enum DbfProtocol {
    /// CAN protocol
    Can,
    /// J1939 protocol
    J1939,
    /// LIN protocol
    Lin,
}

impl Default for DbfProtocol {
    fn default() -> (r: Self)
        ensures
            r == DbfProtocol::Can,
    {
        DbfProtocol::Can
    }
}

/// The protocol that an uppercased name stands for: `J1939`, `LIN`, and CAN
/// for anything else.
pub open spec fn protocol_of_upper(u: Seq<char>) -> DbfProtocol {
    if u == "J1939"@ {
        DbfProtocol::J1939
    } else if u == "LIN"@ {
        DbfProtocol::Lin
    } else {
        DbfProtocol::Can
    }
}

impl DbfProtocol {
    /// The protocol that an already uppercased name stands for.
    pub fn from_uppercase_name(u: &str) -> (r: Self)
        ensures
            r == protocol_of_upper(u@),
    {
        let v = chars_of(u);
        let j = ['J', '1', '9', '3', '9'];
        let l = ['L', 'I', 'N'];
        proof {
            reveal_strlit("J1939");
            reveal_strlit("LIN");
        }
        assert(j@ == "J1939"@);
        assert(l@ == "LIN"@);
        if crate::text::chars_eq(v.as_slice(), &j) {
            DbfProtocol::J1939
        } else if crate::text::chars_eq(v.as_slice(), &l) {
            DbfProtocol::Lin
        } else {
            DbfProtocol::Can
        }
    }

    /// Parse a protocol from its name: surrounding whitespace is ignored and
    /// the name is compared after Unicode uppercasing; unknown names give CAN.
    pub fn parse_from(s: &str) -> (r: Self)
        ensures
            r == protocol_of_upper(unicode_uppercase(trim_spec(s@))),
            all_ascii(trim_spec(s@)) ==> r == protocol_of_upper(ascii_upper(trim_spec(s@))),
    {
        let t = string_from_chars(trim(chars_of(s).as_slice()).as_slice());
        let u = to_uppercase(t.as_str());
        Self::from_uppercase_name(u.as_str())
    }

    /// The name that the generator writes for the protocol.
    fn name(self) -> (r: &'static str)
        ensures
            r@ == protocol_name(self),
    {
        proof {
            reveal_strlit("CAN");
            reveal_strlit("J1939");
            reveal_strlit("LIN");
        }
        match self {
            DbfProtocol::Can => "CAN",
            DbfProtocol::J1939 => "J1939",
            DbfProtocol::Lin => "LIN",
        }
    }
}

/// The name that the generator writes for a protocol.
pub open spec fn protocol_name(p: DbfProtocol) -> Seq<char> {
    match p {
        DbfProtocol::Can => "CAN"@,
        DbfProtocol::J1939 => "J1939"@,
        DbfProtocol::Lin => "LIN"@,
    }
}

/// Frame format (Standard or Extended).
#[derive(Debug, Clone, Copy, PartialEq, Eq, Structural)]
pub enum DbfFrameFormat {
    /// Standard 11-bit identifier
    Standard,
    /// Extended 29-bit identifier
    Extended,
}

impl Default for DbfFrameFormat {
    fn default() -> (r: Self)
        ensures
            r == DbfFrameFormat::Standard,
    {
        DbfFrameFormat::Standard
    }
}

/// The frame format that a format character stands for.
pub open spec fn frame_format_of(c: char) -> DbfFrameFormat {
    if c == 'X' || c == 'x' {
        DbfFrameFormat::Extended
    } else {
        DbfFrameFormat::Standard
    }
}

/// The character that stands for a frame format.
pub open spec fn frame_format_char(f: DbfFrameFormat) -> char {
    match f {
        DbfFrameFormat::Standard => 'S',
        DbfFrameFormat::Extended => 'X',
    }
}

impl DbfFrameFormat {
    /// Parse frame format from character: `X` or `x` is extended, anything
    /// else standard.
    pub fn from_char(c: char) -> (r: Self)
        ensures
            r == frame_format_of(c),
    {
        if c == 'X' || c == 'x' {
            DbfFrameFormat::Extended
        } else {
            DbfFrameFormat::Standard
        }
    }

    /// Convert to character representation
    pub fn to_char(self) -> (r: char)
        ensures
            r == frame_format_char(self),
    {
        match self {
            DbfFrameFormat::Standard => 'S',
            DbfFrameFormat::Extended => 'X',
        }
    }
}

/// Signal data type.
#[derive(Debug, Clone, Copy, PartialEq, Eq, Structural)]
pub enum DbfSignalType {
    /// Boolean (1 bit)
    Bool,
    /// Unsigned integer
    Unsigned,
    /// Signed integer
    Signed,
    /// 32-bit float
    Float,
    /// 64-bit double
    Double,
}

impl Default for DbfSignalType {
    fn default() -> (r: Self)
        ensures
            r == DbfSignalType::Unsigned,
    {
        DbfSignalType::Unsigned
    }
}

/// The signal type that a type character stands for.
pub open spec fn signal_type_of(c: char) -> DbfSignalType {
    if c == 'B' || c == 'b' {
        DbfSignalType::Bool
    } else if c == 'I' || c == 'i' {
        DbfSignalType::Signed
    } else if c == 'F' || c == 'f' {
        DbfSignalType::Float
    } else if c == 'D' || c == 'd' {
        DbfSignalType::Double
    } else {
        DbfSignalType::Unsigned
    }
}

/// The character that stands for a signal type.
pub open spec fn signal_type_char(t: DbfSignalType) -> char {
    match t {
        DbfSignalType::Bool => 'B',
        DbfSignalType::Unsigned => 'U',
        DbfSignalType::Signed => 'I',
        DbfSignalType::Float => 'F',
        DbfSignalType::Double => 'D',
    }
}

impl DbfSignalType {
    /// Parse signal type from character (either case); unknown characters
    /// give unsigned.
    pub fn from_char(c: char) -> (r: Self)
        ensures
            r == signal_type_of(c),
    {
        if c == 'B' || c == 'b' {
            DbfSignalType::Bool
        } else if c == 'I' || c == 'i' {
            DbfSignalType::Signed
        } else if c == 'F' || c == 'f' {
            DbfSignalType::Float
        } else if c == 'D' || c == 'd' {
            DbfSignalType::Double
        } else {
            DbfSignalType::Unsigned
        }
    }

    /// Convert to character representation
    pub fn to_char(self) -> (r: char)
        ensures
            r == signal_type_char(self),
    {
        match self {
            DbfSignalType::Bool => 'B',
            DbfSignalType::Unsigned => 'U',
            DbfSignalType::Signed => 'I',
            DbfSignalType::Float => 'F',
            DbfSignalType::Double => 'D',
        }
    }
}

/// Signal byte order.
#[derive(Debug, Clone, Copy, PartialEq, Eq, Structural)]
pub enum DbfByteOrder {
    /// Intel byte order (little-endian)
    Intel,
    /// Motorola byte order (big-endian)
    Motorola,
}

impl Default for DbfByteOrder {
    fn default() -> (r: Self)
        ensures
            r == DbfByteOrder::Intel,
    {
        DbfByteOrder::Intel
    }
}

/// The byte order that an order character stands for.
pub open spec fn byte_order_of(c: char) -> DbfByteOrder {
    if c == '0' {
        DbfByteOrder::Motorola
    } else {
        DbfByteOrder::Intel
    }
}

/// The character that stands for a byte order.
pub open spec fn byte_order_char(o: DbfByteOrder) -> char {
    match o {
        DbfByteOrder::Intel => '1',
        DbfByteOrder::Motorola => '0',
    }
}

impl DbfByteOrder {
    /// Parse byte order from character: `0` is Motorola, anything else Intel.
    pub fn from_char(c: char) -> (r: Self)
        ensures
            r == byte_order_of(c),
    {
        if c == '0' {
            DbfByteOrder::Motorola
        } else {
            DbfByteOrder::Intel
        }
    }

    /// Convert to character representation
    pub fn to_char(self) -> (r: char)
        ensures
            r == byte_order_char(self),
    {
        match self {
            DbfByteOrder::Intel => '1',
            DbfByteOrder::Motorola => '0',
        }
    }
}

/// Writing a frame format, signal type or byte order as its character and
/// reading the character back gives the same value.
pub proof fn lemma_dbf_char_roundtrips(f: DbfFrameFormat, t: DbfSignalType, o: DbfByteOrder)
    ensures
        frame_format_of(frame_format_char(f)) == f,
        signal_type_of(signal_type_char(t)) == t,
        byte_order_of(byte_order_char(o)) == o,
{
}

/// A value descriptor as plain values.
pub ghost struct DbfValueDescriptorModel {
    pub value: i64,
    pub description: Seq<char>,
}

/// Value descriptor for a signal.
#[derive(Debug, Clone)]
pub struct DbfValueDescriptor {
    /// Numeric value
    pub value: i64,
    /// Description string
    pub description: String,
}

impl View for DbfValueDescriptor {
    type V = DbfValueDescriptorModel;

    open spec fn view(&self) -> DbfValueDescriptorModel {
        DbfValueDescriptorModel { value: self.value, description: self.description@ }
    }
}

/// The models of a sequence of value descriptors.
pub open spec fn descriptors_view(v: Seq<DbfValueDescriptor>) -> Seq<DbfValueDescriptorModel> {
    v.map_values(|d: DbfValueDescriptor| d@)
}

impl DbfValueDescriptor {
    /// Create a new value descriptor
    pub fn new(value: i64, description: &str) -> (r: Self)
        ensures
            r@ == (DbfValueDescriptorModel { value, description: description@ }),
    {
        DbfValueDescriptor { value, description: owned(description) }
    }
}

/// A signal as plain values.
pub ghost struct DbfSignalModel {
    pub name: Seq<char>,
    pub length: u8,
    pub which_byte: u8,
    pub start_bit: u8,
    pub signal_type: DbfSignalType,
    pub max_value: Seq<char>,
    pub min_value: Seq<char>,
    pub byte_order: DbfByteOrder,
    pub offset: Seq<char>,
    pub scale_factor: Seq<char>,
    pub unit: Seq<char>,
    pub multiplex: Seq<char>,
    pub receivers: Seq<Seq<char>>,
    pub value_descriptors: Seq<DbfValueDescriptorModel>,
    pub comment: Seq<char>,
}

/// Signal definition in DBF format.
#[derive(Debug, Clone)]
pub struct DbfSignal {
    /// Signal name
    pub name: String,
    /// Signal length in bits
    pub length: u8,
    /// Which byte the signal starts in (1-based)
    pub which_byte: u8,
    /// Start bit within the byte (0-based)
    pub start_bit: u8,
    /// Signal data type
    pub signal_type: DbfSignalType,
    /// Maximum value (raw), as decimal text
    pub max_value: String,
    /// Minimum value (raw), as decimal text
    pub min_value: String,
    /// Byte order
    pub byte_order: DbfByteOrder,
    /// Offset for physical value calculation, as decimal text
    pub offset: String,
    /// Scale factor for physical value calculation, as decimal text
    pub scale_factor: String,
    /// Unit string
    pub unit: String,
    /// Multiplexer indicator (empty, "M", or "m<n>")
    pub multiplex: String,
    /// Receiving nodes
    pub receivers: Vec<String>,
    /// Value descriptors
    pub value_descriptors: Vec<DbfValueDescriptor>,
    /// Comment
    pub comment: String,
}

/// The strings of a sequence, each taken by its characters.
pub open spec fn strings_view(v: Seq<String>) -> Seq<Seq<char>> {
    v.map_values(|x: String| x@)
}

impl View for DbfSignal {
    type V = DbfSignalModel;

    open spec fn view(&self) -> DbfSignalModel {
        DbfSignalModel {
            name: self.name@,
            length: self.length,
            which_byte: self.which_byte,
            start_bit: self.start_bit,
            signal_type: self.signal_type,
            max_value: self.max_value@,
            min_value: self.min_value@,
            byte_order: self.byte_order,
            offset: self.offset@,
            scale_factor: self.scale_factor@,
            unit: self.unit@,
            multiplex: self.multiplex@,
            receivers: strings_view(self.receivers@),
            value_descriptors: descriptors_view(self.value_descriptors@),
            comment: self.comment@,
        }
    }
}

/// A fresh signal: one bit in the first byte at bit 0, unsigned, Intel
/// order, limits and offset 0, scale 1, and nothing else.
pub open spec fn default_signal(name: Seq<char>) -> DbfSignalModel {
    DbfSignalModel {
        name,
        length: 1,
        which_byte: 1,
        start_bit: 0,
        signal_type: DbfSignalType::Unsigned,
        max_value: "0"@,
        min_value: "0"@,
        byte_order: DbfByteOrder::Intel,
        offset: "0"@,
        scale_factor: "1"@,
        unit: Seq::empty(),
        multiplex: Seq::empty(),
        receivers: Seq::empty(),
        value_descriptors: Seq::empty(),
        comment: Seq::empty(),
    }
}

impl Default for DbfSignal {
    fn default() -> (r: Self)
        ensures
            r@ == default_signal(Seq::empty()),
    {
        proof {
            reveal_strlit("");
        }
        assert(""@ =~= Seq::<char>::empty());
        DbfSignal::new("")
    }
}

impl DbfSignal {
    /// Create a new signal with the given name and the default layout.
    pub fn new(name: &str) -> (r: Self)
        ensures
            r@ == default_signal(name@),
    {
        let r = DbfSignal {
            name: owned(name),
            length: 1,
            which_byte: 1,
            start_bit: 0,
            signal_type: DbfSignalType::Unsigned,
            max_value: owned("0"),
            min_value: owned("0"),
            byte_order: DbfByteOrder::Intel,
            offset: owned("0"),
            scale_factor: owned("1"),
            unit: String::new(),
            multiplex: String::new(),
            receivers: Vec::new(),
            value_descriptors: Vec::new(),
            comment: String::new(),
        };
        proof {
            reveal_strlit("0");
            reveal_strlit("1");
        }
        assert(strings_view(r.receivers@) =~= Seq::<Seq<char>>::empty());
        assert(descriptors_view(r.value_descriptors@) =~= Seq::<DbfValueDescriptorModel>::empty());
        r
    }

    /// Calculate the absolute start bit position: the bit within the byte
    /// plus eight for every byte before it (bytes count from 1).
    pub fn absolute_start_bit(&self) -> (r: u16)
        requires
            self.which_byte >= 1,
        ensures
            r == self.start_bit + (self.which_byte - 1) * 8,
    {
        self.start_bit as u16 + (self.which_byte as u16 - 1) * 8
    }
}

/// A message as plain values.
pub ghost struct DbfMessageModel {
    pub name: Seq<char>,
    pub id: u32,
    pub length: u8,
    pub signal_count: u16,
    pub data_format: u8,
    pub frame_format: DbfFrameFormat,
    pub transmitter: Seq<char>,
    pub signals: Seq<DbfSignalModel>,
    pub comment: Seq<char>,
}

/// Message definition in DBF format.
#[derive(Debug, Clone)]
pub struct DbfMessage {
    /// Message name
    pub name: String,
    /// Message ID
    pub id: u32,
    /// Message length in bytes
    pub length: u8,
    /// Number of signals
    pub signal_count: u16,
    /// Data format (unused, typically 1)
    pub data_format: u8,
    /// Frame format (Standard or Extended)
    pub frame_format: DbfFrameFormat,
    /// Transmitting node
    pub transmitter: String,
    /// Signals in this message
    pub signals: Vec<DbfSignal>,
    /// Comment
    pub comment: String,
}

/// The models of a sequence of signals.
pub open spec fn signals_view(v: Seq<DbfSignal>) -> Seq<DbfSignalModel> {
    v.map_values(|x: DbfSignal| x@)
}

impl View for DbfMessage {
    type V = DbfMessageModel;

    open spec fn view(&self) -> DbfMessageModel {
        DbfMessageModel {
            name: self.name@,
            id: self.id,
            length: self.length,
            signal_count: self.signal_count,
            data_format: self.data_format,
            frame_format: self.frame_format,
            transmitter: self.transmitter@,
            signals: signals_view(self.signals@),
            comment: self.comment@,
        }
    }
}

/// A fresh message: eight bytes, data format 1, standard frame, no
/// transmitter, no signals, no comment.
pub open spec fn default_message(name: Seq<char>, id: u32) -> DbfMessageModel {
    DbfMessageModel {
        name,
        id,
        length: 8,
        signal_count: 0,
        data_format: 1,
        frame_format: DbfFrameFormat::Standard,
        transmitter: Seq::empty(),
        signals: Seq::empty(),
        comment: Seq::empty(),
    }
}

/// A message after a signal is added: the signal comes last and the count
/// follows the number of signals (kept in 16 bits).
pub open spec fn with_signal(m: DbfMessageModel, s: DbfSignalModel) -> DbfMessageModel {
    DbfMessageModel {
        signals: m.signals.push(s),
        signal_count: (m.signals.len() + 1) as u16,
        ..m
    }
}

/// The position of the first signal with the given name.
pub open spec fn first_named_signal(sigs: Seq<DbfSignal>, name: Seq<char>) -> Option<int> {
    if exists|i: int| 0 <= i < sigs.len() && sigs[i].name@ == name {
        Some(
            choose|i: int|
                0 <= i < sigs.len() && sigs[i].name@ == name && forall|j: int|
                    0 <= j < i ==> sigs[j].name@ != name,
        )
    } else {
        None
    }
}

impl Default for DbfMessage {
    fn default() -> (r: Self)
        ensures
            r@ == default_message(Seq::empty(), 0),
    {
        proof {
            reveal_strlit("");
        }
        assert(""@ =~= Seq::<char>::empty());
        DbfMessage::new("", 0)
    }
}

impl DbfMessage {
    /// Create a new message with the given name and ID
    pub fn new(name: &str, id: u32) -> (r: Self)
        ensures
            r@ == default_message(name@, id),
    {
        let r = DbfMessage {
            name: owned(name),
            id,
            length: 8,
            signal_count: 0,
            data_format: 1,
            frame_format: DbfFrameFormat::Standard,
            transmitter: String::new(),
            signals: Vec::new(),
            comment: String::new(),
        };
        assert(signals_view(r.signals@) =~= Seq::<DbfSignalModel>::empty());
        r
    }

    /// Add a signal to this message; the signal count follows.
    pub fn add_signal(&mut self, signal: DbfSignal)
        ensures
            final(self)@ == with_signal(old(self)@, signal@),
    {
        let ghost m = signal@;
        self.signals.push(signal);
        self.signal_count = self.signals.len() as u16;
        assert(signals_view(self.signals@) =~= signals_view(old(self).signals@).push(m));
    }

    /// Find a signal by name: the first one with that name.
    pub fn find_signal(&self, name: &str) -> (r: Option<&DbfSignal>)
        ensures
            match first_named_signal(self.signals@, name@) {
                Some(i) => r == Some(&self.signals@[i]),
                None => r is None,
            },
    {
        let key = owned(name);
        let mut i: usize = 0;
        while i < self.signals.len()
            invariant
                i <= self.signals.len(),
                key@ == name@,
                forall|j: int| 0 <= j < i ==> self.signals@[j].name@ != name@,
            decreases self.signals.len() - i,
        {
            if self.signals[i].name == key {
                proof {
                    let k = i as int;
                    let sigs = self.signals@;
                    let c = choose|c: int|
                        0 <= c < sigs.len() && sigs[c].name@ == name@ && forall|j: int|
                            0 <= j < c ==> sigs[j].name@ != name@;
                    assert(0 <= k < sigs.len() && sigs[k].name@ == name@);
                    assert(c == k) by {
                        if c > k {
                            assert(sigs[k].name@ != name@);
                        }
                    }
                }
                return Some(&self.signals[i]);
            }
            i += 1;
        }
        None
    }

    /// Find a signal by name, to change it: the first one with that name.
    /// Only that signal can change through the reference.
    pub fn find_signal_mut(&mut self, name: &str) -> (r: Option<&mut DbfSignal>)
        ensures
            match first_named_signal(old(self).signals@, name@) {
                Some(i) => r matches Some(x) && *x == old(self).signals@[i]
                    && final(self).signals@ == old(self).signals@.update(i, *final(x))
                    && final(self).name == old(self).name && final(self).id == old(self).id
                    && final(self).length == old(self).length
                    && final(self).signal_count == old(self).signal_count
                    && final(self).data_format == old(self).data_format
                    && final(self).frame_format == old(self).frame_format
                    && final(self).transmitter == old(self).transmitter
                    && final(self).comment == old(self).comment,
                None => r is None && *final(self) == *old(self),
            },
    {
        let key = owned(name);
        let mut k: usize = 0;
        while k < self.signals.len()
            invariant
                k <= self.signals.len(),
                key@ == name@,
                *self == *old(self),
                forall|j: int| 0 <= j < k ==> self.signals@[j].name@ != name@,
            decreases self.signals.len() - k,
        {
            if self.signals[k].name == key {
                proof {
                    let c = choose|c: int|
                        0 <= c < self.signals@.len() && self.signals@[c].name@ == name@ && forall|j: int|
                            0 <= j < c ==> self.signals@[j].name@ != name@;
                    assert(0 <= c < self.signals@.len() && self.signals@[c].name@ == name@);
                    assert(c == k) by {
                        if c > k {
                            assert(self.signals@[k as int].name@ != name@);
                        }
                    }
                }
                return Some(&mut self.signals[k]);
            }
            k += 1;
        }
        None
    }
}

/// A value table as plain values.
pub ghost struct DbfValueTableModel {
    pub name: Seq<char>,
    pub values: Seq<DbfValueDescriptorModel>,
}

/// Value table definition.
#[derive(Debug, Clone)]
pub struct DbfValueTable {
    /// Table name
    pub name: String,
    /// Value descriptors
    pub values: Vec<DbfValueDescriptor>,
}

impl View for DbfValueTable {
    type V = DbfValueTableModel;

    open spec fn view(&self) -> DbfValueTableModel {
        DbfValueTableModel { name: self.name@, values: descriptors_view(self.values@) }
    }
}

impl Default for DbfValueTable {
    fn default() -> (r: Self)
        ensures
            r@.name == Seq::<char>::empty(),
            r@.values == Seq::<DbfValueDescriptorModel>::empty(),
    {
        proof {
            reveal_strlit("");
        }
        assert(""@ =~= Seq::<char>::empty());
        DbfValueTable::new("")
    }
}

impl DbfValueTable {
    /// Create a new, empty value table
    pub fn new(name: &str) -> (r: Self)
        ensures
            r@.name == name@,
            r@.values == Seq::<DbfValueDescriptorModel>::empty(),
    {
        let r = DbfValueTable { name: owned(name), values: Vec::new() };
        assert(descriptors_view(r.values@) =~= Seq::<DbfValueDescriptorModel>::empty());
        r
    }

    /// Add a value descriptor at the end
    pub fn add_value(&mut self, value: i64, description: &str)
        ensures
            final(self)@.name == old(self)@.name,
            final(self)@.values == old(self)@.values.push(
                DbfValueDescriptorModel { value, description: description@ },
            ),
    {
        let d = DbfValueDescriptor::new(value, description);
        let ghost m = d@;
        self.values.push(d);
        assert(descriptors_view(self.values@) =~= descriptors_view(old(self).values@).push(m));
    }
}

/// Parameter type.
#[derive(Debug, Clone, Copy, PartialEq, Eq, Structural)]
pub enum DbfParamType {
    /// Integer parameter
    Int,
    /// Hex parameter
    Hex,
    /// Float parameter
    Float,
    /// String parameter
    String,
    /// Enum parameter
    Enum,
}

impl Default for DbfParamType {
    fn default() -> (r: Self)
        ensures
            r == DbfParamType::Int,
    {
        DbfParamType::Int
    }
}

/// Parameter definition.
#[derive(Debug, Clone)]
pub struct DbfParameter {
    /// Parameter name
    pub name: String,
    /// Parameter type
    pub param_type: DbfParamType,
    /// Minimum value (for numeric types), as decimal text
    pub min_value: String,
    /// Maximum value (for numeric types), as decimal text
    pub max_value: String,
    /// Default value (as string)
    pub default_value: String,
    /// Enum values (for enum type)
    pub enum_values: Vec<String>,
}

impl Default for DbfParameter {
    fn default() -> (r: Self)
        ensures
            r.name@ == Seq::<char>::empty(),
            r.param_type == DbfParamType::Int,
            r.min_value@ == "0"@,
            r.max_value@ == "0"@,
            r.default_value@ == Seq::<char>::empty(),
            r.enum_values@.len() == 0,
    {
        DbfParameter {
            name: String::new(),
            param_type: DbfParamType::Int,
            min_value: owned("0"),
            max_value: owned("0"),
            default_value: String::new(),
            enum_values: Vec::new(),
        }
    }
}

/// A comment entry as plain values.
pub ghost struct DbfCommentModel {
    pub element_name: Seq<char>,
    pub message_id: Option<u32>,
    pub comment: Seq<char>,
}

/// Comment/description entry.
#[derive(Debug, Clone)]
pub struct DbfComment {
    /// Element name (node, message, or signal name)
    pub element_name: String,
    /// Message ID (for message and signal comments)
    pub message_id: Option<u32>,
    /// Comment text
    pub comment: String,
}

impl View for DbfComment {
    type V = DbfCommentModel;

    open spec fn view(&self) -> DbfCommentModel {
        DbfCommentModel {
            element_name: self.element_name@,
            message_id: self.message_id,
            comment: self.comment@,
        }
    }
}

impl Default for DbfComment {
    fn default() -> (r: Self)
        ensures
            r@ == (DbfCommentModel {
                element_name: Seq::empty(),
                message_id: None,
                comment: Seq::empty(),
            }),
    {
        DbfComment { element_name: String::new(), message_id: None, comment: String::new() }
    }
}

/// The models of a sequence of comments.
pub open spec fn comments_view(v: Seq<DbfComment>) -> Seq<DbfCommentModel> {
    v.map_values(|x: DbfComment| x@)
}

/// A database as plain values; of the parameter lists, their lengths.
pub ghost struct DbfDatabaseModel {
    pub version: Seq<char>,
    pub protocol: DbfProtocol,
    pub busmaster_version: Seq<char>,
    pub nodes: Seq<Seq<char>>,
    pub messages: Seq<DbfMessageModel>,
    pub value_tables: Seq<DbfValueTableModel>,
    pub param_counts: (nat, nat, nat, nat),
    pub network_comments: Seq<DbfCommentModel>,
    pub node_comments: Seq<DbfCommentModel>,
    pub message_comments: Seq<DbfCommentModel>,
    pub signal_comments: Seq<DbfCommentModel>,
    pub not_processed: Seq<Seq<char>>,
}

/// DBF Database - root container for parsed DBF data.
#[derive(Debug, Clone)]
pub struct DbfDatabase {
    /// Database version
    pub version: String,
    /// Protocol type
    pub protocol: DbfProtocol,
    /// BUSMASTER version
    pub busmaster_version: String,
    /// Network nodes
    pub nodes: Vec<String>,
    /// Messages
    pub messages: Vec<DbfMessage>,
    /// Value tables
    pub value_tables: Vec<DbfValueTable>,
    /// Network parameters
    pub network_params: Vec<DbfParameter>,
    /// Node parameters
    pub node_params: Vec<DbfParameter>,
    /// Message parameters
    pub message_params: Vec<DbfParameter>,
    /// Signal parameters
    pub signal_params: Vec<DbfParameter>,
    /// Network comments
    pub network_comments: Vec<DbfComment>,
    /// Node comments
    pub node_comments: Vec<DbfComment>,
    /// Message comments
    pub message_comments: Vec<DbfComment>,
    /// Signal comments
    pub signal_comments: Vec<DbfComment>,
    /// Unprocessed lines (for round-trip preservation)
    pub not_processed: Vec<String>,
}

/// The models of a sequence of messages.
pub open spec fn messages_view(v: Seq<DbfMessage>) -> Seq<DbfMessageModel> {
    v.map_values(|x: DbfMessage| x@)
}

impl View for DbfDatabase {
    type V = DbfDatabaseModel;

    open spec fn view(&self) -> DbfDatabaseModel {
        DbfDatabaseModel {
            version: self.version@,
            protocol: self.protocol,
            busmaster_version: self.busmaster_version@,
            nodes: strings_view(self.nodes@),
            messages: messages_view(self.messages@),
            value_tables: self.value_tables@.map_values(|t: DbfValueTable| t@),
            param_counts: (
                self.network_params@.len(),
                self.node_params@.len(),
                self.message_params@.len(),
                self.signal_params@.len(),
            ),
            network_comments: comments_view(self.network_comments@),
            node_comments: comments_view(self.node_comments@),
            message_comments: comments_view(self.message_comments@),
            signal_comments: comments_view(self.signal_comments@),
            not_processed: strings_view(self.not_processed@),
        }
    }
}

/// The empty database.
pub open spec fn empty_database() -> DbfDatabaseModel {
    DbfDatabaseModel {
        version: Seq::empty(),
        protocol: DbfProtocol::Can,
        busmaster_version: Seq::empty(),
        nodes: Seq::empty(),
        messages: Seq::empty(),
        value_tables: Seq::empty(),
        param_counts: (0, 0, 0, 0),
        network_comments: Seq::empty(),
        node_comments: Seq::empty(),
        message_comments: Seq::empty(),
        signal_comments: Seq::empty(),
        not_processed: Seq::empty(),
    }
}

/// The position of the first message with the given id.
pub open spec fn first_message_with_id(msgs: Seq<DbfMessage>, id: u32) -> Option<int> {
    if exists|i: int| 0 <= i < msgs.len() && msgs[i].id == id {
        Some(
            choose|i: int|
                0 <= i < msgs.len() && msgs[i].id == id && forall|j: int|
                    0 <= j < i ==> msgs[j].id != id,
        )
    } else {
        None
    }
}

/// The position of the first message with the given name.
pub open spec fn first_message_with_name(msgs: Seq<DbfMessage>, name: Seq<char>) -> Option<int> {
    if exists|i: int| 0 <= i < msgs.len() && msgs[i].name@ == name {
        Some(
            choose|i: int|
                0 <= i < msgs.len() && msgs[i].name@ == name && forall|j: int|
                    0 <= j < i ==> msgs[j].name@ != name,
        )
    } else {
        None
    }
}

/// The number of signals over the first `n` messages.
pub open spec fn signal_total(msgs: Seq<DbfMessage>, n: int) -> nat
    decreases n,
{
    if n <= 0 {
        0
    } else {
        signal_total(msgs, n - 1) + msgs[n - 1].signals@.len()
    }
}

proof fn lemma_signal_total_mono(msgs: Seq<DbfMessage>, a: int, b: int)
    requires
        0 <= a <= b,
    ensures
        signal_total(msgs, a) <= signal_total(msgs, b),
    decreases b - a,
{
    if a < b {
        lemma_signal_total_mono(msgs, a, b - 1);
    }
}

impl Default for DbfDatabase {
    fn default() -> (r: Self)
        ensures
            r@ == empty_database(),
    {
        DbfDatabase::new()
    }
}

impl DbfDatabase {
    /// Create a new empty database
    pub fn new() -> (r: Self)
        ensures
            r@ == empty_database(),
    {
        let r = DbfDatabase {
            version: String::new(),
            protocol: DbfProtocol::Can,
            busmaster_version: String::new(),
            nodes: Vec::new(),
            messages: Vec::new(),
            value_tables: Vec::new(),
            network_params: Vec::new(),
            node_params: Vec::new(),
            message_params: Vec::new(),
            signal_params: Vec::new(),
            network_comments: Vec::new(),
            node_comments: Vec::new(),
            message_comments: Vec::new(),
            signal_comments: Vec::new(),
            not_processed: Vec::new(),
        };
        assert(strings_view(r.nodes@) =~= Seq::<Seq<char>>::empty());
        assert(messages_view(r.messages@) =~= Seq::<DbfMessageModel>::empty());
        assert(r.value_tables@.map_values(|t: DbfValueTable| t@) =~= Seq::<DbfValueTableModel>::empty());
        assert(comments_view(r.network_comments@) =~= Seq::<DbfCommentModel>::empty());
        assert(comments_view(r.node_comments@) =~= Seq::<DbfCommentModel>::empty());
        assert(comments_view(r.message_comments@) =~= Seq::<DbfCommentModel>::empty());
        assert(comments_view(r.signal_comments@) =~= Seq::<DbfCommentModel>::empty());
        assert(strings_view(r.not_processed@) =~= Seq::<Seq<char>>::empty());
        r
    }

    /// Add a node to the database
    pub fn add_node(&mut self, name: &str)
        ensures
            final(self)@ == (DbfDatabaseModel { nodes: old(self)@.nodes.push(name@), ..old(self)@ }),
    {
        self.nodes.push(owned(name));
        assert(strings_view(self.nodes@) =~= strings_view(old(self).nodes@).push(name@));
    }

    /// Add a message to the database
    pub fn add_message(&mut self, message: DbfMessage)
        ensures
            final(self)@ == (DbfDatabaseModel {
                messages: old(self)@.messages.push(message@),
                ..old(self)@
            }),
    {
        let ghost m = message@;
        self.messages.push(message);
        assert(messages_view(self.messages@) =~= messages_view(old(self).messages@).push(m));
    }

    /// Find a message by ID: the first one with that ID.
    pub fn find_message_by_id(&self, id: u32) -> (r: Option<&DbfMessage>)
        ensures
            match first_message_with_id(self.messages@, id) {
                Some(i) => r == Some(&self.messages@[i]),
                None => r is None,
            },
    {
        let mut i: usize = 0;
        while i < self.messages.len()
            invariant
                i <= self.messages.len(),
                forall|j: int| 0 <= j < i ==> self.messages@[j].id != id,
            decreases self.messages.len() - i,
        {
            if self.messages[i].id == id {
                proof {
                    let k = i as int;
                    let msgs = self.messages@;
                    let c = choose|c: int|
                        0 <= c < msgs.len() && msgs[c].id == id && forall|j: int|
                            0 <= j < c ==> msgs[j].id != id;
                    assert(0 <= k < msgs.len() && msgs[k].id == id);
                    assert(c == k) by {
                        if c > k {
                            assert(msgs[k].id != id);
                        }
                    }
                }
                return Some(&self.messages[i]);
            }
            i += 1;
        }
        None
    }

    /// Find a message by ID, to change it: the first one with that ID.
    /// Only that message can change through the reference.
    pub fn find_message_by_id_mut(&mut self, id: u32) -> (r: Option<&mut DbfMessage>)
        ensures
            match first_message_with_id(old(self).messages@, id) {
                Some(i) => r matches Some(x) && *x == old(self).messages@[i]
                    && final(self).messages@ == old(self).messages@.update(i, *final(x))
                    && final(self).version == old(self).version
                    && final(self).protocol == old(self).protocol
                    && final(self).busmaster_version == old(self).busmaster_version
                    && final(self).nodes == old(self).nodes
                    && final(self).value_tables == old(self).value_tables
                    && final(self).network_params == old(self).network_params
                    && final(self).node_params == old(self).node_params
                    && final(self).message_params == old(self).message_params
                    && final(self).signal_params == old(self).signal_params
                    && final(self).network_comments == old(self).network_comments
                    && final(self).node_comments == old(self).node_comments
                    && final(self).message_comments == old(self).message_comments
                    && final(self).signal_comments == old(self).signal_comments
                    && final(self).not_processed == old(self).not_processed,
                None => r is None && *final(self) == *old(self),
            },
    {
        let mut k: usize = 0;
        while k < self.messages.len()
            invariant
                k <= self.messages.len(),
                *self == *old(self),
                forall|j: int| 0 <= j < k ==> self.messages@[j].id != id,
            decreases self.messages.len() - k,
        {
            if self.messages[k].id == id {
                proof {
                    let c = choose|c: int|
                        0 <= c < self.messages@.len() && self.messages@[c].id == id && forall|j: int|
                            0 <= j < c ==> self.messages@[j].id != id;
                    assert(0 <= c < self.messages@.len() && self.messages@[c].id == id);
                    assert(c == k) by {
                        if c > k {
                            assert(self.messages@[k as int].id != id);
                        }
                    }
                }
                return Some(&mut self.messages[k]);
            }
            k += 1;
        }
        None
    }

    /// Find a message by name: the first one with that name.
    pub fn find_message_by_name(&self, name: &str) -> (r: Option<&DbfMessage>)
        ensures
            match first_message_with_name(self.messages@, name@) {
                Some(i) => r == Some(&self.messages@[i]),
                None => r is None,
            },
    {
        let key = owned(name);
        let mut i: usize = 0;
        while i < self.messages.len()
            invariant
                i <= self.messages.len(),
                key@ == name@,
                forall|j: int| 0 <= j < i ==> self.messages@[j].name@ != name@,
            decreases self.messages.len() - i,
        {
            if self.messages[i].name == key {
                proof {
                    let k = i as int;
                    let msgs = self.messages@;
                    let c = choose|c: int|
                        0 <= c < msgs.len() && msgs[c].name@ == name@ && forall|j: int|
                            0 <= j < c ==> msgs[j].name@ != name@;
                    assert(0 <= k < msgs.len() && msgs[k].name@ == name@);
                    assert(c == k) by {
                        if c > k {
                            assert(msgs[k].name@ != name@);
                        }
                    }
                }
                return Some(&self.messages[i]);
            }
            i += 1;
        }
        None
    }

    /// Find a signal by message ID and signal name: the first signal of that
    /// name in the first message with that ID.
    pub fn find_signal(&self, message_id: u32, signal_name: &str) -> (r: Option<&DbfSignal>)
        ensures
            match first_message_with_id(self.messages@, message_id) {
                Some(i) => match first_named_signal(self.messages@[i].signals@, signal_name@) {
                    Some(k) => r == Some(&self.messages@[i].signals@[k]),
                    None => r is None,
                },
                None => r is None,
            },
    {
        match self.find_message_by_id(message_id) {
            Some(m) => m.find_signal(signal_name),
            None => None,
        }
    }

    /// Get total signal count across all messages.
    pub fn total_signal_count(&self) -> (r: usize)
        requires
            signal_total(self.messages@, self.messages@.len() as int) <= usize::MAX,
        ensures
            r == signal_total(self.messages@, self.messages@.len() as int),
    {
        let mut total: usize = 0;
        let mut i: usize = 0;
        while i < self.messages.len()
            invariant
                i <= self.messages.len(),
                total == signal_total(self.messages@, i as int),
                signal_total(self.messages@, self.messages@.len() as int) <= usize::MAX,
            decreases self.messages.len() - i,
        {
            proof {
                lemma_signal_total_mono(self.messages@, i + 1, self.messages@.len() as int);
            }
            total = total + self.messages[i].signals.len();
            i += 1;
        }
        total
    }
}

// ---------------------------------------------------------------------------
// Fields of a tag's value
// ---------------------------------------------------------------------------

/// Each vector taken by its characters.
pub open spec fn vecs_view(v: Seq<Vec<char>>) -> Seq<Seq<char>> {
    v.map_values(|x: Vec<char>| x@)
}

/// The first character of `t`, or `d` when it is empty.
pub open spec fn first_or(t: Seq<char>, d: char) -> char {
    if t.len() > 0 {
        t[0]
    } else {
        d
    }
}

/// The trimmed pieces that are not empty, in order.
pub open spec fn nonempty_trimmed(parts: Seq<Seq<char>>) -> Seq<Seq<char>>
    decreases parts.len(),
{
    if parts.len() == 0 {
        Seq::empty()
    } else {
        let r = nonempty_trimmed(parts.drop_last());
        let t = trim_spec(parts.last());
        if t.len() > 0 {
            r.push(t)
        } else {
            r
        }
    }
}

/// An unsigned decimal field (after trimming) as `str::parse` reads it, or
/// `None`.
pub open spec fn uint_field(t: Seq<char>, max: nat) -> Option<nat> {
    match crate::number::parse_unsigned_spec(trim_spec(t), 10, max) {
        Ok(v) => Some(v),
        Err(_) => None,
    }
}

/// What a `[START_MSG]` value gives: the message, or the text of the error.
pub open spec fn parse_message_spec(data: Seq<char>) -> Result<DbfMessageModel, Seq<char>> {
    let parts = split_spec(data, ',');
    if parts.len() < 6 {
        Err("Expected at least 6 fields, got "@ + dec_digits(parts.len()) + ": "@ + data)
    } else {
        match uint_field(parts[1], 0xFFFF_FFFF) {
            None => Err("Invalid message ID: "@ + parts[1]),
            Some(id) => match uint_field(parts[2], 0xFF) {
                None => Err("Invalid message length: "@ + parts[2]),
                Some(length) => match uint_field(parts[3], 0xFFFF) {
                    None => Err("Invalid signal count: "@ + parts[3]),
                    Some(count) => {
                        let fc = first_or(trim_spec(parts[5]), 'S');
                        Ok(
                            DbfMessageModel {
                                name: trim_spec(parts[0]),
                                id: if (fc == 'X' || fc == 'x') && id >= 0x8000_0000 {
                                    (id - 0x8000_0000) as u32
                                } else {
                                    id as u32
                                },
                                length: length as u8,
                                signal_count: count as u16,
                                data_format: match uint_field(parts[4], 0xFF) {
                                    Some(v) => v as u8,
                                    None => 1u8,
                                },
                                frame_format: frame_format_of(fc),
                                transmitter: if parts.len() > 6 {
                                    trim_spec(parts[6])
                                } else {
                                    Seq::empty()
                                },
                                signals: Seq::empty(),
                                comment: Seq::empty(),
                            },
                        )
                    },
                },
            },
        }
    }
}

/// What a `[START_SIGNALS]` value gives: the signal, or the text of the
/// error. Limits, offset and scale stay the fields' trimmed texts.
pub open spec fn parse_signal_spec(data: Seq<char>) -> Result<DbfSignalModel, Seq<char>> {
    let parts = split_spec(data, ',');
    if parts.len() < 11 {
        Err("Expected at least 11 fields, got "@ + dec_digits(parts.len()) + ": "@ + data)
    } else {
        match uint_field(parts[1], 0xFF) {
            None => Err("Invalid signal length: "@ + parts[1]),
            Some(length) => match uint_field(parts[2], 0xFF) {
                None => Err("Invalid which_byte: "@ + parts[2]),
                Some(which_byte) => match uint_field(parts[3], 0xFF) {
                    None => Err("Invalid start_bit: "@ + parts[3]),
                    Some(start_bit) => Ok(
                        DbfSignalModel {
                            name: trim_spec(parts[0]),
                            length: length as u8,
                            which_byte: which_byte as u8,
                            start_bit: start_bit as u8,
                            signal_type: signal_type_of(first_or(trim_spec(parts[4]), 'U')),
                            max_value: trim_spec(parts[5]),
                            min_value: trim_spec(parts[6]),
                            byte_order: byte_order_of(first_or(trim_spec(parts[7]), '1')),
                            offset: trim_spec(parts[8]),
                            scale_factor: trim_spec(parts[9]),
                            unit: trim_spec(parts[10]),
                            multiplex: if parts.len() > 11 {
                                trim_spec(parts[11])
                            } else {
                                Seq::empty()
                            },
                            receivers: if parts.len() > 12 {
                                nonempty_trimmed(parts.subrange(12, parts.len() as int))
                            } else {
                                Seq::empty()
                            },
                            value_descriptors: Seq::empty(),
                            comment: Seq::empty(),
                        },
                    ),
                },
            },
        }
    }
}

/// What a value description line gives: `"text",value` (with whitespace
/// around the parts), or `None`.
pub open spec fn parse_value_descriptor_spec(data: Seq<char>) -> Option<DbfValueDescriptorModel> {
    let d = trim_spec(data);
    let start = crate::scan::scan_spec(d, 0, crate::scan::CharClass::NotQuote);
    if d.len() == 0 || start >= d.len() {
        None
    } else {
        let end = crate::scan::scan_spec(d, start + 1, crate::scan::CharClass::NotQuote);
        if end >= d.len() {
            None
        } else {
            let rest = trim_spec(d.subrange(end + 1, d.len() as int));
            if rest.len() > 0 && rest[0] == ',' {
                match crate::number::parse_i64_spec(trim_spec(rest.drop_first())) {
                    Ok(v) => Some(
                        DbfValueDescriptorModel {
                            value: v as i64,
                            description: d.subrange(start + 1, end),
                        },
                    ),
                    Err(_) => None,
                }
            } else {
                None
            }
        }
    }
}

/// ROT13 of one character: ASCII letters move 13 places in their case's
/// alphabet; anything else stays.
pub open spec fn rot13_char(c: char) -> char {
    if 'a' <= c && c <= 'z' {
        ((c as int - 97 + 13) % 26 + 97) as char
    } else if 'A' <= c && c <= 'Z' {
        ((c as int - 65 + 13) % 26 + 65) as char
    } else {
        c
    }
}

/// Applying ROT13 twice gives the character back.
pub proof fn lemma_rot13_involution(c: char)
    ensures
        rot13_char(rot13_char(c)) == c,
{
}

proof fn lemma_split_view(data: Seq<char>, parts: Seq<Vec<char>>)
    requires
        parts.len() == split_spec(data, ',').len(),
        forall|i: int| 0 <= i < parts.len() ==> #[trigger] parts[i]@ == split_spec(data, ',')[i],
    ensures
        vecs_view(parts) == split_spec(data, ','),
{
    assert(vecs_view(parts) =~= split_spec(data, ','));
}

fn parse_uint_field(t: &[char], max: u64) -> (r: Option<u64>)
    ensures
        match uint_field(t@, max as nat) {
            Some(v) => r == Some(v as u64) && v <= max,
            None => r is None,
        },
{
    let v = trim(t);
    match crate::number::parse_unsigned(v.as_slice(), 0, v.len(), 10, max) {
        Ok(x) => {
            assert(v@.subrange(0, v@.len() as int) =~= v@);
            proof {
                crate::number::lemma_parse_unsigned_bound(v@, 10, max as nat);
            }
            Some(x)
        },
        Err(_) => {
            assert(v@.subrange(0, v@.len() as int) =~= v@);
            None
        },
    }
}

fn first_char_or(t: &[char], d: char) -> (r: char)
    ensures
        r == first_or(trim_spec(t@), d),
{
    let v = trim(t);
    if v.len() > 0 {
        v[0]
    } else {
        d
    }
}

fn trimmed_string(t: &[char]) -> (r: String)
    ensures
        r@ == trim_spec(t@),
{
    string_from_chars(trim(t).as_slice())
}

pub(crate) fn nonempty_trimmed_exec(parts: &Vec<Vec<char>>, from: usize) -> (r: Vec<String>)
    requires
        from <= parts.len(),
    ensures
        strings_view(r@) == nonempty_trimmed(vecs_view(parts@).subrange(from as int, parts@.len() as int)),
{
    let mut out: Vec<String> = Vec::new();
    let mut i = from;
    let ghost all = vecs_view(parts@);
    assert(all.subrange(from as int, from as int) =~= Seq::<Seq<char>>::empty());
    assert(strings_view(out@) =~= Seq::<Seq<char>>::empty());
    while i < parts.len()
        invariant
            from <= i <= parts.len(),
            all == vecs_view(parts@),
            strings_view(out@) == nonempty_trimmed(all.subrange(from as int, i as int)),
        decreases parts.len() - i,
    {
        let tv = trim(parts[i].as_slice());
        let ghost prev = strings_view(out@);
        assert(all.subrange(from as int, i + 1).drop_last() =~= all.subrange(from as int, i as int));
        assert(all.subrange(from as int, i + 1).last() == parts@[i as int]@);
        if tv.len() > 0 {
            out.push(string_from_chars(tv.as_slice()));
            assert(strings_view(out@) =~= prev.push(tv@));
        }
        i += 1;
    }
    out
}

fn invalid_field(prefix: &str, field: &[char]) -> (r: String)
    ensures
        r@ == prefix@ + field@,
{
    let mut m = String::new();
    push_str(&mut m, prefix);
    push_chars(&mut m, field);
    m
}

fn field_count_message(expected: &str, n: usize, data: &[char]) -> (r: String)
    ensures
        r@ == expected@ + dec_digits(n as nat) + ": "@ + data@,
{
    let mut m = String::new();
    push_str(&mut m, expected);
    push_dec(&mut m, n as u64);
    push_str(&mut m, ": ");
    proof {
        reveal_strlit(": ");
    }
    push_chars(&mut m, data);
    m
}

fn parse_message(data: &[char]) -> (r: Result<DbfMessage, DbfParseError>)
    ensures
        match parse_message_spec(data@) {
            Ok(m) => r matches Ok(msg) && msg@ == m,
            Err(t) => r matches Err(DbfParseError::InvalidMessage(x)) && x@ == t,
        },
{
    let parts = split_at_char(data, ',');
    proof {
        lemma_split_view(data@, parts@);
    }
    if parts.len() < 6 {
        let m = field_count_message("Expected at least 6 fields, got ", parts.len(), data);
        proof {
            reveal_strlit("Expected at least 6 fields, got ");
        }
        return Err(DbfParseError::InvalidMessage(m));
    }
    let id = match parse_uint_field(parts[1].as_slice(), 0xFFFF_FFFF) {
        Some(v) => v,
        None => {
            proof {
                reveal_strlit("Invalid message ID: ");
            }
            return Err(
                DbfParseError::InvalidMessage(invalid_field("Invalid message ID: ", parts[1].as_slice())),
            );
        },
    };
    let length = match parse_uint_field(parts[2].as_slice(), 0xFF) {
        Some(v) => v,
        None => {
            proof {
                reveal_strlit("Invalid message length: ");
            }
            return Err(
                DbfParseError::InvalidMessage(
                    invalid_field("Invalid message length: ", parts[2].as_slice()),
                ),
            );
        },
    };
    let count = match parse_uint_field(parts[3].as_slice(), 0xFFFF) {
        Some(v) => v,
        None => {
            proof {
                reveal_strlit("Invalid signal count: ");
            }
            return Err(
                DbfParseError::InvalidMessage(invalid_field("Invalid signal count: ", parts[3].as_slice())),
            );
        },
    };
    let data_format: u8 = match parse_uint_field(parts[4].as_slice(), 0xFF) {
        Some(v) => v as u8,
        None => 1,
    };
    let fc = first_char_or(parts[5].as_slice(), 'S');
    let final_id: u32 = if (fc == 'X' || fc == 'x') && id >= 0x8000_0000 {
        (id - 0x8000_0000) as u32
    } else {
        id as u32
    };
    let transmitter = if parts.len() > 6 {
        trimmed_string(parts[6].as_slice())
    } else {
        String::new()
    };
    let msg = DbfMessage {
        name: trimmed_string(parts[0].as_slice()),
        id: final_id,
        length: length as u8,
        signal_count: count as u16,
        data_format,
        frame_format: DbfFrameFormat::from_char(fc),
        transmitter,
        signals: Vec::new(),
        comment: String::new(),
    };
    assert(signals_view(msg.signals@) =~= Seq::<DbfSignalModel>::empty());
    Ok(msg)
}

fn parse_signal(data: &[char]) -> (r: Result<DbfSignal, DbfParseError>)
    ensures
        match parse_signal_spec(data@) {
            Ok(m) => r matches Ok(sig) && sig@ == m,
            Err(t) => r matches Err(DbfParseError::InvalidSignal(x)) && x@ == t,
        },
{
    let parts = split_at_char(data, ',');
    proof {
        lemma_split_view(data@, parts@);
    }
    if parts.len() < 11 {
        let m = field_count_message("Expected at least 11 fields, got ", parts.len(), data);
        proof {
            reveal_strlit("Expected at least 11 fields, got ");
        }
        return Err(DbfParseError::InvalidSignal(m));
    }
    let length = match parse_uint_field(parts[1].as_slice(), 0xFF) {
        Some(v) => v,
        None => {
            proof {
                reveal_strlit("Invalid signal length: ");
            }
            return Err(
                DbfParseError::InvalidSignal(invalid_field("Invalid signal length: ", parts[1].as_slice())),
            );
        },
    };
    let which_byte = match parse_uint_field(parts[2].as_slice(), 0xFF) {
        Some(v) => v,
        None => {
            proof {
                reveal_strlit("Invalid which_byte: ");
            }
            return Err(
                DbfParseError::InvalidSignal(invalid_field("Invalid which_byte: ", parts[2].as_slice())),
            );
        },
    };
    let start_bit = match parse_uint_field(parts[3].as_slice(), 0xFF) {
        Some(v) => v,
        None => {
            proof {
                reveal_strlit("Invalid start_bit: ");
            }
            return Err(
                DbfParseError::InvalidSignal(invalid_field("Invalid start_bit: ", parts[3].as_slice())),
            );
        },
    };
    let multiplex = if parts.len() > 11 {
        trimmed_string(parts[11].as_slice())
    } else {
        String::new()
    };
    let receivers = if parts.len() > 12 {
        nonempty_trimmed_exec(&parts, 12)
    } else {
        Vec::new()
    };
    let sig = DbfSignal {
        name: trimmed_string(parts[0].as_slice()),
        length: length as u8,
        which_byte: which_byte as u8,
        start_bit: start_bit as u8,
        signal_type: DbfSignalType::from_char(first_char_or(parts[4].as_slice(), 'U')),
        max_value: trimmed_string(parts[5].as_slice()),
        min_value: trimmed_string(parts[6].as_slice()),
        byte_order: DbfByteOrder::from_char(first_char_or(parts[7].as_slice(), '1')),
        offset: trimmed_string(parts[8].as_slice()),
        scale_factor: trimmed_string(parts[9].as_slice()),
        unit: trimmed_string(parts[10].as_slice()),
        multiplex,
        receivers,
        value_descriptors: Vec::new(),
        comment: String::new(),
    };
    assert(strings_view(sig.receivers@) == (if parts@.len() > 12 {
        nonempty_trimmed(vecs_view(parts@).subrange(12, parts@.len() as int))
    } else {
        Seq::<Seq<char>>::empty()
    }));
    assert(descriptors_view(sig.value_descriptors@) =~= Seq::<DbfValueDescriptorModel>::empty());
    Ok(sig)
}

fn parse_value_descriptor(data: &[char]) -> (r: Option<DbfValueDescriptor>)
    ensures
        match parse_value_descriptor_spec(data@) {
            Some(m) => r matches Some(vd) && vd@ == m,
            None => r is None,
        },
{
    let d = trim(data);
    let ds = d.as_slice();
    if ds.len() == 0 {
        return None;
    }
    let start = crate::scan::scan(ds, 0, crate::scan::CharClass::NotQuote);
    if start >= ds.len() {
        return None;
    }
    let end = crate::scan::scan(ds, start + 1, crate::scan::CharClass::NotQuote);
    if end >= ds.len() {
        return None;
    }
    let rest_raw = slice_to_vec(ds, end + 1, ds.len());
    let rest = trim(rest_raw.as_slice());
    if rest.len() > 0 && rest[0] == ',' {
        let tail = slice_to_vec(rest.as_slice(), 1, rest.len());
        assert(tail@ =~= rest@.drop_first());
        let vt = trim(tail.as_slice());
        match crate::number::parse_i64(vt.as_slice(), 0, vt.len()) {
            Ok(v) => {
                assert(vt@.subrange(0, vt@.len() as int) =~= vt@);
                let desc = string_from_chars(slice_to_vec(ds, start + 1, end).as_slice());
                Some(DbfValueDescriptor { value: v, description: desc })
            },
            Err(_) => {
                assert(vt@.subrange(0, vt@.len() as int) =~= vt@);
                None
            },
        }
    } else {
        None
    }
}

fn rot13(c: char) -> (r: char)
    ensures
        r == rot13_char(c),
{
    if 'a' <= c && c <= 'z' {
        let b = c as u32 - 97;
        let x = (b + 13) % 26 + 97;
        assert(x < 128);
        (x as u8) as char
    } else if 'A' <= c && c <= 'Z' {
        let b = c as u32 - 65;
        let x = (b + 13) % 26 + 65;
        assert(x < 128);
        (x as u8) as char
    } else {
        c
    }
}

/// ROT13 applied to every character.
pub open spec fn rot13_spec(s: Seq<char>) -> Seq<char> {
    s.map_values(|c: char| rot13_char(c))
}

// ---------------------------------------------------------------------------
// The file: lines, tags and sections
// ---------------------------------------------------------------------------

/// The position after the spaces, tabs and carriage returns at `p`.
pub open spec fn blank_end(s: Seq<char>, p: int) -> int {
    scan_spec(s, p, CharClass::Blank)
}

/// The position of the line feed that ends the line at `p`, or the end.
pub open spec fn eol(s: Seq<char>, p: int) -> int {
    scan_spec(s, p, CharClass::NotNewline)
}

/// The start of the next line.
pub open spec fn next_line(s: Seq<char>, p: int) -> int {
    let e = eol(s, p);
    if e < s.len() {
        e + 1
    } else {
        e
    }
}

/// The rest of the line at `p`, trimmed.
pub open spec fn line_text(s: Seq<char>, p: int) -> Seq<char> {
    trim_spec(s.subrange(p, eol(s, p)))
}

/// The value after a tag: the rest of its line, trimmed.
pub open spec fn tag_value(s: Seq<char>, p: int) -> (int, Seq<char>) {
    let q = blank_end(s, p);
    (next_line(s, q), line_text(s, q))
}

/// A tag `[NAME]` after blanks: the position after it and its name; with
/// no tag there, the position after the blanks (or the end, for a `[`
/// that is never closed) and `None`.
pub open spec fn read_tag_spec(s: Seq<char>, p: int) -> (int, Option<Seq<char>>) {
    let q = blank_end(s, p);
    if 0 <= q < s.len() && s[q] == '[' {
        let e = scan_spec(s, q + 1, CharClass::NotCloseBracket);
        if e < s.len() {
            (e + 1, Some(s.subrange(q + 1, e)))
        } else {
            (e, None)
        }
    } else {
        (q, None)
    }
}

/// Whether `n` occurs in `h` at `i`.
pub open spec fn occurs_at(h: Seq<char>, n: Seq<char>, i: int) -> bool {
    0 <= i && i + n.len() <= h.len() && h.subrange(i, i + n.len()) == n
}

/// Whether `n` occurs in `h`.
pub open spec fn contains_seq(h: Seq<char>, n: Seq<char>) -> bool {
    exists|i: int| #[trigger] occurs_at(h, n, i)
}

/// The lines skipped up to and including the first that holds `marker`.
pub open spec fn skip_section(s: Seq<char>, p: int, marker: Seq<char>) -> int
    decreases s.len() - p,
{
    if p < 0 || p >= s.len() {
        p
    } else {
        let q = next_line(s, p);
        if contains_seq(line_text(s, p), marker) || q <= p || q > s.len() {
            q
        } else {
            skip_section(s, q, marker)
        }
    }
}

/// A comment entry holding only its text.
pub open spec fn text_comment(line: Seq<char>) -> DbfCommentModel {
    DbfCommentModel { element_name: Seq::empty(), message_id: None, comment: line }
}

/// The non-empty lines before the first that holds `marker`, as comments.
pub open spec fn comment_section(s: Seq<char>, p: int, marker: Seq<char>) -> (int, Seq<DbfCommentModel>)
    decreases s.len() - p,
{
    if p < 0 || p >= s.len() {
        (p, Seq::empty())
    } else {
        let q = next_line(s, p);
        let line = line_text(s, p);
        if contains_seq(line, marker) || q <= p || q > s.len() {
            (q, Seq::empty())
        } else {
            let (r, rest) = comment_section(s, q, marker);
            (r, if line.len() > 0 { seq![text_comment(line)] + rest } else { rest })
        }
    }
}

/// The non-empty lines before `[END_NOT_PROCESSED]`, each decoded by ROT13.
pub open spec fn not_processed_section(s: Seq<char>, p: int) -> (int, Seq<Seq<char>>)
    decreases s.len() - p,
{
    if p < 0 || p >= s.len() {
        (p, Seq::empty())
    } else {
        let q = next_line(s, p);
        let line = line_text(s, p);
        if contains_seq(line, "[END_NOT_PROCESSED]"@) || q <= p || q > s.len() {
            (q, Seq::empty())
        } else {
            let (r, rest) = not_processed_section(s, q);
            (r, if line.len() > 0 { seq![rot13_spec(line)] + rest } else { rest })
        }
    }
}

/// One step inside `[START_DESC]`: the next position, the database, and
/// whether `[END_DESC]` closed the block.
pub open spec fn desc_step(s: Seq<char>, p: int, db: DbfDatabaseModel) -> (int, DbfDatabaseModel, bool) {
    let q = blank_end(s, p);
    if 0 <= q < s.len() && s[q] == '\n' {
        (q + 1, db, false)
    } else {
        let (r, tag) = read_tag_spec(s, q);
        match tag {
            Some(t) => if t == "END_DESC"@ {
                (next_line(s, r), db, true)
            } else if t == "START_DESC_NET"@ {
                let (e, c) = comment_section(s, r, "[END_DESC_NET]"@);
                (e, DbfDatabaseModel { network_comments: db.network_comments + c, ..db }, false)
            } else if t == "START_DESC_NODE"@ {
                let (e, c) = comment_section(s, r, "[END_DESC_NODE]"@);
                (e, DbfDatabaseModel { node_comments: db.node_comments + c, ..db }, false)
            } else if t == "START_DESC_MSG"@ {
                let (e, c) = comment_section(s, r, "[END_DESC_MSG]"@);
                (e, DbfDatabaseModel { message_comments: db.message_comments + c, ..db }, false)
            } else if t == "START_DESC_SIG"@ {
                let (e, c) = comment_section(s, r, "[END_DESC_SIG]"@);
                (e, DbfDatabaseModel { signal_comments: db.signal_comments + c, ..db }, false)
            } else {
                (next_line(s, r), db, false)
            },
            None => (next_line(s, r), db, false),
        }
    }
}

/// The `[START_DESC]` block from `p` up to `[END_DESC]`.
pub open spec fn desc_block(s: Seq<char>, p: int, db: DbfDatabaseModel) -> (int, DbfDatabaseModel)
    decreases s.len() - p,
{
    if p < 0 || p >= s.len() {
        (p, db)
    } else {
        let (q, db2, done) = desc_step(s, p, db);
        if done || q <= p || q > s.len() {
            (q, db2)
        } else {
            desc_block(s, q, db2)
        }
    }
}

/// One step inside `[START_TABLE]`: the next position, the values, and
/// whether `[END_TABLE]` closed the table.
pub open spec fn table_step(s: Seq<char>, p: int, vals: Seq<DbfValueDescriptorModel>) -> (
    int,
    Seq<DbfValueDescriptorModel>,
    bool,
) {
    let q = blank_end(s, p);
    if 0 <= q < s.len() && s[q] == '\n' {
        (q + 1, vals, false)
    } else if 0 <= q < s.len() && s[q] == '[' {
        let (r, tag) = read_tag_spec(s, q);
        if tag == Some("END_TABLE"@) {
            (next_line(s, r), vals, true)
        } else {
            (r, vals, false)
        }
    } else {
        (
            next_line(s, q),
            match parse_value_descriptor_spec(line_text(s, q)) {
                Some(d) => vals.push(d),
                None => vals,
            },
            false,
        )
    }
}

/// The lines of a value table from `p` up to `[END_TABLE]`.
pub open spec fn table_lines(s: Seq<char>, p: int, vals: Seq<DbfValueDescriptorModel>) -> (
    int,
    Seq<DbfValueDescriptorModel>,
)
    decreases s.len() - p,
{
    if p < 0 || p >= s.len() {
        (p, vals)
    } else {
        let (q, v2, done) = table_step(s, p, vals);
        if done || q <= p || q > s.len() {
            (q, v2)
        } else {
            table_lines(s, q, v2)
        }
    }
}

/// One step inside `[START_VALUE_TABLE]`.
pub open spec fn tables_step(s: Seq<char>, p: int, tables: Seq<DbfValueTableModel>) -> (
    int,
    Seq<DbfValueTableModel>,
    bool,
) {
    let q = blank_end(s, p);
    if 0 <= q < s.len() && s[q] == '\n' {
        (q + 1, tables, false)
    } else {
        let (r, tag) = read_tag_spec(s, q);
        if tag == Some("END_VALUE_TABLE"@) {
            (next_line(s, r), tables, true)
        } else if tag == Some("START_TABLE"@) {
            let (a, name) = tag_value(s, r);
            let (b, vals) = table_lines(s, a, Seq::empty());
            (b, tables.push(DbfValueTableModel { name, values: vals }), false)
        } else {
            (next_line(s, r), tables, false)
        }
    }
}

/// The `[START_VALUE_TABLE]` block from `p` up to `[END_VALUE_TABLE]`.
pub open spec fn tables_block(s: Seq<char>, p: int, tables: Seq<DbfValueTableModel>) -> (
    int,
    Seq<DbfValueTableModel>,
)
    decreases s.len() - p,
{
    if p < 0 || p >= s.len() {
        (p, tables)
    } else {
        let (q, t2, done) = tables_step(s, p, tables);
        if done || q <= p || q > s.len() {
            (q, t2)
        } else {
            tables_block(s, q, t2)
        }
    }
}

/// What the parser holds between lines: the database so far, the message
/// being read and its signal being read.
pub ghost struct DbfParseState {
    pub db: DbfDatabaseModel,
    pub msg: Option<DbfMessageModel>,
    pub sig: Option<DbfSignalModel>,
}

/// Why a DBF text is refused: the text of an invalid message or signal
/// definition.
pub ghost enum DbfFailure {
    Message(Seq<char>),
    Signal(Seq<char>),
}

/// Whether an error is the one that a failure names.
pub open spec fn failure_is(e: DbfParseError, f: DbfFailure) -> bool {
    match f {
        DbfFailure::Message(t) => e matches DbfParseError::InvalidMessage(m) && m@ == t,
        DbfFailure::Signal(t) => e matches DbfParseError::InvalidSignal(m) && m@ == t,
    }
}

/// Closing the message being read: its pending signal joins it and it
/// joins the database. With no message, nothing changes.
pub open spec fn close_message(st: DbfParseState) -> DbfParseState {
    match st.msg {
        Some(m) => {
            let m2 = match st.sig {
                Some(x) => with_signal(m, x),
                None => m,
            };
            DbfParseState {
                db: DbfDatabaseModel { messages: st.db.messages.push(m2), ..st.db },
                msg: None,
                sig: None,
            }
        },
        None => st,
    }
}

/// The leading and trailing square brackets of `t` removed.
pub open spec fn trim_brackets(t: Seq<char>) -> Seq<char>
    decreases t.len(),
{
    if t.len() > 0 && (t[0] == '[' || t[0] == ']') {
        trim_brackets(t.drop_first())
    } else if t.len() > 0 && (t.last() == '[' || t.last() == ']') {
        trim_brackets(t.drop_last())
    } else {
        t
    }
}

/// The effect of the tag `t`, read up to position `r`.
pub open spec fn tag_step(s: Seq<char>, r: int, t: Seq<char>, st: DbfParseState) -> Result<
    (int, DbfParseState),
    DbfFailure,
> {
    let (a, v) = tag_value(s, r);
    let db = st.db;
    if t == "DATABASE_VERSION"@ {
        Ok((a, DbfParseState { db: DbfDatabaseModel { version: v, ..db }, ..st }))
    } else if t == "PROTOCOL"@ {
        Ok(
            (
                a,
                DbfParseState {
                    db: DbfDatabaseModel {
                        protocol: protocol_of_upper(upper_text(trim_spec(v))),
                        ..db
                    },
                    ..st
                },
            ),
        )
    } else if t == "BUSMASTER_VERSION"@ {
        Ok((a, DbfParseState { db: DbfDatabaseModel { busmaster_version: trim_brackets(v), ..db }, ..st }))
    } else if t == "NUMBER_OF_MESSAGES"@ {
        Ok((a, st))
    } else if t == "NODE"@ {
        Ok(
            (
                a,
                DbfParseState {
                    db: DbfDatabaseModel {
                        nodes: db.nodes + nonempty_trimmed(split_spec(v, ',')),
                        ..db
                    },
                    ..st
                },
            ),
        )
    } else if t == "START_MSG"@ {
        match parse_message_spec(v) {
            Ok(m) => Ok((a, DbfParseState { msg: Some(m), ..close_message(st) })),
            Err(e) => Err(DbfFailure::Message(e)),
        }
    } else if t == "END_MSG"@ {
        Ok((next_line(s, r), close_message(st)))
    } else if t == "START_SIGNALS"@ {
        let msg2 = match (st.sig, st.msg) {
            (Some(x), Some(m)) => Some(with_signal(m, x)),
            _ => st.msg,
        };
        match parse_signal_spec(v) {
            Ok(x) => Ok((a, DbfParseState { db, msg: msg2, sig: Some(x) })),
            Err(e) => Err(DbfFailure::Signal(e)),
        }
    } else if t == "VALUE_DESCRIPTION"@ {
        match (st.sig, parse_value_descriptor_spec(v)) {
            (Some(x), Some(d)) => Ok(
                (
                    a,
                    DbfParseState {
                        sig: Some(DbfSignalModel { value_descriptors: x.value_descriptors.push(d), ..x }),
                        ..st
                    },
                ),
            ),
            _ => Ok((a, st)),
        }
    } else if t == "START_SIG_LIST"@ {
        Ok((skip_section(s, r, "[END_SIG_LIST]"@), st))
    } else if t == "START_VALUE_TABLE"@ {
        let (e, tables) = tables_block(s, r, db.value_tables);
        Ok((e, DbfParseState { db: DbfDatabaseModel { value_tables: tables, ..db }, ..st }))
    } else if t == "START_PARAM"@ {
        Ok((skip_section(s, r, "[END_PARAM]"@), st))
    } else if t == "START_PARAM_VAL"@ {
        Ok((skip_section(s, r, "[END_PARAM_VAL]"@), st))
    } else if t == "START_DESC"@ {
        let (e, db2) = desc_block(s, r, db);
        Ok((e, DbfParseState { db: db2, ..st }))
    } else if t == "START_NOT_PROCESSED"@ {
        let (e, lines) = not_processed_section(s, r);
        Ok((e, DbfParseState { db: DbfDatabaseModel { not_processed: db.not_processed + lines, ..db }, ..st }))
    } else if t == "START_NOT_SUPPORTED"@ {
        Ok((skip_section(s, r, "[END_NOT_SUPPORTED]"@), st))
    } else {
        Ok((next_line(s, r), st))
    }
}

/// One step of the parser at `p`: a blank line, a `//` comment line, a tag,
/// or any other line (skipped).
#[verifier::opaque]
pub open spec fn main_step(s: Seq<char>, p: int, st: DbfParseState) -> Result<(int, DbfParseState), DbfFailure> {
    let q = blank_end(s, p);
    if 0 <= q < s.len() && s[q] == '\n' {
        Ok((q + 1, st))
    } else if crate::scan::tag_spec(s, q, "//"@) is Some {
        Ok((next_line(s, q), st))
    } else if 0 <= q < s.len() && s[q] == '[' {
        let (r, tag) = read_tag_spec(s, q);
        match tag {
            Some(t) => tag_step(s, r, t, st),
            None => Ok((r, st)),
        }
    } else {
        Ok((next_line(s, q), st))
    }
}

/// The parser run from `p` to the end of the text.
pub open spec fn run(s: Seq<char>, p: int, st: DbfParseState) -> Result<DbfParseState, DbfFailure>
    decreases s.len() - p,
{
    if p < 0 || p >= s.len() {
        Ok(st)
    } else {
        match main_step(s, p, st) {
            Err(e) => Err(e),
            Ok((q, st2)) => if q <= p || q > s.len() {
                Ok(st2)
            } else {
                run(s, q, st2)
            },
        }
    }
}

/// The database that a DBF text holds, or why it is refused.
pub open spec fn dbf_spec(s: Seq<char>) -> Result<DbfDatabaseModel, DbfFailure> {
    match run(s, 0, DbfParseState { db: empty_database(), msg: None, sig: None }) {
        Ok(st) => Ok(close_message(st).db),
        Err(e) => Err(e),
    }
}

fn blank_end_exec(s: &[char], p: usize) -> (r: usize)
    requires
        p <= s.len(),
    ensures
        r == blank_end(s@, p as int),
        p <= r <= s.len(),
{
    scan(s, p, CharClass::Blank)
}

fn next_line_exec(s: &[char], p: usize) -> (r: usize)
    requires
        p <= s.len(),
    ensures
        r == next_line(s@, p as int),
        p <= r <= s.len(),
        p < s.len() ==> p < r,
{
    let e = scan(s, p, CharClass::NotNewline);
    if e < s.len() {
        e + 1
    } else {
        e
    }
}

fn line_text_exec(s: &[char], p: usize) -> (r: Vec<char>)
    requires
        p <= s.len(),
    ensures
        r@ == line_text(s@, p as int),
{
    let e = scan(s, p, CharClass::NotNewline);
    trim(slice_to_vec(s, p, e).as_slice())
}

fn tag_value_exec(s: &[char], p: usize) -> (r: (usize, Vec<char>))
    requires
        p <= s.len(),
    ensures
        (r.0 as int, r.1@) == tag_value(s@, p as int),
        p <= r.0 <= s.len(),
{
    let q = blank_end_exec(s, p);
    (next_line_exec(s, q), line_text_exec(s, q))
}

fn read_tag_exec(s: &[char], p: usize) -> (r: (usize, Option<Vec<char>>))
    requires
        p <= s.len(),
    ensures
        r.0 as int == read_tag_spec(s@, p as int).0,
        match read_tag_spec(s@, p as int).1 {
            Some(t) => r.1 matches Some(v) && v@ == t,
            None => r.1 is None,
        },
        p <= r.0 <= s.len(),
        r.1 is Some ==> p < r.0,
        blank_end(s@, p as int) < s.len() && s@[blank_end(s@, p as int)] == '[' ==> p < r.0,
{
    let q = blank_end_exec(s, p);
    if q < s.len() && s[q] == '[' {
        let e = scan(s, q + 1, CharClass::NotCloseBracket);
        if e < s.len() {
            (e + 1, Some(slice_to_vec(s, q + 1, e)))
        } else {
            (e, None)
        }
    } else {
        (q, None)
    }
}

pub(crate) fn contains_exec(h: &[char], n: &[char]) -> (r: bool)
    ensures
        r == contains_seq(h@, n@),
{
    if n.len() > h.len() {
        assert forall|i: int| !occurs_at(h@, n@, i) by {}
        return false;
    }
    if n.len() == 0 {
        assert(h@.subrange(0, 0) =~= n@);
        assert(occurs_at(h@, n@, 0));
        return true;
    }
    let mut i: usize = 0;
    while i <= h.len() - n.len()
        invariant
            1 <= n.len() <= h.len(),
            i <= h.len() - n.len() + 1,
            forall|j: int| 0 <= j < i ==> !occurs_at(h@, n@, j),
        decreases h.len() - n.len() + 1 - i,
    {
        if crate::text::has_prefix_at(h, i, n) {
            assert(occurs_at(h@, n@, i as int));
            return true;
        }
        i += 1;
    }
    assert forall|j: int| !occurs_at(h@, n@, j) by {
        if 0 <= j < i {
        }
    }
    false
}

fn skip_section_exec(s: &[char], p: usize, marker: &[char]) -> (r: usize)
    requires
        p <= s.len(),
    ensures
        r == skip_section(s@, p as int, marker@),
        p <= r <= s.len(),
{
    let mut pos = p;
    while pos < s.len()
        invariant
            p <= pos <= s.len(),
            skip_section(s@, p as int, marker@) == skip_section(s@, pos as int, marker@),
        decreases s.len() - pos,
    {
        let q = next_line_exec(s, pos);
        let line = line_text_exec(s, pos);
        if contains_exec(line.as_slice(), marker) {
            return q;
        }
        pos = q;
    }
    pos
}

fn comment_section_exec(s: &[char], p: usize, marker: &[char]) -> (r: (usize, Vec<DbfComment>))
    requires
        p <= s.len(),
    ensures
        (r.0 as int, comments_view(r.1@)) == comment_section(s@, p as int, marker@),
        p <= r.0 <= s.len(),
{
    let mut out: Vec<DbfComment> = Vec::new();
    let mut pos = p;
    assert(comments_view(out@) =~= Seq::<DbfCommentModel>::empty());
    while pos < s.len()
        invariant
            p <= pos <= s.len(),
            comment_section(s@, p as int, marker@) == ({
                let (r, rest) = comment_section(s@, pos as int, marker@);
                (r, comments_view(out@) + rest)
            }),
        decreases s.len() - pos,
    {
        let q = next_line_exec(s, pos);
        let line = line_text_exec(s, pos);
        if contains_exec(line.as_slice(), marker) {
            assert(comments_view(out@) + Seq::<DbfCommentModel>::empty() =~= comments_view(out@));
            return (q, out);
        }
        if line.len() > 0 {
            let ghost prev = comments_view(out@);
            let c = DbfComment {
                element_name: String::new(),
                message_id: None,
                comment: string_from_chars(line.as_slice()),
            };
            out.push(c);
            assert(comments_view(out@) =~= prev.push(text_comment(line@)));
            proof {
                let (r, rest) = comment_section(s@, q as int, marker@);
                assert(prev + (seq![text_comment(line@)] + rest) =~= comments_view(out@) + rest);
            }
        }
        pos = q;
    }
    assert(comments_view(out@) + Seq::<DbfCommentModel>::empty() =~= comments_view(out@));
    (pos, out)
}

fn rot13_string(t: &[char]) -> (r: String)
    ensures
        r@ == rot13_spec(t@),
{
    let mut out = String::new();
    let mut i: usize = 0;
    while i < t.len()
        invariant
            i <= t.len(),
            out@ == rot13_spec(t@.take(i as int)),
        decreases t.len() - i,
    {
        push_char(&mut out, rot13(t[i]));
        i += 1;
        assert(out@ =~= rot13_spec(t@.take(i as int)));
    }
    assert(t@.take(t.len() as int) =~= t@);
    out
}

fn not_processed_exec(s: &[char], p: usize) -> (r: (usize, Vec<String>))
    requires
        p <= s.len(),
    ensures
        (r.0 as int, strings_view(r.1@)) == not_processed_section(s@, p as int),
        p <= r.0 <= s.len(),
{
    let marker = [
        '[', 'E', 'N', 'D', '_', 'N', 'O', 'T', '_', 'P', 'R', 'O', 'C', 'E', 'S', 'S', 'E', 'D', ']',
    ];
    proof {
        reveal_strlit("[END_NOT_PROCESSED]");
    }
    assert(marker@ =~= "[END_NOT_PROCESSED]"@);
    let mut out: Vec<String> = Vec::new();
    let mut pos = p;
    assert(strings_view(out@) =~= Seq::<Seq<char>>::empty());
    while pos < s.len()
        invariant
            p <= pos <= s.len(),
            marker@ == "[END_NOT_PROCESSED]"@,
            not_processed_section(s@, p as int) == ({
                let (r, rest) = not_processed_section(s@, pos as int);
                (r, strings_view(out@) + rest)
            }),
        decreases s.len() - pos,
    {
        let q = next_line_exec(s, pos);
        let line = line_text_exec(s, pos);
        if contains_exec(line.as_slice(), &marker) {
            assert(strings_view(out@) + Seq::<Seq<char>>::empty() =~= strings_view(out@));
            return (q, out);
        }
        if line.len() > 0 {
            let ghost prev = strings_view(out@);
            out.push(rot13_string(line.as_slice()));
            assert(strings_view(out@) =~= prev.push(rot13_spec(line@)));
            proof {
                let (r, rest) = not_processed_section(s@, q as int);
                assert(prev + (seq![rot13_spec(line@)] + rest) =~= strings_view(out@) + rest);
            }
        }
        pos = q;
    }
    assert(strings_view(out@) + Seq::<Seq<char>>::empty() =~= strings_view(out@));
    (pos, out)
}

fn is_tag(t: &[char], lit: &str) -> (r: bool)
    ensures
        r == (t@ == lit@),
{
    let l = chars_of(lit);
    crate::text::chars_eq(t, l.as_slice())
}

fn append_comments(dst: &mut Vec<DbfComment>, src: Vec<DbfComment>)
    ensures
        comments_view(final(dst)@) == comments_view(old(dst)@) + comments_view(src@),
{
    let mut src = src;
    let ghost s0 = src@;
    dst.append(&mut src);
    assert(comments_view(dst@) =~= comments_view(old(dst)@) + comments_view(s0));
}

fn desc_block_exec(s: &[char], p: usize, db: &mut DbfDatabase) -> (r: usize)
    requires
        p <= s.len(),
    ensures
        (r as int, final(db)@) == desc_block(s@, p as int, old(db)@),
        p <= r <= s.len(),
{
    let mut pos = p;
    while pos < s.len()
        invariant
            p <= pos <= s.len(),
            desc_block(s@, p as int, old(db)@) == desc_block(s@, pos as int, db@),
        decreases s.len() - pos,
    {
        let q = blank_end_exec(s, pos);
        if q < s.len() && s[q] == '\n' {
            pos = q + 1;
        } else {
            let (r, tag) = read_tag_exec(s, q);
            match tag {
                Some(t) => {
                    let ts = t.as_slice();
                    if is_tag(ts, "END_DESC") {
                        return next_line_exec(s, r);
                    } else if is_tag(ts, "START_DESC_NET") {
                        let m = chars_of("[END_DESC_NET]");
                        let (e, c) = comment_section_exec(s, r, m.as_slice());
                        append_comments(&mut db.network_comments, c);
                        pos = e;
                    } else if is_tag(ts, "START_DESC_NODE") {
                        let m = chars_of("[END_DESC_NODE]");
                        let (e, c) = comment_section_exec(s, r, m.as_slice());
                        append_comments(&mut db.node_comments, c);
                        pos = e;
                    } else if is_tag(ts, "START_DESC_MSG") {
                        let m = chars_of("[END_DESC_MSG]");
                        let (e, c) = comment_section_exec(s, r, m.as_slice());
                        append_comments(&mut db.message_comments, c);
                        pos = e;
                    } else if is_tag(ts, "START_DESC_SIG") {
                        let m = chars_of("[END_DESC_SIG]");
                        let (e, c) = comment_section_exec(s, r, m.as_slice());
                        append_comments(&mut db.signal_comments, c);
                        pos = e;
                    } else {
                        pos = next_line_exec(s, r);
                    }
                },
                None => {
                    pos = next_line_exec(s, r);
                },
            }
        }
    }
    pos
}

fn table_lines_exec(s: &[char], p: usize) -> (r: (usize, Vec<DbfValueDescriptor>))
    requires
        p <= s.len(),
    ensures
        (r.0 as int, descriptors_view(r.1@)) == table_lines(s@, p as int, Seq::empty()),
        p <= r.0 <= s.len(),
{
    let mut vals: Vec<DbfValueDescriptor> = Vec::new();
    let mut pos = p;
    assert(descriptors_view(vals@) =~= Seq::<DbfValueDescriptorModel>::empty());
    while pos < s.len()
        invariant
            p <= pos <= s.len(),
            table_lines(s@, p as int, Seq::empty()) == table_lines(
                s@,
                pos as int,
                descriptors_view(vals@),
            ),
        decreases s.len() - pos,
    {
        let q = blank_end_exec(s, pos);
        if q < s.len() && s[q] == '\n' {
            pos = q + 1;
        } else if q < s.len() && s[q] == '[' {
            let (r, tag) = read_tag_exec(s, q);
            let closes = match &tag {
                Some(t) => is_tag(t.as_slice(), "END_TABLE"),
                None => false,
            };
            if closes {
                return (next_line_exec(s, r), vals);
            }
            pos = r;
        } else {
            let e = next_line_exec(s, q);
            let line = line_text_exec(s, q);
            let ghost prev = descriptors_view(vals@);
            match parse_value_descriptor(line.as_slice()) {
                Some(vd) => {
                    let ghost m = vd@;
                    vals.push(vd);
                    assert(descriptors_view(vals@) =~= prev.push(m));
                },
                None => {},
            }
            pos = e;
        }
    }
    (pos, vals)
}

fn tables_block_exec(s: &[char], p: usize, tables: &mut Vec<DbfValueTable>) -> (r: usize)
    requires
        p <= s.len(),
    ensures
        (r as int, final(tables)@.map_values(|t: DbfValueTable| t@)) == tables_block(
            s@,
            p as int,
            old(tables)@.map_values(|t: DbfValueTable| t@),
        ),
        p <= r <= s.len(),
{
    let mut pos = p;
    while pos < s.len()
        invariant
            p <= pos <= s.len(),
            tables_block(s@, p as int, old(tables)@.map_values(|t: DbfValueTable| t@))
                == tables_block(s@, pos as int, tables@.map_values(|t: DbfValueTable| t@)),
        decreases s.len() - pos,
    {
        let q = blank_end_exec(s, pos);
        if q < s.len() && s[q] == '\n' {
            pos = q + 1;
        } else {
            let (r, tag) = read_tag_exec(s, q);
            match tag {
                Some(t) => {
                    if is_tag(t.as_slice(), "END_VALUE_TABLE") {
                        return next_line_exec(s, r);
                    } else if is_tag(t.as_slice(), "START_TABLE") {
                        let (a, name) = tag_value_exec(s, r);
                        let (b, vals) = table_lines_exec(s, a);
                        let ghost prev = tables@.map_values(|t: DbfValueTable| t@);
                        let table = DbfValueTable { name: string_from_chars(name.as_slice()), values: vals };
                        let ghost m = table@;
                        tables.push(table);
                        assert(tables@.map_values(|t: DbfValueTable| t@) =~= prev.push(m));
                        pos = b;
                    } else {
                        pos = next_line_exec(s, r);
                    }
                },
                None => {
                    pos = next_line_exec(s, r);
                },
            }
        }
    }
    pos
}

/// The parser's state, taken as plain values.
pub open spec fn state_view(db: DbfDatabase, msg: Option<DbfMessage>, sig: Option<DbfSignal>) -> DbfParseState {
    DbfParseState {
        db: db@,
        msg: match msg {
            Some(m) => Some(m@),
            None => None,
        },
        sig: match sig {
            Some(x) => Some(x@),
            None => None,
        },
    }
}

fn close_message_exec(db: &mut DbfDatabase, msg: &mut Option<DbfMessage>, sig: &mut Option<DbfSignal>)
    ensures
        state_view(*final(db), *final(msg), *final(sig)) == close_message(
            state_view(*old(db), *old(msg), *old(sig)),
        ),
{
    match msg.take() {
        Some(m) => {
            let mut m = m;
            match sig.take() {
                Some(x) => m.add_signal(x),
                None => {},
            }
            db.add_message(m);
        },
        None => {},
    }
}

fn trim_brackets_exec(t: &[char]) -> (r: String)
    ensures
        r@ == trim_brackets(t@),
{
    let mut lo: usize = 0;
    let mut hi: usize = t.len();
    assert(t@.subrange(0, t@.len() as int) =~= t@);
    while lo < hi && (t[lo] == '[' || t[lo] == ']')
        invariant
            lo <= hi <= t.len(),
            hi == t.len(),
            trim_brackets(t@) == trim_brackets(t@.subrange(lo as int, hi as int)),
        decreases hi - lo,
    {
        assert(t@.subrange(lo as int, hi as int).drop_first() =~= t@.subrange(lo + 1, hi as int));
        lo += 1;
    }
    while lo < hi && (t[hi - 1] == '[' || t[hi - 1] == ']')
        invariant
            lo <= hi <= t.len(),
            lo < hi ==> !(t@[lo as int] == '[' || t@[lo as int] == ']'),
            trim_brackets(t@) == trim_brackets(t@.subrange(lo as int, hi as int)),
        decreases hi - lo,
    {
        assert(t@.subrange(lo as int, hi as int).drop_last() =~= t@.subrange(lo as int, hi - 1));
        hi -= 1;
    }
    string_from_chars(slice_to_vec(t, lo, hi).as_slice())
}

fn append_strings(dst: &mut Vec<String>, src: Vec<String>)
    ensures
        strings_view(final(dst)@) == strings_view(old(dst)@) + strings_view(src@),
{
    let mut src = src;
    let ghost s0 = src@;
    dst.append(&mut src);
    assert(strings_view(dst@) =~= strings_view(old(dst)@) + strings_view(s0));
}

#[verifier::rlimit(50)]
fn tag_step_exec(
    s: &[char],
    r: usize,
    t: &[char],
    db: &mut DbfDatabase,
    msg: &mut Option<DbfMessage>,
    sig: &mut Option<DbfSignal>,
) -> (res: Result<usize, DbfParseError>)
    requires
        r <= s.len(),
    ensures
        match tag_step(s@, r as int, t@, state_view(*old(db), *old(msg), *old(sig))) {
            Ok((q, st)) => res == Ok::<usize, DbfParseError>(q as usize) && state_view(
                *final(db),
                *final(msg),
                *final(sig),
            ) == st && r <= q <= s.len(),
            Err(f) => res matches Err(e) && failure_is(e, f),
        },
{
    let (a, v) = tag_value_exec(s, r);
    let vs = v.as_slice();
    if is_tag(t, "DATABASE_VERSION") {
        db.version = string_from_chars(vs);
        Ok(a)
    } else if is_tag(t, "PROTOCOL") {
        let text = string_from_chars(vs);
        db.protocol = DbfProtocol::parse_from(text.as_str());
        Ok(a)
    } else if is_tag(t, "BUSMASTER_VERSION") {
        db.busmaster_version = trim_brackets_exec(vs);
        Ok(a)
    } else if is_tag(t, "NUMBER_OF_MESSAGES") {
        Ok(a)
    } else if is_tag(t, "NODE") {
        let parts = split_at_char(vs, ',');
        proof {
            lemma_split_view(v@, parts@);
            assert(vecs_view(parts@).subrange(0, parts@.len() as int) =~= vecs_view(parts@));
        }
        let names = nonempty_trimmed_exec(&parts, 0);
        append_strings(&mut db.nodes, names);
        Ok(a)
    } else if is_tag(t, "START_MSG") {
        close_message_exec(db, msg, sig);
        match parse_message(vs) {
            Ok(m) => {
                *msg = Some(m);
                Ok(a)
            },
            Err(e) => Err(e),
        }
    } else if is_tag(t, "END_MSG") {
        close_message_exec(db, msg, sig);
        Ok(next_line_exec(s, r))
    } else if is_tag(t, "START_SIGNALS") {
        match sig.take() {
            Some(x) => match msg.take() {
                Some(m) => {
                    let mut m = m;
                    m.add_signal(x);
                    *msg = Some(m);
                },
                None => {},
            },
            None => {},
        }
        match parse_signal(vs) {
            Ok(x) => {
                *sig = Some(x);
                Ok(a)
            },
            Err(e) => Err(e),
        }
    } else if is_tag(t, "VALUE_DESCRIPTION") {
        match sig.take() {
            Some(x) => {
                let mut x = x;
                match parse_value_descriptor(vs) {
                    Some(d) => {
                        let ghost prev = descriptors_view(x.value_descriptors@);
                        let ghost dm = d@;
                        x.value_descriptors.push(d);
                        assert(descriptors_view(x.value_descriptors@) =~= prev.push(dm));
                    },
                    None => {},
                }
                *sig = Some(x);
            },
            None => {},
        }
        Ok(a)
    } else if is_tag(t, "START_SIG_LIST") {
        let m = chars_of("[END_SIG_LIST]");
        Ok(skip_section_exec(s, r, m.as_slice()))
    } else if is_tag(t, "START_VALUE_TABLE") {
        Ok(tables_block_exec(s, r, &mut db.value_tables))
    } else if is_tag(t, "START_PARAM") {
        let m = chars_of("[END_PARAM]");
        Ok(skip_section_exec(s, r, m.as_slice()))
    } else if is_tag(t, "START_PARAM_VAL") {
        let m = chars_of("[END_PARAM_VAL]");
        Ok(skip_section_exec(s, r, m.as_slice()))
    } else if is_tag(t, "START_DESC") {
        Ok(desc_block_exec(s, r, db))
    } else if is_tag(t, "START_NOT_PROCESSED") {
        let (e, lines) = not_processed_exec(s, r);
        append_strings(&mut db.not_processed, lines);
        Ok(e)
    } else if is_tag(t, "START_NOT_SUPPORTED") {
        let m = chars_of("[END_NOT_SUPPORTED]");
        Ok(skip_section_exec(s, r, m.as_slice()))
    } else {
        Ok(next_line_exec(s, r))
    }
}

fn main_step_exec(
    s: &[char],
    p: usize,
    db: &mut DbfDatabase,
    msg: &mut Option<DbfMessage>,
    sig: &mut Option<DbfSignal>,
) -> (res: Result<usize, DbfParseError>)
    requires
        p < s.len(),
    ensures
        match main_step(s@, p as int, state_view(*old(db), *old(msg), *old(sig))) {
            Ok((q, st)) => res == Ok::<usize, DbfParseError>(q as usize) && state_view(
                *final(db),
                *final(msg),
                *final(sig),
            ) == st && p < q <= s.len(),
            Err(f) => res matches Err(e) && failure_is(e, f),
        },
{
    reveal(main_step);
    let q = blank_end_exec(s, p);
    if q < s.len() && s[q] == '\n' {
        return Ok(q + 1);
    }
    let slashes = ['/', '/'];
    proof {
        reveal_strlit("//");
    }
    assert(slashes@ =~= "//"@);
    if crate::scan::tag(s, q, &slashes).is_some() {
        return Ok(next_line_exec(s, q));
    }
    if q < s.len() && s[q] == '[' {
        let (r, t) = read_tag_exec(s, q);
        match t {
            Some(t) => tag_step_exec(s, r, t.as_slice(), db, msg, sig),
            None => Ok(r),
        }
    } else {
        Ok(next_line_exec(s, q))
    }
}

fn parse_chars(s: &[char]) -> (r: Result<DbfDatabase, DbfParseError>)
    ensures
        match dbf_spec(s@) {
            Ok(m) => r matches Ok(db) && db@ == m,
            Err(f) => r matches Err(e) && failure_is(e, f),
        },
{
    let mut db = DbfDatabase::new();
    let mut msg: Option<DbfMessage> = None;
    let mut sig: Option<DbfSignal> = None;
    let mut pos: usize = 0;
    let ghost init = DbfParseState { db: empty_database(), msg: None, sig: None };
    while pos < s.len()
        invariant
            pos <= s.len(),
            init == (DbfParseState { db: empty_database(), msg: None, sig: None }),
            run(s@, 0, init) == run(s@, pos as int, state_view(db, msg, sig)),
        decreases s.len() - pos,
    {
        let ghost st0 = state_view(db, msg, sig);
        match main_step_exec(s, pos, &mut db, &mut msg, &mut sig) {
            Ok(q) => {
                pos = q;
            },
            Err(e) => {
                assert(run(s@, pos as int, st0) == match main_step(s@, pos as int, st0) {
                    Err(f) => Err::<DbfParseState, DbfFailure>(f),
                    Ok(_) => run(s@, pos as int, st0),
                });
                return Err(e);
            },
        }
    }
    close_message_exec(&mut db, &mut msg, &mut sig);
    Ok(db)
}

/// DBF parser.
pub struct DbfParser<'a> {
    input: &'a str,
    pos: usize,
    line_num: usize,
}

impl<'a> DbfParser<'a> {
    /// The text that the parser reads.
    pub closed spec fn input_text(&self) -> Seq<char> {
        self.input@
    }

    /// The parser's position in its text.
    pub closed spec fn position(&self) -> usize {
        self.pos
    }

    /// The line the parser is on, counted from 1.
    pub closed spec fn line(&self) -> usize {
        self.line_num
    }

    /// Create a new parser for the given input, at its start (line 1).
    pub fn new(input: &'a str) -> (r: Self)
        ensures
            r.input_text() == input@,
            r.position() == 0,
            r.line() == 1,
    {
        DbfParser { input, pos: 0, line_num: 1 }
    }

    /// Parse the input and return a database.
    ///
    /// The text is read line by line: blank lines and `//` comment lines
    /// are skipped, each tag has the effect that `tag_step` gives, and
    /// other lines are ignored. Parsing fails only on a message or signal
    /// definition that has too few fields or an unreadable number.
    pub fn parse(input: &str) -> (r: Result<DbfDatabase, DbfParseError>)
        ensures
            match dbf_spec(input@) {
                Ok(m) => r matches Ok(db) && db@ == m,
                Err(f) => r matches Err(e) && failure_is(e, f),
            },
    {
        let parser = DbfParser::new(input);
        let v = chars_of(parser.input);
        parse_chars(v.as_slice())
    }

    /// Decode ROT13 text: ASCII letters move 13 places within their case;
    /// everything else stays.
    pub fn decrypt_rot13(s: &str) -> (r: String)
        ensures
            r@ == rot13_spec(s@),
    {
        let v = chars_of(s);
        rot13_string(v.as_slice())
    }
}

// ---------------------------------------------------------------------------
// Writing a database
// ---------------------------------------------------------------------------

/// The pieces joined with `sep` between them.
pub open spec fn join_spec(v: Seq<Seq<char>>, sep: Seq<char>) -> Seq<char>
    decreases v.len(),
{
    if v.len() == 0 {
        Seq::empty()
    } else if v.len() == 1 {
        v[0]
    } else {
        join_spec(v.drop_last(), sep) + sep + v.last()
    }
}

/// The decimal text of a signed integer.
pub open spec fn i64_text(v: i64) -> Seq<char> {
    if v < 0 {
        "-"@ + dec_digits((-v) as nat)
    } else {
        dec_digits(v as nat)
    }
}

/// `"description",value` as the file writes a value descriptor.
pub open spec fn descriptor_text(d: DbfValueDescriptorModel) -> Seq<char> {
    "\""@ + d.description + "\","@ + i64_text(d.value)
}

/// The `[VALUE_DESCRIPTION]` lines of a signal.
pub open spec fn value_description_lines(v: Seq<DbfValueDescriptorModel>) -> Seq<char>
    decreases v.len(),
{
    if v.len() == 0 {
        Seq::empty()
    } else {
        value_description_lines(v.drop_last()) + "[VALUE_DESCRIPTION] "@ + descriptor_text(v.last())
            + "\n"@
    }
}

/// The start of a `[START_SIGNALS]` line: name and layout.
pub open spec fn signal_layout_text(g: DbfSignalModel) -> Seq<char> {
    "[START_SIGNALS] "@ + g.name + ","@ + dec_digits(g.length as nat) + ","@ + dec_digits(
        g.which_byte as nat,
    ) + ","@ + dec_digits(g.start_bit as nat) + ","@
}

/// The middle of a `[START_SIGNALS]` line: type, limits and byte order.
pub open spec fn signal_limits_text(g: DbfSignalModel) -> Seq<char> {
    seq![signal_type_char(g.signal_type)] + ","@ + g.max_value + ","@ + g.min_value + ","@
        + seq![byte_order_char(g.byte_order)] + ","@
}

/// The end of a `[START_SIGNALS]` line: scaling, unit, multiplexer and
/// receivers.
pub open spec fn signal_scaling_text(g: DbfSignalModel) -> Seq<char> {
    g.offset + ","@ + g.scale_factor + ","@ + g.unit + ","@ + g.multiplex + ","@ + join_spec(
        g.receivers,
        ","@,
    )
}

/// The `[START_SIGNALS]` line of a signal and its value descriptions.
pub open spec fn signal_text(g: DbfSignalModel) -> Seq<char> {
    signal_layout_text(g) + signal_limits_text(g) + signal_scaling_text(g) + "\n"@
        + value_description_lines(g.value_descriptors)
}

/// The texts of the signals, one after the other.
pub open spec fn signals_text(v: Seq<DbfSignalModel>) -> Seq<char>
    decreases v.len(),
{
    if v.len() == 0 {
        Seq::empty()
    } else {
        signals_text(v.drop_last()) + signal_text(v.last())
    }
}

/// The id the file holds for a message: extended ids carry the top bit.
pub open spec fn written_id(m: DbfMessageModel) -> nat {
    if m.frame_format == DbfFrameFormat::Extended {
        (m.id + 0x8000_0000) as nat
    } else {
        m.id as nat
    }
}

/// The transmitter part of a `[START_MSG]` line.
pub open spec fn transmitter_text(m: DbfMessageModel) -> Seq<char> {
    if m.transmitter.len() == 0 {
        Seq::empty()
    } else {
        ","@ + m.transmitter
    }
}

/// The `[START_MSG]` line of a message.
pub open spec fn message_line(m: DbfMessageModel) -> Seq<char> {
    "[START_MSG] "@ + m.name + ","@ + dec_digits(written_id(m)) + ","@ + dec_digits(m.length as nat)
        + ","@ + dec_digits(m.signals.len()) + ",1,"@ + seq![frame_format_char(m.frame_format)]
        + transmitter_text(m) + "\n"@
}

/// A message block: `[START_MSG]` line, signals, `[END_MSG]`.
pub open spec fn message_text(m: DbfMessageModel) -> Seq<char> {
    message_line(m) + signals_text(m.signals) + "[END_MSG]\n\n"@
}

/// The message blocks, one after the other.
pub open spec fn messages_text(v: Seq<DbfMessageModel>) -> Seq<char>
    decreases v.len(),
{
    if v.len() == 0 {
        Seq::empty()
    } else {
        messages_text(v.drop_last()) + message_text(v.last())
    }
}

/// The lines of a value table's entries.
pub open spec fn table_entry_lines(v: Seq<DbfValueDescriptorModel>) -> Seq<char>
    decreases v.len(),
{
    if v.len() == 0 {
        Seq::empty()
    } else {
        table_entry_lines(v.drop_last()) + descriptor_text(v.last()) + "\n"@
    }
}

/// A value table block.
pub open spec fn table_text(t: DbfValueTableModel) -> Seq<char> {
    "[START_TABLE] "@ + t.name + "\n"@ + table_entry_lines(t.values) + "[END_TABLE]\n"@
}

/// The value table blocks, one after the other.
pub open spec fn tables_text(v: Seq<DbfValueTableModel>) -> Seq<char>
    decreases v.len(),
{
    if v.len() == 0 {
        Seq::empty()
    } else {
        tables_text(v.drop_last()) + table_text(v.last())
    }
}

/// The banner line the generator writes first.
pub open spec fn banner() -> Seq<char> {
    "//******************************BUSMASTER Messages and signals Database ******************************//\n\n"@
}

/// The version, protocol and BUSMASTER version lines (1.3 and 3.0.0 stand
/// in for empty versions).
pub open spec fn versions_text(db: DbfDatabaseModel) -> Seq<char> {
    "[DATABASE_VERSION] "@ + (if db.version.len() == 0 {
        "1.3"@
    } else {
        db.version
    }) + "\n\n"@ + "[PROTOCOL] "@ + protocol_name(db.protocol) + "\n\n"@ + "[BUSMASTER_VERSION] ["@ + (
    if db.busmaster_version.len() == 0 {
        "3.0.0"@
    } else {
        db.busmaster_version
    }) + "]\n\n"@
}

/// The message count line and, when there are nodes, the node line.
pub open spec fn count_and_nodes_text(db: DbfDatabaseModel) -> Seq<char> {
    "[NUMBER_OF_MESSAGES] "@ + dec_digits(db.messages.len()) + "\n\n"@ + (if db.nodes.len() == 0 {
        Seq::empty()
    } else {
        "[NODE] "@ + join_spec(db.nodes, ","@) + "\n\n"@
    })
}

/// The value table block, when there are tables.
pub open spec fn value_tables_text(db: DbfDatabaseModel) -> Seq<char> {
    if db.value_tables.len() == 0 {
        Seq::empty()
    } else {
        "[START_VALUE_TABLE]\n"@ + tables_text(db.value_tables) + "[END_VALUE_TABLE]\n\n"@
    }
}

/// The text the generator writes for a database: the banner, the versions,
/// the message count, the nodes, the messages and the value tables.
pub open spec fn generate_spec(db: DbfDatabaseModel) -> Seq<char> {
    banner() + versions_text(db) + count_and_nodes_text(db) + messages_text(db.messages)
        + value_tables_text(db)
}

/// Whether every extended message's id leaves room for the top bit.
pub open spec fn extended_ids_fit(msgs: Seq<DbfMessageModel>) -> bool {
    forall|i: int|
        0 <= i < msgs.len() && (#[trigger] msgs[i]).frame_format == DbfFrameFormat::Extended
            ==> msgs[i].id < 0x8000_0000
}

fn push_i64(out: &mut String, v: i64)
    ensures
        final(out)@ == old(out)@ + i64_text(v),
{
    if v < 0 {
        push_str(out, "-");
        proof {
            reveal_strlit("-");
        }
        let mag: u64 = if v == i64::MIN {
            0x8000_0000_0000_0000u64
        } else {
            (-v) as u64
        };
        push_dec(out, mag);
    } else {
        push_dec(out, v as u64);
    }
}

fn push_joined(out: &mut String, v: &Vec<String>, sep: &str)
    ensures
        final(out)@ == old(out)@ + join_spec(strings_view(v@), sep@),
{
    let ghost sv = strings_view(v@);
    let mut i: usize = 0;
    while i < v.len()
        invariant
            i <= v.len(),
            sv == strings_view(v@),
            out@ == old(out)@ + join_spec(sv.take(i as int), sep@),
        decreases v.len() - i,
    {
        let ghost before = out@;
        if i > 0 {
            push_str(out, sep);
        }
        push_str(out, v[i].as_str());
        proof {
            let t = sv.take(i + 1);
            assert(t.drop_last() =~= sv.take(i as int));
            assert(t.last() == v@[i as int]@);
            if i == 0 {
                assert(t =~= seq![v@[0]@]);
                assert(sv.take(0) =~= Seq::<Seq<char>>::empty());
            }
        }
        i += 1;
    }
    assert(sv.take(v.len() as int) =~= sv);
}

fn push_descriptor(out: &mut String, d: &DbfValueDescriptor)
    ensures
        final(out)@ == old(out)@ + descriptor_text(d@),
{
    push_str(out, "\"");
    push_str(out, d.description.as_str());
    push_str(out, "\",");
    push_i64(out, d.value);
}

fn write_signal_layout(out: &mut String, g: &DbfSignal)
    ensures
        final(out)@ == old(out)@ + signal_layout_text(g@),
{
    push_str(out, "[START_SIGNALS] ");
    push_str(out, g.name.as_str());
    push_str(out, ",");
    push_dec(out, g.length as u64);
    push_str(out, ",");
    push_dec(out, g.which_byte as u64);
    push_str(out, ",");
    push_dec(out, g.start_bit as u64);
    push_str(out, ",");
    assert(out@ =~= old(out)@ + signal_layout_text(g@));
}

fn write_signal_limits(out: &mut String, g: &DbfSignal)
    ensures
        final(out)@ == old(out)@ + signal_limits_text(g@),
{
    push_char(out, g.signal_type.to_char());
    push_str(out, ",");
    push_str(out, g.max_value.as_str());
    push_str(out, ",");
    push_str(out, g.min_value.as_str());
    push_str(out, ",");
    push_char(out, g.byte_order.to_char());
    push_str(out, ",");
    assert(out@ =~= old(out)@ + signal_limits_text(g@));
}

fn write_signal_scaling(out: &mut String, g: &DbfSignal)
    ensures
        final(out)@ == old(out)@ + signal_scaling_text(g@),
{
    push_str(out, g.offset.as_str());
    push_str(out, ",");
    push_str(out, g.scale_factor.as_str());
    push_str(out, ",");
    push_str(out, g.unit.as_str());
    push_str(out, ",");
    push_str(out, g.multiplex.as_str());
    push_str(out, ",");
    push_joined(out, &g.receivers, ",");
    assert(out@ =~= old(out)@ + signal_scaling_text(g@));
}

fn write_signal(out: &mut String, g: &DbfSignal)
    ensures
        final(out)@ == old(out)@ + signal_text(g@),
{
    write_signal_layout(out, g);
    write_signal_limits(out, g);
    write_signal_scaling(out, g);
    push_str(out, "\n");
    let ghost head = out@;
    let ghost dv = descriptors_view(g.value_descriptors@);
    let mut i: usize = 0;
    assert(dv.take(0) =~= Seq::<DbfValueDescriptorModel>::empty());
    assert(head =~= head + value_description_lines(dv.take(0)));
    while i < g.value_descriptors.len()
        invariant
            i <= g.value_descriptors.len(),
            dv == descriptors_view(g.value_descriptors@),
            out@ == head + value_description_lines(dv.take(i as int)),
        decreases g.value_descriptors.len() - i,
    {
        let ghost before = out@;
        push_str(out, "[VALUE_DESCRIPTION] ");
        push_descriptor(out, &g.value_descriptors[i]);
        push_str(out, "\n");
        assert(dv.take(i + 1).drop_last() =~= dv.take(i as int));
        assert(dv.take(i + 1).last() == dv[i as int]);
        assert(out@ =~= head + value_description_lines(dv.take(i + 1)));
        i += 1;
    }
    assert(dv.take(g.value_descriptors.len() as int) =~= dv);
    assert(out@ =~= old(out)@ + signal_text(g@));
}

#[verifier::rlimit(40)]
fn write_message_line(out: &mut String, m: &DbfMessage)
    requires
        m.frame_format == DbfFrameFormat::Extended ==> m.id < 0x8000_0000,
    ensures
        final(out)@ == old(out)@ + message_line(m@),
{
    let id: u64 = if m.frame_format == DbfFrameFormat::Extended {
        m.id as u64 + 0x8000_0000
    } else {
        m.id as u64
    };
    push_str(out, "[START_MSG] ");
    push_str(out, m.name.as_str());
    push_str(out, ",");
    push_dec(out, id);
    push_str(out, ",");
    push_dec(out, m.length as u64);
    push_str(out, ",");
    push_dec(out, m.signals.len() as u64);
    push_str(out, ",1,");
    push_char(out, m.frame_format.to_char());
    let ghost before_tx = out@;
    if !m.transmitter.as_str().is_empty() {
        push_str(out, ",");
        push_str(out, m.transmitter.as_str());
    }
    assert(out@ =~= before_tx + transmitter_text(m@));
    push_str(out, "\n");
    assert(out@ =~= old(out)@ + message_line(m@));
}

fn write_message(out: &mut String, m: &DbfMessage)
    requires
        m.frame_format == DbfFrameFormat::Extended ==> m.id < 0x8000_0000,
    ensures
        final(out)@ == old(out)@ + message_text(m@),
{
    write_message_line(out, m);
    let ghost head = out@;
    let ghost sv = signals_view(m.signals@);
    let mut i: usize = 0;
    assert(sv.take(0) =~= Seq::<DbfSignalModel>::empty());
    assert(head =~= head + signals_text(sv.take(0)));
    while i < m.signals.len()
        invariant
            i <= m.signals.len(),
            sv == signals_view(m.signals@),
            out@ == head + signals_text(sv.take(i as int)),
        decreases m.signals.len() - i,
    {
        write_signal(out, &m.signals[i]);
        assert(sv.take(i + 1).drop_last() =~= sv.take(i as int));
        assert(out@ =~= head + signals_text(sv.take(i + 1)));
        i += 1;
    }
    assert(sv.take(m.signals.len() as int) =~= sv);
    push_str(out, "[END_MSG]\n\n");
    assert(out@ =~= old(out)@ + message_text(m@));
}

fn write_value_table(out: &mut String, t: &DbfValueTable)
    ensures
        final(out)@ == old(out)@ + table_text(t@),
{
    push_str(out, "[START_TABLE] ");
    push_str(out, t.name.as_str());
    push_str(out, "\n");
    let ghost head = out@;
    let ghost dv = descriptors_view(t.values@);
    let mut i: usize = 0;
    assert(dv.take(0) =~= Seq::<DbfValueDescriptorModel>::empty());
    assert(head =~= head + table_entry_lines(dv.take(0)));
    while i < t.values.len()
        invariant
            i <= t.values.len(),
            dv == descriptors_view(t.values@),
            out@ == head + table_entry_lines(dv.take(i as int)),
        decreases t.values.len() - i,
    {
        push_descriptor(out, &t.values[i]);
        push_str(out, "\n");
        assert(dv.take(i + 1).drop_last() =~= dv.take(i as int));
        assert(out@ =~= head + table_entry_lines(dv.take(i + 1)));
        i += 1;
    }
    assert(dv.take(t.values.len() as int) =~= dv);
    push_str(out, "[END_TABLE]\n");
    assert(out@ =~= old(out)@ + table_text(t@));
}

fn write_versions(out: &mut String, db: &DbfDatabase)
    ensures
        final(out)@ == old(out)@ + versions_text(db@),
{
    push_str(out, "[DATABASE_VERSION] ");
    if db.version.as_str().is_empty() {
        push_str(out, "1.3");
    } else {
        push_str(out, db.version.as_str());
    }
    push_str(out, "\n\n");
    push_str(out, "[PROTOCOL] ");
    push_str(out, db.protocol.name());
    push_str(out, "\n\n");
    push_str(out, "[BUSMASTER_VERSION] [");
    if db.busmaster_version.as_str().is_empty() {
        push_str(out, "3.0.0");
    } else {
        push_str(out, db.busmaster_version.as_str());
    }
    push_str(out, "]\n\n");
    assert(out@ =~= old(out)@ + versions_text(db@));
}

fn write_count_and_nodes(out: &mut String, db: &DbfDatabase)
    ensures
        final(out)@ == old(out)@ + count_and_nodes_text(db@),
{
    push_str(out, "[NUMBER_OF_MESSAGES] ");
    push_dec(out, db.messages.len() as u64);
    push_str(out, "\n\n");
    let ghost mid = out@;
    if db.nodes.len() > 0 {
        push_str(out, "[NODE] ");
        push_joined(out, &db.nodes, ",");
        push_str(out, "\n\n");
    }
    assert(out@ =~= old(out)@ + count_and_nodes_text(db@));
}

fn write_messages(out: &mut String, db: &DbfDatabase)
    requires
        extended_ids_fit(db@.messages),
    ensures
        final(out)@ == old(out)@ + messages_text(db@.messages),
{
    let ghost head = out@;
    let ghost mv = messages_view(db.messages@);
    let mut i: usize = 0;
    assert(mv.take(0) =~= Seq::<DbfMessageModel>::empty());
    assert(head =~= head + messages_text(mv.take(0)));
    while i < db.messages.len()
        invariant
            i <= db.messages.len(),
            mv == messages_view(db.messages@),
            extended_ids_fit(mv),
            out@ == head + messages_text(mv.take(i as int)),
        decreases db.messages.len() - i,
    {
        assert(mv[i as int] == db.messages@[i as int]@);
        write_message(out, &db.messages[i]);
        assert(mv.take(i + 1).drop_last() =~= mv.take(i as int));
        assert(out@ =~= head + messages_text(mv.take(i + 1)));
        i += 1;
    }
    assert(mv.take(db.messages.len() as int) =~= mv);
}

fn write_value_tables(out: &mut String, db: &DbfDatabase)
    ensures
        final(out)@ == old(out)@ + value_tables_text(db@),
{
    if db.value_tables.len() > 0 {
        push_str(out, "[START_VALUE_TABLE]\n");
        let ghost th = out@;
        let ghost tv = db.value_tables@.map_values(|t: DbfValueTable| t@);
        let mut k: usize = 0;
        assert(tv.take(0) =~= Seq::<DbfValueTableModel>::empty());
        assert(th =~= th + tables_text(tv.take(0)));
        while k < db.value_tables.len()
            invariant
                k <= db.value_tables.len(),
                tv == db.value_tables@.map_values(|t: DbfValueTable| t@),
                out@ == th + tables_text(tv.take(k as int)),
            decreases db.value_tables.len() - k,
        {
            write_value_table(out, &db.value_tables[k]);
            assert(tv.take(k + 1).drop_last() =~= tv.take(k as int));
            assert(out@ =~= th + tables_text(tv.take(k + 1)));
            k += 1;
        }
        assert(tv.take(db.value_tables.len() as int) =~= tv);
        push_str(out, "[END_VALUE_TABLE]\n\n");
    }
    assert(out@ =~= old(out)@ + value_tables_text(db@));
}

/// DBF generator: writes DBF text.
pub struct DbfGenerator;

impl DbfGenerator {
    /// Generate DBF content from a database. Every extended message's id
    /// must leave room for the top bit that marks it in the file.
    pub fn generate(db: &DbfDatabase) -> (r: String)
        requires
            extended_ids_fit(db@.messages),
        ensures
            r@ == generate_spec(db@),
    {
        let mut out = String::new();
        push_str(
            &mut out,
            "//******************************BUSMASTER Messages and signals Database ******************************//\n\n",
        );
        let ghost a = out@;
        write_versions(&mut out, db);
        let ghost b = out@;
        write_count_and_nodes(&mut out, db);
        let ghost c = out@;
        write_messages(&mut out, db);
        let ghost d = out@;
        write_value_tables(&mut out, db);
        assert(out@ =~= generate_spec(db@));
        out
    }
}

} // verus!
