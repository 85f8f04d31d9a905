//! LIN description file (LDF) data model: signals, frames with their
//! signal placements, schedule commands and node attributes.
use vstd::prelude::*;
use crate::a2l::{first_named, lemma_first_named_at, opt_text};
use crate::ecu_database::{first_where, lemma_first_where_at};
use crate::text::{chars_eq, chars_of, owned};

verus! {

broadcast use vstd::string::group_string_axioms;

/// The strings of a sequence, each taken by its characters.
pub open spec fn strings_view(v: Seq<String>) -> Seq<Seq<char>> {
    v.map_values(|x: String| x@)
}

/// LDF signal definition.
#[derive(Debug, Clone, PartialEq, Eq)]
pub struct LdfSignal {
    /// Signal name
    pub name: String,
    /// Signal size in bits
    pub size: u8,
    /// Initial value
    pub init_value: u64,
    /// Publisher node name
    pub publisher: String,
    /// Subscriber node names
    pub subscribers: Vec<String>,
}

/// A signal as plain values.
pub ghost struct LdfSignalModel {
    pub name: Seq<char>,
    pub size: u8,
    pub init_value: u64,
    pub publisher: Seq<char>,
    pub subscribers: Seq<Seq<char>>,
}

impl View for LdfSignal {
    type V = LdfSignalModel;

    open spec fn view(&self) -> LdfSignalModel {
        LdfSignalModel {
            name: self.name@,
            size: self.size,
            init_value: self.init_value,
            publisher: self.publisher@,
            subscribers: strings_view(self.subscribers@),
        }
    }
}

impl LdfSignal {
    /// Create a new signal without subscribers.
    pub fn new(name: &str, size: u8, init_value: u64, publisher: &str) -> (r: Self)
        ensures
            r.name@ == name@,
            r.size == size,
            r.init_value == init_value,
            r.publisher@ == publisher@,
            r.subscribers@.len() == 0,
    {
        LdfSignal {
            name: owned(name),
            size,
            init_value,
            publisher: owned(publisher),
            subscribers: Vec::new(),
        }
    }

    /// Add a subscriber at the end.
    pub fn add_subscriber(&mut self, subscriber: &str)
        ensures
            strings_view(final(self).subscribers@) == strings_view(old(self).subscribers@).push(
                subscriber@,
            ),
            final(self).name == old(self).name,
            final(self).size == old(self).size,
            final(self).init_value == old(self).init_value,
            final(self).publisher == old(self).publisher,
    {
        self.subscribers.push(owned(subscriber));
        assert(strings_view(self.subscribers@) =~= strings_view(old(self).subscribers@).push(
            subscriber@,
        ));
    }
}

/// LDF frame signal reference.
#[derive(Debug, Clone, PartialEq, Eq)]
pub struct LdfFrameSignal {
    /// Signal name
    pub name: String,
    /// Bit offset within frame
    pub offset: u8,
}

impl LdfFrameSignal {
    /// Create a new frame signal reference
    pub fn new(name: &str, offset: u8) -> (r: Self)
        ensures
            r.name@ == name@,
            r.offset == offset,
    {
        LdfFrameSignal { name: owned(name), offset }
    }
}

/// A frame's signal placements as (name, offset) pairs.
pub open spec fn placements(v: Seq<LdfFrameSignal>) -> Seq<(Seq<char>, u8)> {
    v.map_values(|s: LdfFrameSignal| (s.name@, s.offset))
}

/// LDF frame definition.
#[derive(Debug, Clone, PartialEq, Eq)]
pub struct LdfFrame {
    /// Frame name
    pub name: String,
    /// Frame ID (0-63)
    pub id: u8,
    /// Publisher node name
    pub publisher: String,
    /// Frame length in bytes
    pub length: u8,
    /// Signals in this frame
    pub signals: Vec<LdfFrameSignal>,
}

/// A frame as plain values, its signals as (name, offset) pairs.
pub ghost struct LdfFrameModel {
    pub name: Seq<char>,
    pub id: u8,
    pub publisher: Seq<char>,
    pub length: u8,
    pub signals: Seq<(Seq<char>, u8)>,
}

impl View for LdfFrame {
    type V = LdfFrameModel;

    open spec fn view(&self) -> LdfFrameModel {
        LdfFrameModel {
            name: self.name@,
            id: self.id,
            publisher: self.publisher@,
            length: self.length,
            signals: placements(self.signals@),
        }
    }
}

impl LdfFrame {
    /// Create a new frame without signals.
    pub fn new(name: &str, id: u8, publisher: &str, length: u8) -> (r: Self)
        ensures
            r.name@ == name@,
            r.id == id,
            r.publisher@ == publisher@,
            r.length == length,
            r.signals@.len() == 0,
    {
        LdfFrame { name: owned(name), id, publisher: owned(publisher), length, signals: Vec::new() }
    }

    /// Add a signal at the given bit offset, after the others.
    pub fn add_signal(&mut self, name: &str, offset: u8)
        ensures
            placements(final(self).signals@) == placements(old(self).signals@).push((name@, offset)),
            final(self).name == old(self).name,
            final(self).id == old(self).id,
            final(self).publisher == old(self).publisher,
            final(self).length == old(self).length,
    {
        self.signals.push(LdfFrameSignal::new(name, offset));
        assert(placements(self.signals@) =~= placements(old(self).signals@).push((name@, offset)));
    }
}

/// LDF schedule table entry type.
#[derive(Debug, Clone, PartialEq, Eq)]
pub enum LdfScheduleEntryType {
    /// Unconditional frame
    Frame(String),
    /// Master request frame
    MasterReq,
    /// Slave response frame
    SlaveResp,
    /// Assign NAD command
    AssignNad {
        /// Target node name
        node: String,
    },
    /// Conditional change NAD command
    ConditionalChangeNad {
        /// Current NAD
        nad: u8,
        /// Identifier
        id: u8,
        /// Byte position
        byte: u8,
        /// Mask value
        mask: u8,
        /// Invert flag
        inv: u8,
        /// New NAD value
        new_nad: u8,
    },
    /// Data dump command
    DataDump {
        /// Target node name
        node: String,
        /// Data bytes
        data: Vec<u8>,
    },
    /// Save configuration command
    SaveConfiguration {
        /// Target node name
        node: String,
    },
    /// Assign frame ID range command
    AssignFrameIdRange {
        /// Target node name
        node: String,
        /// Frame index
        frame_index: u8,
    },
    /// Free format command
    FreeFormat {
        /// Raw data bytes
        data: Vec<u8>,
    },
}

/// LDF node attributes.
#[derive(Debug, Clone, PartialEq, Eq)]
pub struct LdfNodeAttributes {
    /// LIN protocol version
    pub lin_protocol: Option<String>,
    /// Configured NAD
    pub configured_nad: Option<u8>,
    /// Initial NAD
    pub initial_nad: Option<u8>,
    /// Product ID
    pub product_id: Option<(u16, u16, u8)>,
    /// Response error signal
    pub response_error: Option<String>,
    /// Configurable frames
    pub configurable_frames: Vec<(String, Option<u8>)>,
}


/// A schedule entry's kind as plain values.
pub ghost enum LdfEntryTypeModel {
    Frame(Seq<char>),
    MasterReq,
    SlaveResp,
    AssignNad { node: Seq<char> },
    ConditionalChangeNad { nad: u8, id: u8, byte: u8, mask: u8, inv: u8, new_nad: u8 },
    DataDump { node: Seq<char>, data: Seq<u8> },
    SaveConfiguration { node: Seq<char> },
    AssignFrameIdRange { node: Seq<char>, frame_index: u8 },
    FreeFormat { data: Seq<u8> },
}

impl View for LdfScheduleEntryType {
    type V = LdfEntryTypeModel;

    open spec fn view(&self) -> LdfEntryTypeModel {
        match self {
            LdfScheduleEntryType::Frame(n) => LdfEntryTypeModel::Frame(n@),
            LdfScheduleEntryType::MasterReq => LdfEntryTypeModel::MasterReq,
            LdfScheduleEntryType::SlaveResp => LdfEntryTypeModel::SlaveResp,
            LdfScheduleEntryType::AssignNad { node } => LdfEntryTypeModel::AssignNad { node: node@ },
            LdfScheduleEntryType::ConditionalChangeNad { nad, id, byte, mask, inv, new_nad } => LdfEntryTypeModel::ConditionalChangeNad {
                nad: *nad,
                id: *id,
                byte: *byte,
                mask: *mask,
                inv: *inv,
                new_nad: *new_nad,
            },
            LdfScheduleEntryType::DataDump { node, data } => LdfEntryTypeModel::DataDump { node: node@, data: data@ },
            LdfScheduleEntryType::SaveConfiguration { node } => LdfEntryTypeModel::SaveConfiguration { node: node@ },
            LdfScheduleEntryType::AssignFrameIdRange { node, frame_index } => LdfEntryTypeModel::AssignFrameIdRange {
                node: node@,
                frame_index: *frame_index,
            },
            LdfScheduleEntryType::FreeFormat { data } => LdfEntryTypeModel::FreeFormat { data: data@ },
        }
    }
}

/// A schedule entry as plain values; the delay is decimal text.
pub ghost struct LdfScheduleEntryModel {
    pub entry_type: LdfEntryTypeModel,
    pub delay_ms: Seq<char>,
}

/// LDF schedule table entry.
#[derive(Debug, Clone, PartialEq, Eq)]
pub struct LdfScheduleEntry {
    /// Entry type
    pub entry_type: LdfScheduleEntryType,
    /// Delay in milliseconds, as decimal text
    pub delay_ms: String,
}

impl View for LdfScheduleEntry {
    type V = LdfScheduleEntryModel;

    open spec fn view(&self) -> LdfScheduleEntryModel {
        LdfScheduleEntryModel { entry_type: self.entry_type@, delay_ms: self.delay_ms@ }
    }
}

impl LdfScheduleEntry {
    /// Create a new schedule entry
    pub fn new(entry_type: LdfScheduleEntryType, delay_ms: &str) -> (r: Self)
        ensures
            r@ == (LdfScheduleEntryModel { entry_type: entry_type@, delay_ms: delay_ms@ }),
    {
        LdfScheduleEntry { entry_type, delay_ms: owned(delay_ms) }
    }

    /// Create a frame entry
    pub fn frame(name: &str, delay_ms: &str) -> (r: Self)
        ensures
            r@ == (LdfScheduleEntryModel { entry_type: LdfEntryTypeModel::Frame(name@), delay_ms: delay_ms@ }),
    {
        Self::new(LdfScheduleEntryType::Frame(owned(name)), delay_ms)
    }

    /// Create a master request entry
    pub fn master_req(delay_ms: &str) -> (r: Self)
        ensures
            r@ == (LdfScheduleEntryModel { entry_type: LdfEntryTypeModel::MasterReq, delay_ms: delay_ms@ }),
    {
        Self::new(LdfScheduleEntryType::MasterReq, delay_ms)
    }

    /// Create a slave response entry
    pub fn slave_resp(delay_ms: &str) -> (r: Self)
        ensures
            r@ == (LdfScheduleEntryModel { entry_type: LdfEntryTypeModel::SlaveResp, delay_ms: delay_ms@ }),
    {
        Self::new(LdfScheduleEntryType::SlaveResp, delay_ms)
    }
}

/// The view of each schedule entry.
pub open spec fn entries_view(v: Seq<LdfScheduleEntry>) -> Seq<LdfScheduleEntryModel> {
    v.map_values(|e: LdfScheduleEntry| e@)
}

/// A schedule table as plain values.
pub ghost struct LdfScheduleTableModel {
    pub name: Seq<char>,
    pub entries: Seq<LdfScheduleEntryModel>,
}

/// LDF schedule table.
#[derive(Debug, Clone, PartialEq, Eq)]
pub struct LdfScheduleTable {
    /// Table name
    pub name: String,
    /// Schedule entries
    pub entries: Vec<LdfScheduleEntry>,
}

impl View for LdfScheduleTable {
    type V = LdfScheduleTableModel;

    open spec fn view(&self) -> LdfScheduleTableModel {
        LdfScheduleTableModel { name: self.name@, entries: entries_view(self.entries@) }
    }
}

impl LdfScheduleTable {
    /// Create a new, empty schedule table
    pub fn new(name: &str) -> (r: Self)
        ensures
            r@ == (LdfScheduleTableModel { name: name@, entries: Seq::empty() }),
    {
        let r = LdfScheduleTable { name: owned(name), entries: Vec::new() };
        assert(entries_view(r.entries@) =~= Seq::<LdfScheduleEntryModel>::empty());
        r
    }

    /// Add an entry at the end of the schedule
    pub fn add_entry(&mut self, entry: LdfScheduleEntry)
        ensures
            final(self)@ == (LdfScheduleTableModel { entries: old(self)@.entries.push(entry@), ..old(self)@ }),
    {
        let ghost e = entry@;
        self.entries.push(entry);
        assert(entries_view(self.entries@) =~= entries_view(old(self).entries@).push(e));
    }
}

/// A master node as plain values; times are decimal text.
pub ghost struct LdfMasterModel {
    pub name: Seq<char>,
    pub time_base_ms: Seq<char>,
    pub jitter_ms: Seq<char>,
}

/// LDF master node definition.
#[derive(Debug, Clone, PartialEq, Eq)]
pub struct LdfMasterNode {
    /// Node name
    pub name: String,
    /// Time base in milliseconds, as decimal text
    pub time_base_ms: String,
    /// Jitter in milliseconds, as decimal text
    pub jitter_ms: String,
}

impl View for LdfMasterNode {
    type V = LdfMasterModel;

    open spec fn view(&self) -> LdfMasterModel {
        LdfMasterModel { name: self.name@, time_base_ms: self.time_base_ms@, jitter_ms: self.jitter_ms@ }
    }
}

impl LdfMasterNode {
    /// Create a new master node
    pub fn new(name: &str, time_base_ms: &str, jitter_ms: &str) -> (r: Self)
        ensures
            r@ == (LdfMasterModel { name: name@, time_base_ms: time_base_ms@, jitter_ms: jitter_ms@ }),
    {
        LdfMasterNode { name: owned(name), time_base_ms: owned(time_base_ms), jitter_ms: owned(jitter_ms) }
    }
}

/// A slave node as plain values; times are decimal text.
pub ghost struct LdfSlaveModel {
    pub name: Seq<char>,
    pub configured_nad: Option<u8>,
    pub initial_nad: Option<u8>,
    pub product_id: Option<(u16, u16, u8)>,
    pub response_error: Option<Seq<char>>,
    pub p2_min_ms: Option<Seq<char>>,
    pub st_min_ms: Option<Seq<char>>,
}

/// LDF slave node definition.
#[derive(Debug, Clone, PartialEq, Eq)]
pub struct LdfSlaveNode {
    /// Node name
    pub name: String,
    /// Configured NAD (Node Address)
    pub configured_nad: Option<u8>,
    /// Initial NAD
    pub initial_nad: Option<u8>,
    /// Product ID (supplier, function, variant)
    pub product_id: Option<(u16, u16, u8)>,
    /// Response error signal name
    pub response_error: Option<String>,
    /// P2 min time in milliseconds, as decimal text
    pub p2_min_ms: Option<String>,
    /// ST min time in milliseconds, as decimal text
    pub st_min_ms: Option<String>,
}

impl View for LdfSlaveNode {
    type V = LdfSlaveModel;

    open spec fn view(&self) -> LdfSlaveModel {
        LdfSlaveModel {
            name: self.name@,
            configured_nad: self.configured_nad,
            initial_nad: self.initial_nad,
            product_id: self.product_id,
            response_error: opt_text(self.response_error),
            p2_min_ms: opt_text(self.p2_min_ms),
            st_min_ms: opt_text(self.st_min_ms),
        }
    }
}

/// A slave node known by name alone.
pub open spec fn slave_named(name: Seq<char>) -> LdfSlaveModel {
    LdfSlaveModel {
        name,
        configured_nad: None,
        initial_nad: None,
        product_id: None,
        response_error: None,
        p2_min_ms: None,
        st_min_ms: None,
    }
}

impl LdfSlaveNode {
    /// Create a new slave node known by name alone
    pub fn new(name: &str) -> (r: Self)
        ensures
            r@ == slave_named(name@),
    {
        LdfSlaveNode {
            name: owned(name),
            configured_nad: None,
            initial_nad: None,
            product_id: None,
            response_error: None,
            p2_min_ms: None,
            st_min_ms: None,
        }
    }
}

/// Node attributes as plain values.
pub ghost struct LdfNodeAttributesModel {
    pub lin_protocol: Option<Seq<char>>,
    pub configured_nad: Option<u8>,
    pub initial_nad: Option<u8>,
    pub product_id: Option<(u16, u16, u8)>,
    pub response_error: Option<Seq<char>>,
    pub configurable_frames: Seq<(Seq<char>, Option<u8>)>,
}

impl View for LdfNodeAttributes {
    type V = LdfNodeAttributesModel;

    open spec fn view(&self) -> LdfNodeAttributesModel {
        LdfNodeAttributesModel {
            lin_protocol: opt_text(self.lin_protocol),
            configured_nad: self.configured_nad,
            initial_nad: self.initial_nad,
            product_id: self.product_id,
            response_error: opt_text(self.response_error),
            configurable_frames: self.configurable_frames@.map_values(|f: (String, Option<u8>)| (f.0@, f.1)),
        }
    }
}

/// Attributes with nothing set.
pub open spec fn no_attributes() -> LdfNodeAttributesModel {
    LdfNodeAttributesModel {
        lin_protocol: None,
        configured_nad: None,
        initial_nad: None,
        product_id: None,
        response_error: None,
        configurable_frames: Seq::empty(),
    }
}

impl Default for LdfNodeAttributes {
    /// Attributes with nothing set.
    fn default() -> (r: Self)
        ensures
            r@ == no_attributes(),
    {
        let r = LdfNodeAttributes {
            lin_protocol: None,
            configured_nad: None,
            initial_nad: None,
            product_id: None,
            response_error: None,
            configurable_frames: Vec::new(),
        };
        assert(r@.configurable_frames =~= Seq::<(Seq<char>, Option<u8>)>::empty());
        r
    }
}


/// A database as plain values.
pub ghost struct LdfDatabaseModel {
    pub protocol_version: Seq<char>,
    pub language_version: Seq<char>,
    pub speed_kbps: Seq<char>,
    pub master: Option<LdfMasterModel>,
    pub slaves: Seq<LdfSlaveModel>,
    pub signals: Seq<LdfSignalModel>,
    pub frames: Seq<LdfFrameModel>,
    pub schedule_tables: Seq<LdfScheduleTableModel>,
    pub node_attributes: Seq<(Seq<char>, LdfNodeAttributesModel)>,
}

/// LDF database: everything a LIN description file defines. Speeds and
/// times are kept as decimal text; node attributes are kept per node name,
/// each name at its first entry.
#[derive(Debug, Clone, PartialEq, Eq)]
pub struct LdfDatabase {
    /// LIN protocol version (e.g., "2.1")
    pub protocol_version: String,
    /// LIN language version (e.g., "2.1")
    pub language_version: String,
    /// Bus speed in kbps, as decimal text
    pub speed_kbps: String,
    /// Master node
    pub master: Option<LdfMasterNode>,
    /// Slave nodes
    pub slaves: Vec<LdfSlaveNode>,
    /// Signal definitions
    pub signals: Vec<LdfSignal>,
    /// Frame definitions
    pub frames: Vec<LdfFrame>,
    /// Schedule tables
    pub schedule_tables: Vec<LdfScheduleTable>,
    /// Node attributes by node name
    pub node_attributes: Vec<(String, LdfNodeAttributes)>,
}

impl View for LdfDatabase {
    type V = LdfDatabaseModel;

    open spec fn view(&self) -> LdfDatabaseModel {
        LdfDatabaseModel {
            protocol_version: self.protocol_version@,
            language_version: self.language_version@,
            speed_kbps: self.speed_kbps@,
            master: match self.master {
                Some(m) => Some(m@),
                None => None,
            },
            slaves: self.slaves@.map_values(|n: LdfSlaveNode| n@),
            signals: self.signals@.map_values(|x: LdfSignal| x@),
            frames: self.frames@.map_values(|f: LdfFrame| f@),
            schedule_tables: self.schedule_tables@.map_values(|t: LdfScheduleTable| t@),
            node_attributes: self.node_attributes@.map_values(|e: (String, LdfNodeAttributes)| (e.0@, e.1@)),
        }
    }
}

/// An empty database at the default speed of 19.2 kbps.
pub open spec fn empty_ldf() -> LdfDatabaseModel {
    LdfDatabaseModel {
        protocol_version: Seq::empty(),
        language_version: Seq::empty(),
        speed_kbps: "19.2"@,
        master: None,
        slaves: Seq::empty(),
        signals: Seq::empty(),
        frames: Seq::empty(),
        schedule_tables: Seq::empty(),
        node_attributes: Seq::empty(),
    }
}

/// Whether a frame has the identifier `id`.
pub open spec fn frame_has_id(id: u8) -> spec_fn(LdfFrame) -> bool {
    |f: LdfFrame| f.id == id
}

impl LdfDatabase {
    /// Create a new empty database at the default speed of 19.2 kbps.
    pub fn new() -> (r: Self)
        ensures
            r@ == empty_ldf(),
    {
        let r = LdfDatabase {
            protocol_version: String::new(),
            language_version: String::new(),
            speed_kbps: owned("19.2"),
            master: None,
            slaves: Vec::new(),
            signals: Vec::new(),
            frames: Vec::new(),
            schedule_tables: Vec::new(),
            node_attributes: Vec::new(),
        };
        assert(r@.slaves =~= Seq::<LdfSlaveModel>::empty());
        assert(r@.signals =~= Seq::<LdfSignalModel>::empty());
        assert(r@.frames =~= Seq::<LdfFrameModel>::empty());
        assert(r@.schedule_tables =~= Seq::<LdfScheduleTableModel>::empty());
        assert(r@.node_attributes =~= Seq::<(Seq<char>, LdfNodeAttributesModel)>::empty());
        r
    }

    /// Find a frame by ID: the first with it.
    pub fn find_frame(&self, id: u8) -> (r: Option<&LdfFrame>)
        ensures
            match first_where(self.frames@, frame_has_id(id)) {
                Some(i) => r == Some(&self.frames@[i]),
                None => r is None,
            },
    {
        let mut i: usize = 0;
        while i < self.frames.len()
            invariant
                i <= self.frames.len(),
                forall|j: int| 0 <= j < i ==> (#[trigger] self.frames@[j]).id != id,
            decreases self.frames.len() - i,
        {
            if self.frames[i].id == id {
                proof {
                    lemma_first_where_at(self.frames@, frame_has_id(id), i as int);
                }
                return Some(&self.frames[i]);
            }
            i += 1;
        }
        None
    }

    /// Find a frame by name: the first of that name.
    pub fn find_frame_by_name(&self, name: &str) -> (r: Option<&LdfFrame>)
        ensures
            match first_named(self.frames@, |f: LdfFrame| f.name@, name@) {
                Some(i) => r == Some(&self.frames@[i]),
                None => r is None,
            },
    {
        let key = chars_of(name);
        let mut i: usize = 0;
        while i < self.frames.len()
            invariant
                i <= self.frames.len(),
                key@ == name@,
                forall|j: int| 0 <= j < i ==> (#[trigger] self.frames@[j]).name@ != name@,
            decreases self.frames.len() - i,
        {
            if chars_eq(chars_of(self.frames[i].name.as_str()).as_slice(), key.as_slice()) {
                proof {
                    lemma_first_named_at(self.frames@, |f: LdfFrame| f.name@, name@, i as int);
                }
                return Some(&self.frames[i]);
            }
            i += 1;
        }
        None
    }

    /// Find a signal by name: the first of that name.
    pub fn find_signal(&self, name: &str) -> (r: Option<&LdfSignal>)
        ensures
            match first_named(self.signals@, |s: LdfSignal| s.name@, name@) {
                Some(i) => r == Some(&self.signals@[i]),
                None => r is None,
            },
    {
        let key = chars_of(name);
        let mut i: usize = 0;
        while i < self.signals.len()
            invariant
                i <= self.signals.len(),
                key@ == name@,
                forall|j: int| 0 <= j < i ==> (#[trigger] self.signals@[j]).name@ != name@,
            decreases self.signals.len() - i,
        {
            if chars_eq(chars_of(self.signals[i].name.as_str()).as_slice(), key.as_slice()) {
                proof {
                    lemma_first_named_at(self.signals@, |s: LdfSignal| s.name@, name@, i as int);
                }
                return Some(&self.signals[i]);
            }
            i += 1;
        }
        None
    }

    /// Find a schedule table by name: the first of that name.
    pub fn find_schedule_table(&self, name: &str) -> (r: Option<&LdfScheduleTable>)
        ensures
            match first_named(self.schedule_tables@, |t: LdfScheduleTable| t.name@, name@) {
                Some(i) => r == Some(&self.schedule_tables@[i]),
                None => r is None,
            },
    {
        let key = chars_of(name);
        let mut i: usize = 0;
        while i < self.schedule_tables.len()
            invariant
                i <= self.schedule_tables.len(),
                key@ == name@,
                forall|j: int| 0 <= j < i ==> (#[trigger] self.schedule_tables@[j]).name@ != name@,
            decreases self.schedule_tables.len() - i,
        {
            if chars_eq(chars_of(self.schedule_tables[i].name.as_str()).as_slice(), key.as_slice()) {
                proof {
                    lemma_first_named_at(self.schedule_tables@, |t: LdfScheduleTable| t.name@, name@, i as int);
                }
                return Some(&self.schedule_tables[i]);
            }
            i += 1;
        }
        None
    }
}

impl Default for LdfDatabase {
    /// An empty database at the default speed.
    fn default() -> (r: Self)
        ensures
            r@ == empty_ldf(),
    {
        Self::new()
    }
}

} // verus!
