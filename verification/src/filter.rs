//! Message filtering for CAN frames by ID range, ID mask, ID list,
//! direction and channel.
use vstd::prelude::*;
use crate::frame::CanFrame;

verus! {

/// Direction of a CAN message
#[derive(Debug, Clone, Copy, PartialEq, Eq, Structural)]
pub enum Direction {
    /// Transmitted message
    Tx,
    /// Received message
    Rx,
}

/// A single filter rule
#[derive(Debug, Clone, PartialEq)]
pub enum FilterRule {
    /// Accept messages with IDs in the specified range (inclusive)
    IdRange { start: u32, end: u32 },
    /// Accept messages whose ID agrees with `id` on the bits set in `mask`
    IdMask { id: u32, mask: u32 },
    /// Accept messages with IDs in the specified list
    IdList { ids: Vec<u32> },
    /// Accept messages with the specified direction
    Direction { direction: Direction },
    /// Accept messages on the specified channel
    Channel { channel: u8 },
}

/// Whether a rule accepts a frame with identifier `id`, seen on `channel`
/// travelling in `direction`.
pub open spec fn rule_matches_spec(rule: FilterRule, id: u32, channel: u8, direction: Direction) -> bool {
    match rule {
        FilterRule::IdRange { start, end } => start <= id && id <= end,
        FilterRule::IdMask { id: pattern, mask } => id & mask == pattern & mask,
        FilterRule::IdList { ids } => ids@.contains(id),
        FilterRule::Direction { direction: d } => d == direction,
        FilterRule::Channel { channel: c } => c == channel,
    }
}

fn list_contains(ids: &Vec<u32>, id: u32) -> (r: bool)
    ensures
        r == ids@.contains(id),
{
    let mut i: usize = 0;
    while i < ids.len()
        invariant
            i <= ids.len(),
            forall|j: int| 0 <= j < i ==> ids@[j] != id,
        decreases ids.len() - i,
    {
        if ids[i] == id {
            assert(ids@[i as int] == id);
            return true;
        }
        i += 1;
    }
    false
}

impl FilterRule {
    /// Check if a frame matches this rule
    pub fn matches(&self, frame: &CanFrame, channel: u8, direction: Direction) -> (r: bool)
        ensures
            r == rule_matches_spec(*self, frame.spec_id(), channel, direction),
    {
        match self {
            FilterRule::IdRange { start, end } => {
                let id = frame.id();
                id >= *start && id <= *end
            },
            FilterRule::IdMask { id, mask } => {
                let frame_id = frame.id();
                (frame_id & *mask) == (*id & *mask)
            },
            FilterRule::IdList { ids } => list_contains(ids, frame.id()),
            FilterRule::Direction { direction: dir } => *dir == direction,
            FilterRule::Channel { channel: ch } => *ch == channel,
        }
    }
}

/// Filter mode determines how multiple rules are combined
#[derive(Debug, Clone, Copy, PartialEq, Eq, Structural)]
pub enum FilterMode {
    /// Accept if ANY rule matches (OR logic)
    Any,
    /// Accept if ALL rules match (AND logic)
    All,
}

/// Whether a filter with these rules and mode accepts the frame: an empty
/// filter accepts everything; otherwise one rule (`Any`) or every rule
/// (`All`) must accept it.
pub open spec fn filter_accepts(
    rules: Seq<FilterRule>,
    mode: FilterMode,
    id: u32,
    channel: u8,
    direction: Direction,
) -> bool {
    if rules.len() == 0 {
        true
    } else {
        match mode {
            FilterMode::Any => exists|i: int|
                0 <= i < rules.len() && #[trigger] rule_matches_spec(rules[i], id, channel, direction),
            FilterMode::All => forall|i: int|
                0 <= i < rules.len() ==> #[trigger] rule_matches_spec(rules[i], id, channel, direction),
        }
    }
}

/// Message filter: rules combined with AND or OR logic (OR by default).
#[derive(Debug, Clone)]
pub struct MessageFilter {
    rules: Vec<FilterRule>,
    mode: FilterMode,
}

impl MessageFilter {
    /// The rules, in the order they were added.
    pub closed spec fn spec_rules(&self) -> Seq<FilterRule> {
        self.rules@
    }

    /// How the rules are combined.
    pub closed spec fn spec_mode(&self) -> FilterMode {
        self.mode
    }

    /// Create a new empty filter in `Any` mode; it accepts all messages.
    pub fn new() -> (r: Self)
        ensures
            r.spec_rules() == Seq::<FilterRule>::empty(),
            r.spec_mode() == FilterMode::Any,
    {
        MessageFilter { rules: Vec::new(), mode: FilterMode::Any }
    }

    /// Set the filter mode (AND or OR logic)
    pub fn with_mode(self, mode: FilterMode) -> (r: Self)
        ensures
            r.spec_rules() == self.spec_rules(),
            r.spec_mode() == mode,
    {
        let mut s = self;
        s.mode = mode;
        s
    }

    /// Add a filter rule
    pub fn add_rule(self, rule: FilterRule) -> (r: Self)
        ensures
            r.spec_rules() == self.spec_rules().push(rule),
            r.spec_mode() == self.spec_mode(),
    {
        let mut s = self;
        s.rules.push(rule);
        s
    }

    /// Add multiple filter rules, in order
    pub fn add_rules(self, rules: Vec<FilterRule>) -> (r: Self)
        ensures
            r.spec_rules() == self.spec_rules() + rules@,
            r.spec_mode() == self.spec_mode(),
    {
        let mut s = self;
        let mut rules = rules;
        s.rules.append(&mut rules);
        s
    }

    /// Check if a received frame on `channel` matches the filter
    pub fn matches(&self, frame: &CanFrame, channel: u8) -> (r: bool)
        ensures
            r == filter_accepts(self.spec_rules(), self.spec_mode(), frame.spec_id(), channel, Direction::Rx),
    {
        self.matches_with_direction(frame, channel, Direction::Rx)
    }

    /// Check if a frame on `channel` in `direction` matches the filter
    pub fn matches_with_direction(&self, frame: &CanFrame, channel: u8, direction: Direction) -> (r: bool)
        ensures
            r == filter_accepts(self.spec_rules(), self.spec_mode(), frame.spec_id(), channel, direction),
    {
        if self.rules.len() == 0 {
            return true;
        }
        let ghost id = frame.spec_id();
        match self.mode {
            FilterMode::Any => {
                let mut i: usize = 0;
                while i < self.rules.len()
                    invariant
                        i <= self.rules.len(),
                        id == frame.spec_id(),
                        self.mode == FilterMode::Any,
                        self.rules.len() > 0,
                        forall|j: int|
                            0 <= j < i ==> !rule_matches_spec(self.rules@[j], id, channel, direction),
                    decreases self.rules.len() - i,
                {
                    let rule = &self.rules[i];
                    let m = rule.matches(frame, channel, direction);
                    assert(*rule == self.rules@[i as int]);
                    if m {
                        assert(rule_matches_spec(self.rules@[i as int], id, channel, direction));
                        return true;
                    }
                    i += 1;
                }
                assert(!filter_accepts(self.rules@, self.mode, id, channel, direction));
                false
            },
            FilterMode::All => {
                let mut i: usize = 0;
                while i < self.rules.len()
                    invariant
                        i <= self.rules.len(),
                        id == frame.spec_id(),
                        self.mode == FilterMode::All,
                        self.rules.len() > 0,
                        forall|j: int|
                            0 <= j < i ==> rule_matches_spec(self.rules@[j], id, channel, direction),
                    decreases self.rules.len() - i,
                {
                    let rule = &self.rules[i];
                    let m = rule.matches(frame, channel, direction);
                    assert(*rule == self.rules@[i as int]);
                    if !m {
                        assert(!rule_matches_spec(self.rules@[i as int], id, channel, direction));
                        return false;
                    }
                    i += 1;
                }
                true
            },
        }
    }

    /// Get the number of rules in the filter
    pub fn rule_count(&self) -> (r: usize)
        ensures
            r == self.spec_rules().len(),
    {
        self.rules.len()
    }

    /// Get the filter mode
    pub fn mode(&self) -> (r: FilterMode)
        ensures
            r == self.spec_mode(),
    {
        self.mode
    }

    /// Clear all rules, keeping the mode
    pub fn clear(&mut self)
        ensures
            final(self).spec_rules() == Seq::<FilterRule>::empty(),
            final(self).spec_mode() == old(self).spec_mode(),
    {
        self.rules.clear();
    }
}

impl Default for MessageFilter {
    /// The default filter is the empty filter.
    fn default() -> (r: Self)
        ensures
            r.spec_rules() == Seq::<FilterRule>::empty(),
            r.spec_mode() == FilterMode::Any,
    {
        Self::new()
    }
}

/// An empty filter accepts every frame, in either mode.
pub proof fn lemma_empty_filter_accepts_all(mode: FilterMode, id: u32, channel: u8, direction: Direction)
    ensures
        filter_accepts(Seq::<FilterRule>::empty(), mode, id, channel, direction),
{
}

/// With a single rule the two modes agree: the filter accepts exactly what
/// the rule accepts.
pub proof fn lemma_single_rule_modes_agree(rule: FilterRule, id: u32, channel: u8, direction: Direction)
    ensures
        filter_accepts(seq![rule], FilterMode::Any, id, channel, direction)
            == rule_matches_spec(rule, id, channel, direction),
        filter_accepts(seq![rule], FilterMode::All, id, channel, direction)
            == rule_matches_spec(rule, id, channel, direction),
{
    let s = seq![rule];
    assert(s[0] == rule);
    if rule_matches_spec(rule, id, channel, direction) {
        assert(rule_matches_spec(s[0], id, channel, direction));
    }
}

/// Adding a rule to an `Any` filter never rejects a frame it accepted
/// before, unless the filter was empty (and so accepted everything).
pub proof fn lemma_any_add_rule_monotone(
    rules: Seq<FilterRule>,
    rule: FilterRule,
    id: u32,
    channel: u8,
    direction: Direction,
)
    requires
        rules.len() > 0,
        filter_accepts(rules, FilterMode::Any, id, channel, direction),
    ensures
        filter_accepts(rules.push(rule), FilterMode::Any, id, channel, direction),
{
    let i = choose|i: int| 0 <= i < rules.len() && #[trigger] rule_matches_spec(rules[i], id, channel, direction);
    assert(rules.push(rule)[i] == rules[i]);
}

/// Adding a rule to a non-empty `All` filter never accepts a frame it
/// rejected before.
pub proof fn lemma_all_add_rule_antitone(
    rules: Seq<FilterRule>,
    rule: FilterRule,
    id: u32,
    channel: u8,
    direction: Direction,
)
    requires
        rules.len() > 0,
        !filter_accepts(rules, FilterMode::All, id, channel, direction),
    ensures
        !filter_accepts(rules.push(rule), FilterMode::All, id, channel, direction),
{
    let i = choose|i: int| 0 <= i < rules.len() && !#[trigger] rule_matches_spec(rules[i], id, channel, direction);
    assert(rules.push(rule)[i] == rules[i]);
}

/// The rules after adding `rs` one by one to `rules` (as `add_rule` does,
/// each at the end).
pub open spec fn add_each(rules: Seq<FilterRule>, rs: Seq<FilterRule>) -> Seq<FilterRule>
    decreases rs.len(),
{
    if rs.len() == 0 {
        rules
    } else {
        add_each(rules.push(rs[0]), rs.drop_first())
    }
}

/// Adding a list of rules at once (`add_rules`) gives the rules that
/// adding them one by one (`add_rule`) gives, in the same order; the mode
/// is kept either way.
pub proof fn lemma_add_rules_one_by_one(rules: Seq<FilterRule>, rs: Seq<FilterRule>)
    ensures
        add_each(rules, rs) == rules + rs,
    decreases rs.len(),
{
    if rs.len() > 0 {
        lemma_add_rules_one_by_one(rules.push(rs[0]), rs.drop_first());
        assert(rules.push(rs[0]) + rs.drop_first() =~= rules + rs);
    } else {
        assert(rules + rs =~= rules);
    }
}

} // verus!
