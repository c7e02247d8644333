//! The object classifier: from a candidate object address to its fields and
//! its category, by an ordered table of rules on its debug tag.
use vstd::prelude::*;
use crate::memory::{Memory, MemoryImage, le_u32, read_u32_le};
use crate::walk::{Guard, GuardSpec, Hop, HopSpec, Walk, WalkState, guard_passes, plan_wf, walk,
    walk_prefix, lemma_finished_outcome, lemma_prefix_extends, lemma_prefix_shape};

verus! {

/// What kind of thing an object in the world is.
#[derive(Clone, Copy, Debug, PartialEq, Eq, Structural)]
pub enum ObjectCategory {
    ZombieNormal,
    ZombieSpecial,
    ZombieHunter,
    SurvivorNormal,
    SurvivorSpecial,
    SurvivorShopkeeper,
    PlayerHuman,
    PlayerHunter,
    Other,
}

/// How a rule's pattern is held against an object's name.
#[derive(Clone, Copy, Debug, PartialEq, Eq, Structural)]
pub enum MatchKind {
    /// The name starts with the pattern.
    Prefix,
    /// The pattern occurs somewhere in the name.
    Contains,
    /// The name is the pattern.
    Exact,
}

/// One entry of a classification table.
#[derive(Debug)]
pub struct Rule {
    pub kind: MatchKind,
    pub pattern: Vec<u8>,
    pub category: ObjectCategory,
}

pub struct RuleSpec {
    pub kind: MatchKind,
    pub pattern: Seq<u8>,
    pub category: ObjectCategory,
}

impl View for Rule {
    type V = RuleSpec;

    open spec fn view(&self) -> RuleSpec {
        RuleSpec { kind: self.kind, pattern: self.pattern@, category: self.category }
    }
}

pub open spec fn rule_matches(kind: MatchKind, pattern: Seq<u8>, name: Seq<u8>) -> bool {
    match kind {
        MatchKind::Prefix => pattern.len() <= name.len() && name.subrange(0, pattern.len() as int)
            == pattern,
        MatchKind::Contains => exists|i: int|
            0 <= i && i + pattern.len() <= name.len() && #[trigger] name.subrange(
                i,
                i + pattern.len(),
            ) == pattern,
        MatchKind::Exact => name == pattern,
    }
}

/// The category of the first rule, in order, that matches `name`.
pub open spec fn first_match(rules: Seq<RuleSpec>, name: Seq<u8>) -> Option<ObjectCategory>
    decreases rules.len(),
{
    if rules.len() == 0 {
        None
    } else if rule_matches(rules[0].kind, rules[0].pattern, name) {
        Some(rules[0].category)
    } else {
        first_match(rules.drop_first(), name)
    }
}

/// The rule that applies when no rule of the table matches: the flag
/// word's second byte tells ordinary survivors from everything else.
pub open spec fn fallback(survivor_flag: u8, flag_second: u8) -> ObjectCategory {
    if flag_second == survivor_flag {
        ObjectCategory::SurvivorNormal
    } else {
        ObjectCategory::Other
    }
}

/// The delimiter between the parts of a debug tag.
pub const TAG_DELIMITER: u8 = 0x3B;

/// What follows the first delimiter of a tag; `None` without one.
pub open spec fn after_delimiter(tag: Seq<u8>) -> Option<Seq<u8>>
    decreases tag.len(),
{
    if tag.len() == 0 {
        None
    } else if tag[0] == TAG_DELIMITER {
        Some(tag.drop_first())
    } else {
        after_delimiter(tag.drop_first())
    }
}

/// The name that a tag classifies by: what follows its first delimiter,
/// which must not be empty.
pub open spec fn tag_name(tag: Seq<u8>) -> Option<Seq<u8>> {
    match after_delimiter(tag) {
        Some(name) => if name.len() > 0 {
            Some(name)
        } else {
            None
        },
        None => None,
    }
}

/// The category of an object with debug tag `tag` and second flag byte
/// `flag_second`; `None` when the tag has no name.
pub open spec fn category_of(
    rules: Seq<RuleSpec>,
    survivor_flag: u8,
    tag: Seq<u8>,
    flag_second: u8,
) -> Option<ObjectCategory> {
    match tag_name(tag) {
        Some(name) => match first_match(rules, name) {
            Some(c) => Some(c),
            None => Some(fallback(survivor_flag, flag_second)),
        },
        None => None,
    }
}

/// An ordered classification table, first match winning, with the
/// fallback rule's flag value.
#[derive(Debug)]
pub struct RuleTable {
    pub rules: Vec<Rule>,
    /// The second flag byte that marks an ordinary survivor.
    pub survivor_flag: u8,
}

impl RuleTable {
    pub open spec fn rules_spec(&self) -> Seq<RuleSpec> {
        self.rules@.map_values(|r: Rule| r@)
    }

    /// The category of the first matching rule, if any.
    pub fn first_match(&self, name: &[u8]) -> (r: Option<ObjectCategory>)
        ensures
            r == first_match(self.rules_spec(), name@),
    {
        let ghost rs = self.rules_spec();
        let mut i: usize = 0;
        assert(rs.subrange(0, rs.len() as int) =~= rs);
        while i < self.rules.len()
            invariant
                i <= rs.len(),
                rs == self.rules_spec(),
                first_match(rs, name@) == first_match(rs.subrange(i as int, rs.len() as int), name@),
            decreases rs.len() - i,
        {
            let ghost rest = rs.subrange(i as int, rs.len() as int);
            assert(rest.drop_first() =~= rs.subrange(i + 1, rs.len() as int));
            assert(rest[0] == self.rules@[i as int]@);
            let rule = &self.rules[i];
            if pattern_matches(rule.kind, rule.pattern.as_slice(), name) {
                return Some(rule.category);
            }
            i += 1;
        }
        None
    }

    /// The category of a tag; `None` when it has no name.
    pub fn category_of(&self, tag: &[u8], flag_second: u8) -> (r: Option<ObjectCategory>)
        ensures
            r == category_of(self.rules_spec(), self.survivor_flag, tag@, flag_second),
    {
        match name_of_tag(tag) {
            None => None,
            Some(name) => match self.first_match(name.as_slice()) {
                Some(c) => Some(c),
                None => Some(fallback_category(self.survivor_flag, flag_second)),
            },
        }
    }
}

pub fn fallback_category(survivor_flag: u8, flag_second: u8) -> (r: ObjectCategory)
    ensures
        r == fallback(survivor_flag, flag_second),
{
    if flag_second == survivor_flag {
        ObjectCategory::SurvivorNormal
    } else {
        ObjectCategory::Other
    }
}

/// `pattern` lies in `name` from index `i` on.
pub open spec fn occurs_at(name: Seq<u8>, pattern: Seq<u8>, i: int) -> bool {
    0 <= i && i + pattern.len() <= name.len() && name.subrange(i, i + pattern.len()) == pattern
}

fn matches_at(name: &[u8], pattern: &[u8], i: usize) -> (r: bool)
    ensures
        r == occurs_at(name@, pattern@, i as int),
{
    if i > name.len() || pattern.len() > name.len() - i {
        return false;
    }
    let n = name.len();
    let mut j: usize = 0;
    while j < pattern.len()
        invariant
            j <= pattern@.len(),
            n == name@.len(),
            i + pattern@.len() <= name@.len(),
            forall|k: int| 0 <= k < j ==> name@[i + k] == pattern@[k],
        decreases pattern@.len() - j,
    {
        if name[i + j] != pattern[j] {
            assert(name@.subrange(i as int, i + pattern@.len())[j as int] != pattern@[j as int]);
            return false;
        }
        j += 1;
    }
    assert(name@.subrange(i as int, i + pattern@.len()) =~= pattern@);
    true
}

pub fn pattern_matches(kind: MatchKind, pattern: &[u8], name: &[u8]) -> (r: bool)
    ensures
        r == rule_matches(kind, pattern@, name@),
{
    match kind {
        MatchKind::Prefix => matches_at(name, pattern, 0),
        MatchKind::Exact => {
            if name.len() != pattern.len() {
                return false;
            }
            let r = matches_at(name, pattern, 0);
            assert(r ==> name@ =~= name@.subrange(0, pattern@.len() as int));
            assert(name@ == pattern@ ==> name@.subrange(0, pattern@.len() as int) =~= name@);
            r
        },
        MatchKind::Contains => {
            if pattern.len() > name.len() {
                return false;
            }
            let last = name.len() - pattern.len();
            let mut i: usize = 0;
            loop
                invariant
                    kind == MatchKind::Contains,
                    i <= last,
                    last + pattern@.len() == name@.len(),
                    forall|k: int| 0 <= k < i ==> !occurs_at(name@, pattern@, k),
                ensures
                    forall|k: int| 0 <= k <= last ==> !occurs_at(name@, pattern@, k),
                decreases last - i,
            {
                if matches_at(name, pattern, i) {
                    assert(occurs_at(name@, pattern@, i as int));
                    assert(name@.subrange(i as int, i as int + pattern@.len()) == pattern@);
                    return true;
                }
                if i == last {
                    break ;
                }
                i += 1;
            }
            assert forall|k: int|
                0 <= k && k + pattern@.len() <= name@.len() implies #[trigger] name@.subrange(
                k,
                k + pattern@.len(),
            ) != pattern@ by {
                assert(!occurs_at(name@, pattern@, k));
            }
            false
        },
    }
}

/// What follows the first delimiter of `tag`, when there is a delimiter
/// and something follows it.
pub fn name_of_tag(tag: &[u8]) -> (r: Option<Vec<u8>>)
    ensures
        r matches Some(v) ==> tag_name(tag@) == Some(v@),
        r is None ==> tag_name(tag@) is None,
{
    let mut i: usize = 0;
    assert(tag@.subrange(0, tag@.len() as int) =~= tag@);
    while i < tag.len()
        invariant
            i <= tag@.len(),
            after_delimiter(tag@) == after_delimiter(tag@.subrange(i as int, tag@.len() as int)),
        decreases tag@.len() - i,
    {
        let ghost rest = tag@.subrange(i as int, tag@.len() as int);
        assert(rest.drop_first() =~= tag@.subrange(i + 1, tag@.len() as int));
        if tag[i] == TAG_DELIMITER {
            if i + 1 >= tag.len() {
                assert(rest.drop_first().len() == 0);
                return None;
            }
            let mut name: Vec<u8> = Vec::new();
            let mut j: usize = i + 1;
            while j < tag.len()
                invariant
                    i + 1 <= j <= tag@.len(),
                    name@ =~= tag@.subrange(i + 1, j as int),
                decreases tag@.len() - j,
            {
                name.push(tag[j]);
                j += 1;
            }
            return Some(name);
        }
        i += 1;
    }
    None
}

/// Offsets and flag values of the object layout, calibrated against one
/// build of the host.
#[derive(Debug)]
pub struct ObjectLayout {
    /// From the pointer in an array entry back to the object.
    pub entry_back: i64,
    /// Model pointer within the object.
    pub model: i64,
    /// Flag word within the model.
    pub flags: i64,
    /// Position coordinates (`f32` each) within the model.
    pub position_x: i64,
    pub position_y: i64,
    pub position_z: i64,
    /// Health module pointer within the object.
    pub health_module: i64,
    /// Health (`f32`) within the health module.
    pub health: i64,
    /// Debug tag pointer within the model.
    pub tag: i64,
    /// Lowest flag byte values of objects that are never actors.
    pub deny_low: Vec<u8>,
    /// Second flag byte values of objects that are never actors.
    pub deny_second: Vec<u8>,
}

fn copy_bytes(v: &Vec<u8>) -> (r: Vec<u8>)
    ensures
        r@ == v@,
{
    let mut r: Vec<u8> = Vec::new();
    let mut i: usize = 0;
    while i < v.len()
        invariant
            i <= v@.len(),
            r@ =~= v@.subrange(0, i as int),
        decreases v@.len() - i,
    {
        r.push(v[i]);
        i += 1;
    }
    r
}

impl ObjectLayout {
    /// From an entry of the object array to the object: the entry holds a
    /// pointer, the object lies `entry_back` bytes from it.
    pub open spec fn entry_plan_spec(&self) -> Seq<HopSpec> {
        seq![HopSpec::follow(0, 0), HopSpec::field(1, self.entry_back, 8, GuardSpec::Any)]
    }

    /// From an object to its fields: model (address 1), flag word (value 1),
    /// position (values 2 to 4), health module (address 6), health (value 6),
    /// tag pointer (address 8) and tag (value 8).
    pub open spec fn object_plan_spec(&self) -> Seq<HopSpec> {
        seq![
            HopSpec::follow(0, self.model),
            HopSpec::field(
                1,
                self.flags,
                4,
                GuardSpec::Flags { deny_low: self.deny_low@, deny_second: self.deny_second@ },
            ),
            HopSpec::field(1, self.position_x, 4, GuardSpec::Any),
            HopSpec::field(1, self.position_y, 4, GuardSpec::Any),
            HopSpec::field(1, self.position_z, 4, GuardSpec::SomeNonZero { group: 3 }),
            HopSpec::follow(0, self.health_module),
            HopSpec::field(6, self.health, 4, GuardSpec::SomeNonZero { group: 1 }),
            HopSpec::follow(1, self.tag),
            HopSpec::text(8, 0),
        ]
    }

    /// The offsets and flag values of the host build that this library was
    /// calibrated on.
    pub fn standard() -> (r: ObjectLayout)
        ensures
            r.entry_back == -0x18 && r.model == 0x20 && r.flags == 0x340 && r.position_x == 0x11C
                && r.position_y == 0x12C && r.position_z == 0x13C && r.health_module == 0xCE8
                && r.health == 0x78 && r.tag == 0x60,
            r.deny_low@ == seq![0x01u8, 0x02u8, 0x08u8],
            r.deny_second@ == Seq::<u8>::empty(),
    {
        let r = ObjectLayout {
            entry_back: -0x18,
            model: 0x20,
            flags: 0x340,
            position_x: 0x11C,
            position_y: 0x12C,
            position_z: 0x13C,
            health_module: 0xCE8,
            health: 0x78,
            tag: 0x60,
            deny_low: vec![0x01u8, 0x02u8, 0x08u8],
            deny_second: Vec::new(),
        };
        assert(r.deny_low@ =~= seq![0x01u8, 0x02u8, 0x08u8]);
        r
    }

    /// Starts the walk from an entry of the object array to its object.
    pub fn start_entry(&self, entry: u64) -> (r: Walk)
        ensures
            r@ == WalkState::start(self.entry_plan_spec(), entry),
            r@.wf(),
            forall|mem: Memory| #[trigger] r@.tracks(mem),
    {
        let mut v: Vec<Hop> = Vec::new();
        v.push(Hop::follow(0, 0));
        v.push(Hop::field(1, self.entry_back, 8, Guard::Any));
        assert(v@.map_values(|h: Hop| h@) =~= self.entry_plan_spec());
        assert(plan_wf(self.entry_plan_spec()));
        Walk::new(v, entry)
    }

    /// Starts the walk from an object to its fields.
    pub fn start_object(&self, object: u64) -> (r: Walk)
        ensures
            r@ == WalkState::start(self.object_plan_spec(), object),
            r@.wf(),
            forall|mem: Memory| #[trigger] r@.tracks(mem),
    {
        let mut v: Vec<Hop> = Vec::new();
        v.push(Hop::follow(0, self.model));
        v.push(
            Hop::field(
                1,
                self.flags,
                4,
                Guard::Flags {
                    deny_low: copy_bytes(&self.deny_low),
                    deny_second: copy_bytes(&self.deny_second),
                },
            ),
        );
        v.push(Hop::field(1, self.position_x, 4, Guard::Any));
        v.push(Hop::field(1, self.position_y, 4, Guard::Any));
        v.push(Hop::field(1, self.position_z, 4, Guard::SomeNonZero { group: 3 }));
        v.push(Hop::follow(0, self.health_module));
        v.push(Hop::field(6, self.health, 4, Guard::SomeNonZero { group: 1 }));
        v.push(Hop::follow(1, self.tag));
        v.push(Hop::text(8, 0));
        assert(v@.map_values(|h: Hop| h@) =~= self.object_plan_spec());
        assert(plan_wf(self.object_plan_spec()));
        Walk::new(v, object)
    }
}

/// The fields read from one object. Position and health are the bit
/// patterns of the host's `f32` values.
#[derive(Debug)]
pub struct ObjectAttributes {
    pub object: u64,
    pub model: u64,
    pub flags: u32,
    pub position_x: u32,
    pub position_y: u32,
    pub position_z: u32,
    pub health: u32,
    /// The debug tag, without its terminator.
    pub tag: Vec<u8>,
}

pub struct AttributesSpec {
    pub object: u64,
    pub model: u64,
    pub flags: u32,
    pub position_x: u32,
    pub position_y: u32,
    pub position_z: u32,
    pub health: u32,
    pub tag: Seq<u8>,
}

impl View for ObjectAttributes {
    type V = AttributesSpec;

    open spec fn view(&self) -> AttributesSpec {
        AttributesSpec {
            object: self.object,
            model: self.model,
            flags: self.flags,
            position_x: self.position_x,
            position_y: self.position_y,
            position_z: self.position_z,
            health: self.health,
            tag: self.tag@,
        }
    }
}

/// The attributes that the addresses and values of an object walk hold.
pub open spec fn attributes_of(slots: Seq<u64>, values: Seq<Seq<u8>>) -> AttributesSpec {
    AttributesSpec {
        object: slots[0],
        model: slots[1],
        flags: le_u32(values[1]),
        position_x: le_u32(values[2]),
        position_y: le_u32(values[3]),
        position_z: le_u32(values[4]),
        health: le_u32(values[6]),
        tag: values[8],
    }
}

/// An object with its category.
#[derive(Debug)]
pub struct Classified {
    pub attributes: ObjectAttributes,
    pub category: ObjectCategory,
}

/// The classification of an object walk's outcome.
pub open spec fn classify_outcome(
    table: &RuleTable,
    outcome: Option<(Seq<u64>, Seq<Seq<u8>>)>,
) -> Option<(AttributesSpec, ObjectCategory)> {
    match outcome {
        None => None,
        Some((slots, values)) => match category_of(
            table.rules_spec(),
            table.survivor_flag,
            values[8],
            values[1][1],
        ) {
            None => None,
            Some(c) => Some((attributes_of(slots, values), c)),
        },
    }
}

/// The classification of the object at `object` over `mem`: `None` when a
/// probe fails, a pointer is zero, the flag word is zero or denied, the
/// position holds only zeros, the health is zero, or the tag has no name.
pub open spec fn classification(
    layout: &ObjectLayout,
    table: &RuleTable,
    mem: Memory,
    object: u64,
) -> Option<(AttributesSpec, ObjectCategory)> {
    classify_outcome(table, walk(mem, layout.object_plan_spec(), object))
}

pub open spec fn classified_view(r: Option<Classified>) -> Option<(AttributesSpec, ObjectCategory)> {
    match r {
        Some(c) => Some((c.attributes@, c.category)),
        None => None,
    }
}

impl RuleTable {
    /// The classification of a finished object walk.
    pub fn classify_walk(&self, w: &Walk) -> (r: Option<Classified>)
        requires
            w@.wf(),
            w@.finished(),
            w@.plan.len() == 9,
            w@.plan[1].kind == (crate::walk::HopKind::Field { width: 4 }),
            w@.plan[2].kind == (crate::walk::HopKind::Field { width: 4 }),
            w@.plan[3].kind == (crate::walk::HopKind::Field { width: 4 }),
            w@.plan[4].kind == (crate::walk::HopKind::Field { width: 4 }),
            w@.plan[6].kind == (crate::walk::HopKind::Field { width: 4 }),
        ensures
            classified_view(r) == classify_outcome(
                self,
                if w@.phase is Done {
                    Some((w@.slots, w@.values))
                } else {
                    None
                },
            ),
    {
        if !w.is_done() {
            return None;
        }
        let flags = w.value(1);
        assert(flags@.len() == 4 && w@.values[1] == flags@);
        match self.category_of(w.value(8).as_slice(), flags[1]) {
            None => None,
            Some(category) => {
                let attributes = ObjectAttributes {
                    object: w.slot(0),
                    model: w.slot(1),
                    flags: read_u32_le(flags.as_slice()),
                    position_x: read_u32_le(w.value(2).as_slice()),
                    position_y: read_u32_le(w.value(3).as_slice()),
                    position_z: read_u32_le(w.value(4).as_slice()),
                    health: read_u32_le(w.value(6).as_slice()),
                    tag: copy_bytes(w.value(8)),
                };
                Some(Classified { attributes, category })
            },
        }
    }
}

/// The object that an array entry leads to, after a finished entry walk.
pub fn entry_object(w: &Walk) -> (r: Option<u64>)
    requires
        w@.wf(),
        w@.finished(),
        w@.plan.len() == 2,
    ensures
        w@.phase is Done ==> r == Some(w@.slots[2]),
        w@.phase is Failed ==> r is None,
{
    if w.is_done() {
        Some(w.slot(2))
    } else {
        None
    }
}

/// The object that the array entry at `entry` leads to over `mem`.
pub open spec fn object_at_entry(layout: &ObjectLayout, mem: Memory, entry: u64) -> Option<u64> {
    match walk(mem, layout.entry_plan_spec(), entry) {
        Some((slots, _)) => Some(slots[2]),
        None => None,
    }
}

/// Finds the object that an array entry leads to in a memory image.
pub fn find_entry_object(layout: &ObjectLayout, image: &MemoryImage, entry: u64) -> (r: Option<u64>)
    ensures
        r == object_at_entry(layout, image.memory(), entry),
{
    let mut w = layout.start_entry(entry);
    assert(w@.tracks(image.memory()));
    w.run_on(image);
    proof {
        lemma_finished_outcome(w@, image.memory());
    }
    entry_object(&w)
}

/// Classifies the object at `object` in a memory image.
pub fn classify(layout: &ObjectLayout, table: &RuleTable, image: &MemoryImage, object: u64) -> (r:
    Option<Classified>)
    ensures
        classified_view(r) == classification(layout, table, image.memory(), object),
{
    let mut w = layout.start_object(object);
    assert(w@.tracks(image.memory()));
    w.run_on(image);
    proof {
        lemma_finished_outcome(w@, image.memory());
    }
    table.classify_walk(&w)
}

/// The classification table of the host build that this library was
/// calibrated on: prefix rules on the object's name, in this order.
pub open spec fn standard_rules() -> Seq<RuleSpec> {
    seq![
            RuleSpec { kind: MatchKind::Prefix, pattern: seq![0x42u8, 0x69u8], category: ObjectCategory::ZombieNormal },
            RuleSpec { kind: MatchKind::Prefix, pattern: seq![0x56u8, 0x69u8], category: ObjectCategory::ZombieNormal },
            RuleSpec { kind: MatchKind::Prefix, pattern: seq![0x44u8, 0x65u8, 0x61u8], category: ObjectCategory::ZombieNormal },
            RuleSpec { kind: MatchKind::Prefix, pattern: seq![0x4Eu8, 0x69u8], category: ObjectCategory::ZombieSpecial },
            RuleSpec { kind: MatchKind::Prefix, pattern: seq![0x53u8, 0x63u8], category: ObjectCategory::ZombieSpecial },
            RuleSpec { kind: MatchKind::Prefix, pattern: seq![0x47u8, 0x61u8], category: ObjectCategory::ZombieSpecial },
            RuleSpec { kind: MatchKind::Prefix, pattern: seq![0x44u8, 0x65u8, 0x6Du8], category: ObjectCategory::ZombieSpecial },
            RuleSpec { kind: MatchKind::Prefix, pattern: seq![0x47u8, 0x6Fu8], category: ObjectCategory::ZombieSpecial },
            RuleSpec { kind: MatchKind::Prefix, pattern: seq![0x54u8, 0x6Fu8], category: ObjectCategory::ZombieSpecial },
            RuleSpec { kind: MatchKind::Prefix, pattern: seq![0x42u8, 0x6Fu8], category: ObjectCategory::ZombieSpecial },
            RuleSpec { kind: MatchKind::Prefix, pattern: seq![0x42u8, 0x54u8], category: ObjectCategory::ZombieSpecial },
            RuleSpec { kind: MatchKind::Prefix, pattern: seq![0x56u8, 0x6Fu8], category: ObjectCategory::ZombieHunter },
            RuleSpec { kind: MatchKind::Prefix, pattern: seq![0x5Au8, 0x6Fu8], category: ObjectCategory::PlayerHunter },
            RuleSpec { kind: MatchKind::Prefix, pattern: seq![0x44u8, 0x57u8], category: ObjectCategory::PlayerHunter },
            RuleSpec { kind: MatchKind::Prefix, pattern: seq![0x65u8, 0x6Eu8], category: ObjectCategory::SurvivorSpecial },
            RuleSpec { kind: MatchKind::Prefix, pattern: seq![0x30u8, 0x54u8], category: ObjectCategory::SurvivorSpecial },
            RuleSpec { kind: MatchKind::Prefix, pattern: seq![0x53u8, 0x68u8], category: ObjectCategory::SurvivorShopkeeper },
            RuleSpec { kind: MatchKind::Prefix, pattern: seq![0x53u8, 0x70u8], category: ObjectCategory::SurvivorShopkeeper },
            RuleSpec { kind: MatchKind::Prefix, pattern: seq![0x50u8, 0x6Cu8], category: ObjectCategory::PlayerHuman },
    ]
}

/// The second flag byte of ordinary survivors in the calibrated build.
pub const STANDARD_SURVIVOR_FLAG: u8 = 0x20;

fn prefix_rule(pattern: Vec<u8>, category: ObjectCategory) -> (r: Rule)
    ensures
        r@ == (RuleSpec { kind: MatchKind::Prefix, pattern: pattern@, category }),
{
    Rule { kind: MatchKind::Prefix, pattern, category }
}

impl RuleTable {
    pub fn standard() -> (r: RuleTable)
        ensures
            r.rules_spec() == standard_rules(),
            r.survivor_flag == STANDARD_SURVIVOR_FLAG,
    {
        let mut rules: Vec<Rule> = Vec::new();
        rules.push(prefix_rule(vec![0x42u8, 0x69u8], ObjectCategory::ZombieNormal)); // "Bi"
        rules.push(prefix_rule(vec![0x56u8, 0x69u8], ObjectCategory::ZombieNormal)); // "Vi"
        rules.push(prefix_rule(vec![0x44u8, 0x65u8, 0x61u8], ObjectCategory::ZombieNormal)); // "Dea"
        rules.push(prefix_rule(vec![0x4Eu8, 0x69u8], ObjectCategory::ZombieSpecial)); // "Ni"
        rules.push(prefix_rule(vec![0x53u8, 0x63u8], ObjectCategory::ZombieSpecial)); // "Sc"
        rules.push(prefix_rule(vec![0x47u8, 0x61u8], ObjectCategory::ZombieSpecial)); // "Ga"
        rules.push(prefix_rule(vec![0x44u8, 0x65u8, 0x6Du8], ObjectCategory::ZombieSpecial)); // "Dem"
        rules.push(prefix_rule(vec![0x47u8, 0x6Fu8], ObjectCategory::ZombieSpecial)); // "Go"
        rules.push(prefix_rule(vec![0x54u8, 0x6Fu8], ObjectCategory::ZombieSpecial)); // "To"
        rules.push(prefix_rule(vec![0x42u8, 0x6Fu8], ObjectCategory::ZombieSpecial)); // "Bo"
        rules.push(prefix_rule(vec![0x42u8, 0x54u8], ObjectCategory::ZombieSpecial)); // "BT"
        rules.push(prefix_rule(vec![0x56u8, 0x6Fu8], ObjectCategory::ZombieHunter)); // "Vo"
        rules.push(prefix_rule(vec![0x5Au8, 0x6Fu8], ObjectCategory::PlayerHunter)); // "Zo"
        rules.push(prefix_rule(vec![0x44u8, 0x57u8], ObjectCategory::PlayerHunter)); // "DW"
        rules.push(prefix_rule(vec![0x65u8, 0x6Eu8], ObjectCategory::SurvivorSpecial)); // "en"
        rules.push(prefix_rule(vec![0x30u8, 0x54u8], ObjectCategory::SurvivorSpecial)); // "0T"
        rules.push(prefix_rule(vec![0x53u8, 0x68u8], ObjectCategory::SurvivorShopkeeper)); // "Sh"
        rules.push(prefix_rule(vec![0x53u8, 0x70u8], ObjectCategory::SurvivorShopkeeper)); // "Sp"
        rules.push(prefix_rule(vec![0x50u8, 0x6Cu8], ObjectCategory::PlayerHuman)); // "Pl"
        assert(rules@.map_values(|r: Rule| r@) =~= standard_rules());
        RuleTable { rules, survivor_flag: STANDARD_SURVIVOR_FLAG }
    }
}

/// The rule that decides is the first one that matches: a name that
/// several rules match gets the category of the earliest of them.
pub proof fn lemma_first_rule_wins(rules: Seq<RuleSpec>, name: Seq<u8>, i: int)
    requires
        0 <= i < rules.len(),
        rule_matches(rules[i].kind, rules[i].pattern, name),
        forall|j: int| 0 <= j < i ==> !rule_matches(#[trigger] rules[j].kind, rules[j].pattern, name),
    ensures
        first_match(rules, name) == Some(rules[i].category),
    decreases i,
{
    if i > 0 {
        assert(!rule_matches(rules[0].kind, rules[0].pattern, name));
        let rest = rules.drop_first();
        assert forall|j: int| 0 <= j < i - 1 implies !rule_matches(
            #[trigger] rest[j].kind,
            rest[j].pattern,
            name,
        ) by {
            assert(rest[j] == rules[j + 1]);
        }
        lemma_first_rule_wins(rest, name, i - 1);
    }
}

/// When no rule matches, the fallback rule decides.
pub proof fn lemma_no_rule_falls_back(rules: Seq<RuleSpec>, name: Seq<u8>)
    requires
        forall|j: int| 0 <= j < rules.len() ==> !rule_matches(#[trigger] rules[j].kind, rules[j].pattern, name),
    ensures
        first_match(rules, name) is None,
    decreases rules.len(),
{
    if rules.len() > 0 {
        let rest = rules.drop_first();
        assert forall|j: int| 0 <= j < rest.len() implies !rule_matches(
            #[trigger] rest[j].kind,
            rest[j].pattern,
            name,
        ) by {
            assert(rest[j] == rules[j + 1]);
        }
        assert(!rule_matches(rules[0].kind, rules[0].pattern, name));
        lemma_no_rule_falls_back(rest, name);
    }
}

proof fn lemma_flag_bytes(b: Seq<u8>)
    requires
        b.len() == 4,
    ensures
        le_u32(b) & 0xff == b[0] as u32,
        (le_u32(b) >> 8u32) & 0xff == b[1] as u32,
{
    let (b0, b1, b2, b3) = (b[0], b[1], b[2], b[3]);
    assert(((b0 as u32) | ((b1 as u32) << 8u32) | ((b2 as u32) << 16u32) | ((b3 as u32) << 24u32))
        & 0xff == b0 as u32) by (bit_vector);
    assert((((b0 as u32) | ((b1 as u32) << 8u32) | ((b2 as u32) << 16u32) | ((b3 as u32) << 24u32))
        >> 8u32) & 0xff == b1 as u32) by (bit_vector);
}

/// Every classified object has a non-zero flag word whose lowest byte and
/// second byte are both outside the layout's deny lists: an object whose
/// flags are denied is never classified, whatever its other fields hold.
pub proof fn lemma_denied_flags_rejected(
    layout: &ObjectLayout,
    table: &RuleTable,
    mem: Memory,
    object: u64,
)
    ensures
        classification(layout, table, mem, object) matches Some((a, _)) ==> {
            &&& a.flags != 0
            &&& !layout.deny_low@.contains((a.flags & 0xff) as u8)
            &&& !layout.deny_second@.contains(((a.flags >> 8u32) & 0xff) as u8)
        },
{
    let plan = layout.object_plan_spec();
    if let Some((slots, values)) = walk(mem, plan, object) {
        lemma_prefix_shape(mem, plan, object, 9);
        lemma_prefix_extends(mem, plan, object, 2, 9);
        lemma_prefix_shape(mem, plan, object, 2);
        let pre = walk_prefix(mem, plan, object, 2)->0;
        assert(plan[1].guard == GuardSpec::Flags {
            deny_low: layout.deny_low@,
            deny_second: layout.deny_second@,
        });
        assert(guard_passes(plan[1].guard, pre.1));
        assert(values[1] == pre.1[1]);
        lemma_flag_bytes(values[1]);
    }
}

/// Every classified object's tag holds the delimiter with a non-empty
/// name after it: a tag without one is never classified.
pub proof fn lemma_nameless_tag_rejected(
    layout: &ObjectLayout,
    table: &RuleTable,
    mem: Memory,
    object: u64,
)
    ensures
        classification(layout, table, mem, object) matches Some((a, _)) ==> tag_name(a.tag) is Some,
{
}

} // verus!
