//! Table-driven pointer walks over foreign memory.
//!
//! A walk follows a plan of hops. Each hop starts at an address found by an
//! earlier hop (or at the root), moves by a signed offset and reads there.
//! The walk is a machine: it names the next read it needs, is fed the reply,
//! and stops at the first failure, after which it asks for nothing more.
use vstd::prelude::*;
use crate::memory::{
    Memory, MemoryImage, ReadRequest, offset_addr, offset_address, bytes_at, le_u32, le_u64, read_u32_le,
    read_u64_le, floats_all_zero, all_zero_floats,
};

verus! {

/// How a hop reads at its address.
#[derive(Clone, Copy, Debug, PartialEq, Eq, Structural)]
pub enum HopKind {
    /// Reads an 8-byte pointer; the pointer must be non-zero and 8 bytes at
    /// it readable. The hop yields the pointer.
    Follow,
    /// Reads `width` bytes; the hop yields the address and the bytes.
    Field { width: u64 },
    /// Reads a NUL-terminated string; the hop yields the address and the
    /// bytes before the terminator.
    Text,
}

/// A check on what a hop read; a failed check ends the walk.
#[derive(Debug)]
pub enum Guard {
    Any,
    /// Fails when the values of this hop and of the `group - 1` hops before
    /// it hold only `f32` zeros.
    SomeNonZero { group: usize },
    /// On a 4-byte flag word: fails when the word is zero, when its lowest
    /// byte is in `deny_low` or when its second byte is in `deny_second`.
    Flags { deny_low: Vec<u8>, deny_second: Vec<u8> },
}

pub enum GuardSpec {
    Any,
    SomeNonZero { group: usize },
    Flags { deny_low: Seq<u8>, deny_second: Seq<u8> },
}

impl View for Guard {
    type V = GuardSpec;

    open spec fn view(&self) -> GuardSpec {
        match self {
            Guard::Any => GuardSpec::Any,
            Guard::SomeNonZero { group } => GuardSpec::SomeNonZero { group: *group },
            Guard::Flags { deny_low, deny_second } => GuardSpec::Flags {
                deny_low: deny_low@,
                deny_second: deny_second@,
            },
        }
    }
}

/// One step of a walk: read at `offset` bytes from the address that hop
/// `base` yielded (hop 0 being the root itself).
#[derive(Debug)]
pub struct Hop {
    pub base: usize,
    pub offset: i64,
    pub kind: HopKind,
    pub guard: Guard,
}

pub struct HopSpec {
    pub base: usize,
    pub offset: i64,
    pub kind: HopKind,
    pub guard: GuardSpec,
}

impl View for Hop {
    type V = HopSpec;

    open spec fn view(&self) -> HopSpec {
        HopSpec { base: self.base, offset: self.offset, kind: self.kind, guard: self.guard@ }
    }
}

impl HopSpec {
    pub open spec fn follow(base: usize, offset: i64) -> HopSpec {
        HopSpec { base, offset, kind: HopKind::Follow, guard: GuardSpec::Any }
    }

    pub open spec fn field(base: usize, offset: i64, width: u64, guard: GuardSpec) -> HopSpec {
        HopSpec { base, offset, kind: HopKind::Field { width }, guard }
    }

    pub open spec fn text(base: usize, offset: i64) -> HopSpec {
        HopSpec { base, offset, kind: HopKind::Text, guard: GuardSpec::Any }
    }
}

impl Hop {
    pub fn follow(base: usize, offset: i64) -> (r: Hop)
        ensures
            r@ == HopSpec::follow(base, offset),
    {
        Hop { base, offset, kind: HopKind::Follow, guard: Guard::Any }
    }

    pub fn field(base: usize, offset: i64, width: u64, guard: Guard) -> (r: Hop)
        ensures
            r@ == HopSpec::field(base, offset, width, guard@),
    {
        Hop { base, offset, kind: HopKind::Field { width }, guard }
    }

    pub fn text(base: usize, offset: i64) -> (r: Hop)
        ensures
            r@ == HopSpec::text(base, offset),
    {
        Hop { base, offset, kind: HopKind::Text, guard: Guard::Any }
    }
}

/// Every hop starts from the root or from an earlier hop, and every group
/// check stays within the hops done so far.
pub open spec fn plan_wf(plan: Seq<HopSpec>) -> bool {
    forall|i: int|
        0 <= i < plan.len() ==> {
            &&& #[trigger] plan[i].base <= i
            &&& plan[i].guard matches GuardSpec::SomeNonZero { group } ==> 1 <= group <= i + 1
        }
}

/// `values` ends with the value just read; does the guard admit it?
pub open spec fn guard_passes(g: GuardSpec, values: Seq<Seq<u8>>) -> bool {
    match g {
        GuardSpec::Any => true,
        GuardSpec::SomeNonZero { group } => !(forall|j: int|
            values.len() - group <= j < values.len() ==> floats_all_zero(#[trigger] values[j])),
        GuardSpec::Flags { deny_low, deny_second } => {
            let v = values.last();
            &&& v.len() == 4
            &&& le_u32(v) != 0
            &&& !deny_low.contains(v[0])
            &&& !deny_second.contains(v[1])
        },
    }
}

/// What a hop yields when it reads at `a`, before its guard.
pub open spec fn hop_read(mem: Memory, kind: HopKind, a: u64) -> Option<(u64, Seq<u8>)> {
    match kind {
        HopKind::Follow => match bytes_at(mem, a, 8) {
            Some(b) => {
                let p = le_u64(b);
                if p != 0 && bytes_at(mem, p, 8) is Some {
                    Some((p, Seq::empty()))
                } else {
                    None
                }
            },
            None => None,
        },
        HopKind::Field { width } => match bytes_at(mem, a, width) {
            Some(b) => Some((a, b)),
            None => None,
        },
        HopKind::Text => match mem(ReadRequest::Text { addr: a }) {
            Some(t) => Some((a, t)),
            None => None,
        },
    }
}

/// What a hop yields after the hops that produced `slots` and `values`.
pub open spec fn hop_outcome(
    mem: Memory,
    hop: HopSpec,
    slots: Seq<u64>,
    values: Seq<Seq<u8>>,
) -> Option<(u64, Seq<u8>)> {
    match offset_addr(slots[hop.base as int], hop.offset) {
        None => None,
        Some(a) => match hop_read(mem, hop.kind, a) {
            None => None,
            Some((s, v)) => if guard_passes(hop.guard, values.push(v)) {
                Some((s, v))
            } else {
                None
            },
        },
    }
}

/// The addresses and values of the first `n` hops of a walk from `root`
/// (the root heads the addresses), or `None` when one of them fails.
pub open spec fn walk_prefix(mem: Memory, plan: Seq<HopSpec>, root: u64, n: nat) -> Option<
    (Seq<u64>, Seq<Seq<u8>>),
>
    decreases n,
{
    if n == 0 {
        Some((seq![root], Seq::empty()))
    } else {
        match walk_prefix(mem, plan, root, (n - 1) as nat) {
            None => None,
            Some((slots, values)) => match hop_outcome(mem, plan[n - 1], slots, values) {
                None => None,
                Some((s, v)) => Some((slots.push(s), values.push(v))),
            },
        }
    }
}

/// The whole walk.
pub open spec fn walk(mem: Memory, plan: Seq<HopSpec>, root: u64) -> Option<
    (Seq<u64>, Seq<Seq<u8>>),
> {
    walk_prefix(mem, plan, root, plan.len())
}

/// Once a prefix of the walk fails, every longer prefix fails.
pub proof fn lemma_prefix_fails(mem: Memory, plan: Seq<HopSpec>, root: u64, n: nat, m: nat)
    requires
        n <= m,
        walk_prefix(mem, plan, root, n) is None,
    ensures
        walk_prefix(mem, plan, root, m) is None,
    decreases m - n,
{
    if n < m {
        lemma_prefix_fails(mem, plan, root, n + 1, m);
    }
}

/// A successful walk extends each of its prefixes.
pub proof fn lemma_prefix_extends(mem: Memory, plan: Seq<HopSpec>, root: u64, n: nat, m: nat)
    requires
        n <= m,
        walk_prefix(mem, plan, root, m) is Some,
    ensures
        walk_prefix(mem, plan, root, n) matches Some((slots, values)) && walk_prefix(
            mem,
            plan,
            root,
            m,
        ) matches Some((slots2, values2)) && slots2.subrange(0, n as int + 1) == slots
            && values2.subrange(0, n as int) == values,
    decreases m - n,
{
    lemma_prefix_shape(mem, plan, root, m);
    if n < m {
        lemma_prefix_extends(mem, plan, root, n + 1, m);
        lemma_prefix_shape(mem, plan, root, n + 1);
        lemma_prefix_shape(mem, plan, root, n);
        let (slots, values) = walk_prefix(mem, plan, root, n)->0;
        let (s1, v1) = walk_prefix(mem, plan, root, n + 1)->0;
        let (s2, v2) = walk_prefix(mem, plan, root, m)->0;
        assert(s1.subrange(0, n as int + 1) =~= slots);
        assert(v1.subrange(0, n as int) =~= values);
        assert(s2.subrange(0, n as int + 1) =~= s2.subrange(0, n as int + 2).subrange(0, n as int + 1));
        assert(v2.subrange(0, n as int) =~= v2.subrange(0, n as int + 1).subrange(0, n as int));
    } else {
        let (s2, v2) = walk_prefix(mem, plan, root, m)->0;
        assert(s2.subrange(0, n as int + 1) =~= s2);
        assert(v2.subrange(0, n as int) =~= v2);
    }
}

/// A successful prefix holds one address more than values, the root first.
pub proof fn lemma_prefix_shape(mem: Memory, plan: Seq<HopSpec>, root: u64, n: nat)
    requires
        walk_prefix(mem, plan, root, n) is Some,
    ensures
        walk_prefix(mem, plan, root, n) matches Some((slots, values)) && slots.len() == n + 1
            && values.len() == n && slots[0] == root,
        walk_prefix(mem, plan, root, n) matches Some((slots, values)) && forall|i: int|
            0 <= i < n ==> (#[trigger] plan[i].kind matches HopKind::Field { width }
                ==> values[i].len() == width),
    decreases n,
{
    if n > 0 {
        lemma_prefix_shape(mem, plan, root, (n - 1) as nat);
    }
}

/// Where a walk stands.
#[derive(Clone, Copy, Debug, PartialEq, Eq, Structural)]
pub enum Phase {
    /// The next read is the current hop's own.
    Source,
    /// The current hop read the non-zero pointer `ptr`; the next read probes it.
    Target { ptr: u64 },
    /// Every hop succeeded.
    Done,
    /// A hop failed; nothing more is read.
    Failed,
}

/// The state of a walk: its plan, the addresses found (the root first), the
/// value of each finished hop, and where it stands.
pub struct WalkState {
    pub plan: Seq<HopSpec>,
    pub slots: Seq<u64>,
    pub values: Seq<Seq<u8>>,
    pub phase: Phase,
}

impl WalkState {
    pub open spec fn hop(self) -> HopSpec {
        self.plan[self.values.len() as int]
    }

    /// The address the current hop reads at.
    pub open spec fn hop_addr(self) -> Option<u64> {
        offset_addr(self.slots[self.hop().base as int], self.hop().offset)
    }

    pub open spec fn wf(self) -> bool {
        &&& plan_wf(self.plan)
        &&& self.slots.len() == self.values.len() + 1
        &&& self.values.len() <= self.plan.len()
        &&& self.phase is Source ==> self.values.len() < self.plan.len() && self.hop_addr() is Some
        &&& self.phase is Target ==> self.values.len() < self.plan.len() && self.hop().kind
            is Follow && self.hop_addr() is Some
        &&& self.phase is Done ==> self.values.len() == self.plan.len()
        &&& forall|i: int|
            0 <= i < self.values.len() ==> (#[trigger] self.plan[i].kind matches HopKind::Field {
                width,
            } ==> self.values[i].len() == width)
    }

    /// A walk that is about to start a hop: done when no hop is left, failed
    /// when the next hop's address leaves the address space.
    pub open spec fn settle(self) -> WalkState {
        if self.values.len() >= self.plan.len() {
            WalkState { phase: Phase::Done, ..self }
        } else if self.hop_addr() is None {
            WalkState { phase: Phase::Failed, ..self }
        } else {
            WalkState { phase: Phase::Source, ..self }
        }
    }

    pub open spec fn start(plan: Seq<HopSpec>, root: u64) -> WalkState {
        WalkState { plan, slots: seq![root], values: Seq::empty(), phase: Phase::Source }.settle()
    }

    pub open spec fn finished(self) -> bool {
        self.phase is Done || self.phase is Failed
    }

    /// The read the walk needs next; `None` once it has finished.
    pub open spec fn request(self) -> Option<ReadRequest> {
        match self.phase {
            Phase::Source => {
                let a = self.hop_addr()->0;
                match self.hop().kind {
                    HopKind::Follow => Some(ReadRequest::Bytes { addr: a, width: 8 }),
                    HopKind::Field { width } => Some(ReadRequest::Bytes { addr: a, width }),
                    HopKind::Text => Some(ReadRequest::Text { addr: a }),
                }
            },
            Phase::Target { ptr } => Some(ReadRequest::Bytes { addr: ptr, width: 8 }),
            _ => None,
        }
    }

    /// The current hop yielded `s` and `v`: keep them if its guard admits `v`.
    pub open spec fn complete(self, s: u64, v: Seq<u8>) -> WalkState {
        if guard_passes(self.hop().guard, self.values.push(v)) {
            WalkState {
                slots: self.slots.push(s),
                values: self.values.push(v),
                ..self
            }.settle()
        } else {
            WalkState { phase: Phase::Failed, ..self }
        }
    }

    /// The state after the reply to `request()`.
    pub open spec fn step(self, reply: Option<Seq<u8>>) -> WalkState {
        let failed = WalkState { phase: Phase::Failed, ..self };
        match self.phase {
            Phase::Source => {
                let a = self.hop_addr()->0;
                match self.hop().kind {
                    HopKind::Follow => match reply {
                        Some(b) => if b.len() == 8 && le_u64(b) != 0 {
                            WalkState { phase: Phase::Target { ptr: le_u64(b) }, ..self }
                        } else {
                            failed
                        },
                        None => failed,
                    },
                    HopKind::Field { width } => match reply {
                        Some(b) => if b.len() == width {
                            self.complete(a, b)
                        } else {
                            failed
                        },
                        None => failed,
                    },
                    HopKind::Text => match reply {
                        Some(t) => self.complete(a, t),
                        None => failed,
                    },
                }
            },
            Phase::Target { ptr } => match reply {
                Some(b) => if b.len() == 8 {
                    self.complete(ptr, Seq::empty())
                } else {
                    failed
                },
                None => failed,
            },
            _ => self,
        }
    }

    /// The state agrees with the walk of the plan from its root over `mem`.
    pub open spec fn tracks(self, mem: Memory) -> bool {
        let root = self.slots[0];
        let k = self.values.len();
        match self.phase {
            Phase::Failed => walk(mem, self.plan, root) is None,
            Phase::Target { ptr } => {
                &&& walk_prefix(mem, self.plan, root, k) == Some((self.slots, self.values))
                &&& bytes_at(mem, self.hop_addr()->0, 8) matches Some(b) && le_u64(b) == ptr
                &&& ptr != 0
            },
            _ => walk_prefix(mem, self.plan, root, k) == Some((self.slots, self.values)),
        }
    }

    /// Steps left at most before the walk finishes.
    pub open spec fn measure(self) -> nat {
        match self.phase {
            Phase::Source => (2 * (self.plan.len() - self.values.len())) as nat,
            Phase::Target { .. } => (2 * (self.plan.len() - self.values.len()) - 1) as nat,
            _ => 0,
        }
    }
}

/// The outcome of a finished walk that agrees with `mem` is the walk itself.
pub proof fn lemma_finished_outcome(s: WalkState, mem: Memory)
    requires
        s.wf(),
        s.finished(),
        s.tracks(mem),
    ensures
        s.phase is Done ==> walk(mem, s.plan, s.slots[0]) == Some((s.slots, s.values)),
        s.phase is Failed ==> walk(mem, s.plan, s.slots[0]) is None,
{
}

proof fn lemma_settle_tracks(s: WalkState, mem: Memory)
    requires
        plan_wf(s.plan),
        s.slots.len() == s.values.len() + 1,
        s.values.len() <= s.plan.len(),
        walk_prefix(mem, s.plan, s.slots[0], s.values.len()) == Some((s.slots, s.values)),
    ensures
        s.settle().tracks(mem),
        s.settle().wf(),
        s.settle().values.len() < s.plan.len() ==> s.settle().phase is Source || s.settle().phase
            is Failed,
{
    let k = s.values.len();
    lemma_prefix_shape(mem, s.plan, s.slots[0], k);
    if k < s.plan.len() && s.hop_addr() is None {
        assert(walk_prefix(mem, s.plan, s.slots[0], k + 1) is None);
        lemma_prefix_fails(mem, s.plan, s.slots[0], k + 1, s.plan.len());
    }
}

/// A start agrees with every memory.
pub proof fn lemma_start_tracks(plan: Seq<HopSpec>, root: u64, mem: Memory)
    requires
        plan_wf(plan),
    ensures
        WalkState::start(plan, root).tracks(mem),
        WalkState::start(plan, root).wf(),
{
    let s = WalkState { plan, slots: seq![root], values: Seq::empty(), phase: Phase::Source };
    assert(walk_prefix(mem, plan, root, 0) == Some((s.slots, s.values)));
    lemma_settle_tracks(s, mem);
}

/// Fed the reply that `mem` gives to its request, a walk that agrees with
/// `mem` goes on agreeing with it, stays well formed and comes nearer its end.
pub proof fn lemma_step_tracks(s: WalkState, mem: Memory)
    requires
        s.wf(),
        s.tracks(mem),
        s.request() is Some,
    ensures
        s.step(mem(s.request()->0)).tracks(mem),
        s.step(mem(s.request()->0)).wf(),
        s.step(mem(s.request()->0)).measure() < s.measure(),
        s.step(mem(s.request()->0)).plan == s.plan,
        s.step(mem(s.request()->0)).slots[0] == s.slots[0],
{
    let req = s.request()->0;
    let reply = mem(req);
    let root = s.slots[0];
    let k = s.values.len();
    let t = s.step(reply);
    lemma_prefix_shape(mem, s.plan, root, k);
    let hop = s.hop();
    let a = s.hop_addr()->0;
    assert(s.plan[k as int] == hop);
    let outcome = hop_outcome(mem, hop, s.slots, s.values);
    if s.phase is Source && hop.kind is Follow {
        if t.phase is Failed {
            assert(hop_read(mem, hop.kind, a) is None);
            assert(walk_prefix(mem, s.plan, root, (k + 1) as nat) is None);
            lemma_prefix_fails(mem, s.plan, root, (k + 1) as nat, s.plan.len());
        }
    } else {
        let (sl, v) = match s.phase {
            Phase::Target { ptr } => (ptr, Seq::<u8>::empty()),
            _ => (a, reply->0),
        };
        let read_ok = match s.phase {
            Phase::Target { .. } => reply is Some && reply->0.len() == 8,
            _ => match hop.kind {
                HopKind::Field { width } => reply is Some && reply->0.len() == width,
                _ => reply is Some,
            },
        };
        if read_ok && guard_passes(hop.guard, s.values.push(v)) {
            assert(outcome == Some((sl, v)));
            let u = WalkState { slots: s.slots.push(sl), values: s.values.push(v), ..s };
            assert(u.slots[0] == root);
            assert(walk_prefix(mem, s.plan, root, (k + 1) as nat) == Some((u.slots, u.values)));
            lemma_settle_tracks(u, mem);
        } else {
            assert(outcome is None);
            assert(walk_prefix(mem, s.plan, root, (k + 1) as nat) is None);
            lemma_prefix_fails(mem, s.plan, root, (k + 1) as nat, s.plan.len());
        }
    }
}

/// Any reply brings a walk in progress nearer its end, keeping its plan
/// and root.
pub proof fn lemma_step_progress(s: WalkState, reply: Option<Seq<u8>>)
    requires
        s.wf(),
        s.request() is Some,
    ensures
        s.step(reply).measure() < s.measure(),
        s.step(reply).plan == s.plan,
        s.step(reply).slots[0] == s.slots[0],
{
}

/// A failed read ends the walk: nothing after it is read, and a finished
/// walk stays as it is whatever it is fed.
pub proof fn lemma_failure_is_final(s: WalkState, reply: Option<Seq<u8>>)
    requires
        s.wf(),
    ensures
        s.request() is Some ==> s.step(None).phase is Failed && s.step(None).request() is None,
        s.finished() ==> s.step(reply) == s && s.request() is None,
{
}

/// When the read at the address of hop `n` fails, and every hop before it
/// succeeded, the whole walk fails.
pub proof fn lemma_unreadable_hop(mem: Memory, plan: Seq<HopSpec>, root: u64, n: nat)
    requires
        n < plan.len(),
        walk_prefix(mem, plan, root, n) matches Some((slots, values)) && offset_addr(
            slots[plan[n as int].base as int],
            plan[n as int].offset,
        ) matches Some(a) && mem(
            match plan[n as int].kind {
                HopKind::Follow => ReadRequest::Bytes { addr: a, width: 8 },
                HopKind::Field { width } => ReadRequest::Bytes { addr: a, width },
                HopKind::Text => ReadRequest::Text { addr: a },
            },
        ) is None,
    ensures
        walk(mem, plan, root) is None,
{
    assert(walk_prefix(mem, plan, root, n + 1) is None);
    lemma_prefix_fails(mem, plan, root, n + 1, plan.len());
}

/// A walk in progress.
pub struct Walk {
    plan: Vec<Hop>,
    slots: Vec<u64>,
    values: Vec<Vec<u8>>,
    phase: Phase,
}

impl View for Walk {
    type V = WalkState;

    closed spec fn view(&self) -> WalkState {
        WalkState {
            plan: self.plan@.map_values(|h: Hop| h@),
            slots: self.slots@,
            values: self.values@.map_values(|v: Vec<u8>| v@),
            phase: self.phase,
        }
    }
}

pub open spec fn reply_view(reply: Option<Vec<u8>>) -> Option<Seq<u8>> {
    match reply {
        Some(b) => Some(b@),
        None => None,
    }
}

fn holds_byte(list: &Vec<u8>, x: u8) -> (r: bool)
    ensures
        r == list@.contains(x),
{
    let mut i: usize = 0;
    while i < list.len()
        invariant
            i <= list@.len(),
            forall|j: int| 0 <= j < i ==> list@[j] != x,
        decreases list@.len() - i,
    {
        if list[i] == x {
            return true;
        }
        i += 1;
    }
    false
}

impl Walk {
    /// Starts the walk of `plan` from `root`.
    pub fn new(plan: Vec<Hop>, root: u64) -> (r: Walk)
        requires
            plan_wf(plan@.map_values(|h: Hop| h@)),
        ensures
            r@ == WalkState::start(plan@.map_values(|h: Hop| h@), root),
            r@.wf(),
            forall|mem: Memory| #[trigger] r@.tracks(mem),
    {
        let mut slots: Vec<u64> = Vec::new();
        slots.push(root);
        let mut w = Walk { plan, slots, values: Vec::new(), phase: Phase::Source };
        assert(w@.slots =~= seq![root]);
        assert(w@.values =~= Seq::<Seq<u8>>::empty());
        w.settle();
        assert forall|mem: Memory| #[trigger] w@.tracks(mem) by {
            lemma_start_tracks(w@.plan, root, mem);
        }
        proof {
            // well-formedness does not depend on the memory: any one will do
            lemma_start_tracks(w@.plan, root, |r: ReadRequest| None::<Seq<u8>>);
        }
        w
    }

    fn settle(&mut self)
        requires
            old(self)@.slots.len() == old(self)@.values.len() + 1,
            old(self)@.values.len() <= old(self)@.plan.len(),
            plan_wf(old(self)@.plan),
        ensures
            final(self)@ == old(self)@.settle(),
            final(self).plan@ == old(self).plan@,
    {
        let k = self.values.len();
        if k >= self.plan.len() {
            self.phase = Phase::Done;
        } else {
            let base = self.plan[k].base;
            assert(self@.hop().base == base);
            match offset_address(self.slots[base], self.plan[k].offset) {
                None => {
                    self.phase = Phase::Failed;
                },
                Some(_) => {
                    self.phase = Phase::Source;
                },
            }
        }
    }

    /// The address and bytes of the current hop, which succeeded.
    fn keep(&mut self, s: u64, v: Vec<u8>)
        requires
            old(self)@.wf(),
            !old(self)@.finished(),
        ensures
            final(self)@ == (WalkState {
                slots: old(self)@.slots.push(s),
                values: old(self)@.values.push(v@),
                ..old(self)@
            }).settle(),
    {
        let ghost before = self@;
        let ghost vv = v@;
        self.slots.push(s);
        self.values.push(v);
        assert(self@.values =~= before.values.push(vv));
        assert(self@.slots =~= before.slots.push(s));
        self.settle();
    }

    /// Whether the guard of the current hop admits the value `v`.
    fn admits(&self, v: &Vec<u8>) -> (r: bool)
        requires
            self@.wf(),
            !self@.finished(),
        ensures
            r == guard_passes(self@.hop().guard, self@.values.push(v@)),
    {
        let k = self.values.len();
        let ghost vals = self@.values.push(v@);
        assert(forall|i: int| 0 <= i < k ==> #[trigger] vals[i] == self.values@[i]@);
        assert(k < self.plan@.len());
        assert(self@.plan[k as int] == self.plan@[k as int]@);
        assert(self@.hop().guard == self.plan@[k as int].guard@);
        match &self.plan[k].guard {
            Guard::Any => true,
            Guard::SomeNonZero { group } => {
                let group = *group;
                assert(1 <= group <= k + 1);
                if !all_zero_floats(v.as_slice()) {
                    assert(!floats_all_zero(vals[k as int]));
                    return true;
                }
                let mut j: usize = k - (group - 1);
                while j < k
                    invariant
                        k + 1 - group <= j <= k,
                        forall|i: int| 0 <= i < k ==> #[trigger] vals[i] == self.values@[i]@,
                        self@.hop().guard == (GuardSpec::SomeNonZero { group }),
                        k == self.values@.len(),
                        vals == self@.values.push(v@),
                        floats_all_zero(vals[k as int]),
                        forall|i: int| k + 1 - group <= i < j ==> floats_all_zero(#[trigger] vals[i]),
                    decreases k - j,
                {
                    if !all_zero_floats(self.values[j].as_slice()) {
                        assert(!floats_all_zero(vals[j as int]));
                        return true;
                    }
                    j += 1;
                }
                false
            },
            Guard::Flags { deny_low, deny_second } => {
                assert(vals.last() == v@);
                if v.len() != 4 {
                    return false;
                }
                read_u32_le(v.as_slice()) != 0 && !holds_byte(deny_low, v[0]) && !holds_byte(
                    deny_second,
                    v[1],
                )
            },
        }
    }

    /// The read the walk needs next; `None` once it has finished.
    pub fn next_read(&self) -> (r: Option<ReadRequest>)
        requires
            self@.wf(),
        ensures
            r == self@.request(),
    {
        match self.phase {
            Phase::Source => {
                let k = self.values.len();
                let hop = &self.plan[k];
                let a = offset_address(self.slots[hop.base], hop.offset).unwrap();
                match hop.kind {
                    HopKind::Follow => Some(ReadRequest::Bytes { addr: a, width: 8 }),
                    HopKind::Field { width } => Some(ReadRequest::Bytes { addr: a, width }),
                    HopKind::Text => Some(ReadRequest::Text { addr: a }),
                }
            },
            Phase::Target { ptr } => Some(ReadRequest::Bytes { addr: ptr, width: 8 }),
            _ => None,
        }
    }

    /// Feeds the reply to `next_read()`: `None` when the probe failed.
    pub fn feed(&mut self, reply: Option<Vec<u8>>)
        requires
            old(self)@.wf(),
        ensures
            final(self)@ == old(self)@.step(reply_view(reply)),
            final(self)@.wf(),
            reply is None ==> final(self)@.finished(),
    {
        let ghost s = self@;
        match self.phase {
            Phase::Source => {
                let k = self.values.len();
                let base = self.plan[k].base;
                let a = offset_address(self.slots[base], self.plan[k].offset).unwrap();
                match self.plan[k].kind {
                    HopKind::Follow => {
                        match reply {
                            Some(b) => {
                                if b.len() == 8 && read_u64_le(b.as_slice()) != 0 {
                                    self.phase = Phase::Target { ptr: read_u64_le(b.as_slice()) };
                                } else {
                                    self.phase = Phase::Failed;
                                }
                            },
                            None => {
                                self.phase = Phase::Failed;
                            },
                        }
                    },
                    HopKind::Field { width } => {
                        match reply {
                            Some(b) => {
                                if b.len() as u64 == width && self.admits(&b) {
                                    self.keep(a, b);
                                } else {
                                    self.phase = Phase::Failed;
                                }
                            },
                            None => {
                                self.phase = Phase::Failed;
                            },
                        }
                    },
                    HopKind::Text => {
                        match reply {
                            Some(t) => {
                                if self.admits(&t) {
                                    self.keep(a, t);
                                } else {
                                    self.phase = Phase::Failed;
                                }
                            },
                            None => {
                                self.phase = Phase::Failed;
                            },
                        }
                    },
                }
            },
            Phase::Target { ptr } => {
                match reply {
                    Some(b) => {
                        let empty: Vec<u8> = Vec::new();
                        if b.len() == 8 && self.admits(&empty) {
                            self.keep(ptr, empty);
                        } else {
                            self.phase = Phase::Failed;
                        }
                    },
                    None => {
                        self.phase = Phase::Failed;
                    },
                }
            },
            _ => {},
        }
        proof {
            if !(s.phase is Done || s.phase is Failed) {
                let t = s.step(reply_view(reply));
                if t.phase is Failed || t.phase is Target {
                } else {
                    let sl = t.slots.last();
                    let v = t.values.last();
                    lemma_keep_wf(s, sl, v);
                }
            }
        }
    }

    /// Runs the walk to its end against a memory image.
    pub fn run_on(&mut self, image: &MemoryImage)
        requires
            old(self)@.wf(),
        ensures
            final(self)@.wf(),
            final(self)@.finished(),
            final(self)@.plan == old(self)@.plan,
            final(self)@.slots[0] == old(self)@.slots[0],
            old(self)@.tracks(image.memory()) ==> final(self)@.tracks(image.memory()),
    {
        let ghost start = self@;
        assert(self@.slots.len() > 0);
        loop
            invariant
                self@.wf(),
                self@.plan == start.plan,
                self@.slots[0] == start.slots[0],
                start.tracks(image.memory()) ==> self@.tracks(image.memory()),
            ensures
                self@.finished(),
            decreases self@.measure(),
        {
            match self.next_read() {
                None => {
                    break ;
                },
                Some(req) => {
                    let reply = image.read(req);
                    proof {
                        assert(reply_view(reply) == image.memory()(req));
                        lemma_step_progress(self@, reply_view(reply));
                        if self@.tracks(image.memory()) {
                            lemma_step_tracks(self@, image.memory());
                        }
                    }
                    self.feed(reply);
                },
            }
        }
    }

    pub fn is_done(&self) -> (r: bool)
        ensures
            r == (self@.phase is Done),
    {
        matches!(self.phase, Phase::Done)
    }

    pub fn is_failed(&self) -> (r: bool)
        ensures
            r == (self@.phase is Failed),
    {
        matches!(self.phase, Phase::Failed)
    }

    /// The address found by hop `i` (`0`: the root).
    pub fn slot(&self, i: usize) -> (r: u64)
        requires
            i < self@.slots.len(),
        ensures
            r == self@.slots[i as int],
    {
        self.slots[i]
    }

    /// The value read by hop `i + 1` (hop `0` being the root).
    pub fn value(&self, i: usize) -> (r: &Vec<u8>)
        requires
            i < self@.values.len(),
        ensures
            r@ == self@.values[i as int],
    {
        &self.values[i]
    }
}

proof fn lemma_keep_wf(s: WalkState, sl: u64, v: Seq<u8>)
    requires
        s.wf(),
        s.values.len() < s.plan.len(),
        s.hop().kind matches HopKind::Field { width } ==> v.len() == width,
    ensures
        (WalkState { slots: s.slots.push(sl), values: s.values.push(v), ..s }).settle().wf(),
{
}

} // verus!
