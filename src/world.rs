//! The world resolver: from the root handle down to the player and camera.
use vstd::prelude::*;
use crate::memory::{Memory, MemoryImage, ReadRequest, offset_addr, le_u32, le_u64,
    read_u32_le, read_u64_le};
use crate::walk::{Guard, GuardSpec, Hop, HopSpec, Walk, WalkState, plan_wf, walk, walk_prefix,
    lemma_finished_outcome, lemma_unreadable_hop};

verus! {

/// Byte offsets of each hop of the world chain, calibrated against one
/// build of the host.
#[derive(Clone, Copy, Debug, PartialEq, Eq, Structural)]
pub struct WorldLayout {
    /// Game director pointer within the game instance.
    pub game_director: i64,
    /// Session pointer within the game director.
    pub session: i64,
    /// Level pointer within the session.
    pub level: i64,
    /// Engine level pointer within the level.
    pub level_core: i64,
    /// Local client pointer within the session.
    pub local_client: i64,
    /// Player pointer within the local client.
    pub player: i64,
    /// Player position (three `f32`) within the player.
    pub player_position: i64,
    /// Camera look angle (two `f32`) within the player.
    pub camera_angle: i64,
    /// Player model pointer, relative to the player.
    pub player_model: i64,
    /// Camera manager pointer within the session.
    pub camera_manager: i64,
    /// Active camera pointer within the camera manager.
    pub camera: i64,
}

/// The addresses that one frame needs, each one probed readable.
#[derive(Clone, Copy, Debug, PartialEq, Eq, Structural)]
pub struct WorldSnapshot {
    pub game: u64,
    pub game_director: u64,
    pub session: u64,
    pub level: u64,
    pub level_core: u64,
    pub local_client: u64,
    pub player: u64,
    /// Address of the player's position.
    pub player_position: u64,
    /// Address of the camera's look angle.
    pub camera_angle: u64,
    pub player_model: u64,
    pub camera_manager: u64,
    pub camera: u64,
}

/// The snapshot that the addresses found by the world walk make up.
pub open spec fn snapshot_of(slots: Seq<u64>) -> WorldSnapshot {
    WorldSnapshot {
        game: slots[1],
        game_director: slots[2],
        session: slots[3],
        level: slots[4],
        level_core: slots[5],
        local_client: slots[6],
        player: slots[7],
        player_position: slots[8],
        camera_angle: slots[9],
        player_model: slots[10],
        camera_manager: slots[11],
        camera: slots[12],
    }
}

impl WorldLayout {
    /// The hops of the chain; hop `i` yields address `i + 1`, the root
    /// (the address that holds the game pointer) being address `0`.
    pub open spec fn plan_spec(self) -> Seq<HopSpec> {
        seq![
            HopSpec::follow(0, 0),
            HopSpec::follow(1, self.game_director),
            HopSpec::follow(2, self.session),
            HopSpec::follow(3, self.level),
            HopSpec::follow(4, self.level_core),
            HopSpec::follow(3, self.local_client),
            HopSpec::follow(6, self.player),
            HopSpec::field(7, self.player_position, 12, GuardSpec::SomeNonZero { group: 1 }),
            HopSpec::field(7, self.camera_angle, 8, GuardSpec::Any),
            HopSpec::follow(7, self.player_model),
            HopSpec::follow(3, self.camera_manager),
            HopSpec::follow(11, self.camera),
        ]
    }

    /// The offsets of the host build that this library was calibrated on.
    pub fn standard() -> (r: WorldLayout)
        ensures
            r.game_director == 0x98 && r.session == 0x540 && r.level == 0xB0 && r.level_core == 0x8
                && r.local_client == 0xB8 && r.player == 0x50 && r.player_position == 0x7B0
                && r.camera_angle == 0x111C && r.player_model == -0x50 && r.camera_manager == 0xC0
                && r.camera == 0x50,
    {
        WorldLayout {
            game_director: 0x98,
            session: 0x540,
            level: 0xB0,
            level_core: 0x8,
            local_client: 0xB8,
            player: 0x50,
            player_position: 0x7B0,
            camera_angle: 0x111C,
            player_model: -0x50,
            camera_manager: 0xC0,
            camera: 0x50,
        }
    }

    pub fn plan(&self) -> (r: Vec<Hop>)
        ensures
            r@.map_values(|h: Hop| h@) == self.plan_spec(),
    {
        let mut v: Vec<Hop> = Vec::new();
        v.push(Hop::follow(0, 0));
        v.push(Hop::follow(1, self.game_director));
        v.push(Hop::follow(2, self.session));
        v.push(Hop::follow(3, self.level));
        v.push(Hop::follow(4, self.level_core));
        v.push(Hop::follow(3, self.local_client));
        v.push(Hop::follow(6, self.player));
        v.push(Hop::field(7, self.player_position, 12, Guard::SomeNonZero { group: 1 }));
        v.push(Hop::field(7, self.camera_angle, 8, Guard::Any));
        v.push(Hop::follow(7, self.player_model));
        v.push(Hop::follow(3, self.camera_manager));
        v.push(Hop::follow(11, self.camera));
        assert(v@.map_values(|h: Hop| h@) =~= self.plan_spec());
        v
    }

    /// Starts resolving the world from the root handle.
    pub fn start(&self, root: u64) -> (r: Walk)
        ensures
            r@ == WalkState::start(self.plan_spec(), root),
            r@.wf(),
            forall|mem: Memory| #[trigger] r@.tracks(mem),
    {
        assert(plan_wf(self.plan_spec()));
        Walk::new(self.plan(), root)
    }
}

/// The world that the chain from `root` resolves to over `mem`: `None` when
/// any hop's source or target fails its probe, when a pointer is zero, or
/// when the player's position holds only zeros.
pub open spec fn resolved_world(layout: WorldLayout, mem: Memory, root: u64) -> Option<WorldSnapshot> {
    match walk(mem, layout.plan_spec(), root) {
        Some((slots, _)) => Some(snapshot_of(slots)),
        None => None,
    }
}

/// The snapshot of a finished world walk; `None` when it failed.
pub fn snapshot(w: &Walk) -> (r: Option<WorldSnapshot>)
    requires
        w@.wf(),
        w@.finished(),
        w@.plan.len() == 12,
    ensures
        w@.phase is Done ==> r == Some(snapshot_of(w@.slots)),
        w@.phase is Failed ==> r is None,
{
    if w.is_done() {
        Some(WorldSnapshot {
            game: w.slot(1),
            game_director: w.slot(2),
            session: w.slot(3),
            level: w.slot(4),
            level_core: w.slot(5),
            local_client: w.slot(6),
            player: w.slot(7),
            player_position: w.slot(8),
            camera_angle: w.slot(9),
            player_model: w.slot(10),
            camera_manager: w.slot(11),
            camera: w.slot(12),
        })
    } else {
        None
    }
}

/// Resolves the world over a memory image.
pub fn resolve_world(layout: &WorldLayout, image: &MemoryImage, root: u64) -> (r: Option<WorldSnapshot>)
    ensures
        r == resolved_world(*layout, image.memory(), root),
{
    let mut w = layout.start(root);
    assert(w@.tracks(image.memory()));
    w.run_on(image);
    proof {
        lemma_finished_outcome(w@, image.memory());
    }
    snapshot(&w)
}

/// A chain that breaks at any hop resolves to no world: when every hop
/// before hop `n` succeeds and the read at hop `n`'s address fails its
/// probe, there is no snapshot.
pub proof fn lemma_broken_chain(layout: WorldLayout, mem: Memory, root: u64, n: nat)
    requires
        n < 12,
        walk_prefix(mem, layout.plan_spec(), root, n) matches Some((slots, values)) && offset_addr(
            slots[layout.plan_spec()[n as int].base as int],
            layout.plan_spec()[n as int].offset,
        ) matches Some(a) && mem(
            match layout.plan_spec()[n as int].kind {
                crate::walk::HopKind::Follow => ReadRequest::Bytes { addr: a, width: 8 },
                crate::walk::HopKind::Field { width } => ReadRequest::Bytes { addr: a, width },
                crate::walk::HopKind::Text => ReadRequest::Text { addr: a },
            },
        ) is None,
    ensures
        resolved_world(layout, mem, root) is None,
{
    lemma_unreadable_hop(mem, layout.plan_spec(), root, n);
}

/// The object array that the engine fills for the camera: a pointer to
/// `len` object pointers, with room for `max`.
#[derive(Clone, Copy, Debug, PartialEq, Eq, Structural)]
pub struct ObjectArray {
    pub ptr: u64,
    pub len: u32,
    pub max: u32,
}

/// The array that a 16-byte header describes (pointer, length, capacity,
/// little-endian); `None` when the header is short or the array is empty,
/// the level not being populated yet.
pub open spec fn array_of_header(b: Seq<u8>) -> Option<ObjectArray> {
    if b.len() != 16 {
        None
    } else {
        let len = le_u32(b.subrange(8, 12));
        if len == 0 {
            None
        } else {
            Some(ObjectArray { ptr: le_u64(b.subrange(0, 8)), len, max: le_u32(b.subrange(12, 16)) })
        }
    }
}

impl ObjectArray {
    pub fn from_header(b: &[u8]) -> (r: Option<ObjectArray>)
        ensures
            r == array_of_header(b@),
    {
        if b.len() != 16 {
            return None;
        }
        let len = read_u32_le(&b[8..12]);
        if len == 0 {
            return None;
        }
        let ptr = read_u64_le(&b[0..8]);
        let max = read_u32_le(&b[12..16]);
        Some(ObjectArray { ptr, len, max })
    }

    /// The address of entry `i`, or `None` when it lies outside the array
    /// or the address space.
    pub fn entry(&self, i: u32) -> (r: Option<u64>)
        ensures
            r == (if i < self.len && self.ptr + 8 * i <= u64::MAX {
                Some((self.ptr + 8 * i) as u64)
            } else {
                None
            }),
    {
        if i >= self.len {
            return None;
        }
        let step: u64 = 8 * (i as u64);
        if step > u64::MAX - self.ptr {
            None
        } else {
            Some(self.ptr + step)
        }
    }
}

} // verus!
