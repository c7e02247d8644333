//! The aim-lock state machine: candidate scoring during a frame, locking on
//! the trigger key, and the instruction patch that goes with the lock.
//!
//! Distances are the bit patterns of non-negative `f32` values: for those,
//! the order of the patterns as unsigned integers is the order of the values.
use vstd::prelude::*;
use crate::classify::ObjectCategory;

verus! {

/// Which categories a feature applies to.
#[derive(Clone, Copy, Debug, PartialEq, Eq, Structural)]
pub struct CategoryFilter {
    pub zombie_normal: bool,
    pub zombie_special: bool,
    pub zombie_hunter: bool,
    pub survivor_normal: bool,
    pub survivor_special: bool,
    pub survivor_shopkeeper: bool,
    pub player_human: bool,
    pub player_hunter: bool,
    pub other: bool,
}

impl CategoryFilter {
    pub open spec fn admits(self, c: ObjectCategory) -> bool {
        match c {
            ObjectCategory::ZombieNormal => self.zombie_normal,
            ObjectCategory::ZombieSpecial => self.zombie_special,
            ObjectCategory::ZombieHunter => self.zombie_hunter,
            ObjectCategory::SurvivorNormal => self.survivor_normal,
            ObjectCategory::SurvivorSpecial => self.survivor_special,
            ObjectCategory::SurvivorShopkeeper => self.survivor_shopkeeper,
            ObjectCategory::PlayerHuman => self.player_human,
            ObjectCategory::PlayerHunter => self.player_hunter,
            ObjectCategory::Other => self.other,
        }
    }

    /// A filter that admits nothing.
    pub fn none() -> (r: CategoryFilter)
        ensures
            forall|c: ObjectCategory| !r.admits(c),
    {
        CategoryFilter {
            zombie_normal: false,
            zombie_special: false,
            zombie_hunter: false,
            survivor_normal: false,
            survivor_special: false,
            survivor_shopkeeper: false,
            player_human: false,
            player_hunter: false,
            other: false,
        }
    }

    pub fn allows(&self, c: ObjectCategory) -> (r: bool)
        ensures
            r == self.admits(c),
    {
        match c {
            ObjectCategory::ZombieNormal => self.zombie_normal,
            ObjectCategory::ZombieSpecial => self.zombie_special,
            ObjectCategory::ZombieHunter => self.zombie_hunter,
            ObjectCategory::SurvivorNormal => self.survivor_normal,
            ObjectCategory::SurvivorSpecial => self.survivor_special,
            ObjectCategory::SurvivorShopkeeper => self.survivor_shopkeeper,
            ObjectCategory::PlayerHuman => self.player_human,
            ObjectCategory::PlayerHunter => self.player_hunter,
            ObjectCategory::Other => self.other,
        }
    }
}

/// Whether a classified object is drawn: not the player's own model, inside
/// the camera's frustum, and of a category that `filter` admits.
pub open spec fn is_shown(
    model: u64,
    player_model: u64,
    in_frustum: bool,
    c: ObjectCategory,
    filter: CategoryFilter,
) -> bool {
    model != player_model && in_frustum && filter.admits(c)
}

pub fn shown(
    model: u64,
    player_model: u64,
    in_frustum: bool,
    c: ObjectCategory,
    filter: &CategoryFilter,
) -> (r: bool)
    ensures
        r == is_shown(model, player_model, in_frustum, c, *filter),
{
    model != player_model && in_frustum && filter.allows(c)
}

/// Ordinary survivors, shopkeepers and unclassified objects are never aimed at.
pub open spec fn aimable(c: ObjectCategory) -> bool {
    !(c is SurvivorNormal || c is SurvivorShopkeeper || c is Other)
}

/// The best target found so far in a frame.
#[derive(Clone, Copy, Debug, PartialEq, Eq, Structural)]
pub struct Candidate {
    pub object: u64,
    /// Screen distance to the screen centre, as `f32` bits.
    pub distance: u32,
}

/// What to do with the two patched instruction sites.
#[derive(Clone, Copy, Debug, PartialEq, Eq, Structural)]
pub enum PatchAction {
    Keep,
    /// Write no-ops over both sites.
    Apply,
    /// Write the host's own instructions back.
    Revert,
}

/// The aim state: the frame's best candidate, the locked target while the
/// trigger is held, and whether the instruction patch is applied.
#[derive(Clone, Copy, Debug, PartialEq, Eq, Structural)]
pub struct AimState {
    pub best: Option<Candidate>,
    pub locked: Option<u64>,
    pub patched: bool,
}

/// The instruction that writes the camera yaw, as the host ships it.
pub open spec fn yaw_stock() -> Seq<u8> {
    seq![0xF3u8, 0x0Fu8, 0x11u8, 0xB3u8, 0x74u8, 0x11u8, 0x00u8, 0x00u8]
}

/// The instruction that writes the camera pitch, as the host ships it.
pub open spec fn pitch_stock() -> Seq<u8> {
    seq![0xF3u8, 0x0Fu8, 0x11u8, 0x83u8, 0x78u8, 0x11u8, 0x00u8, 0x00u8]
}

/// Eight no-op instructions.
pub open spec fn nops() -> Seq<u8> {
    seq![0x90u8, 0x90u8, 0x90u8, 0x90u8, 0x90u8, 0x90u8, 0x90u8, 0x90u8]
}

/// The bytes of the yaw and pitch sites with the patch applied or not.
pub open spec fn site_bytes(patched: bool) -> (Seq<u8>, Seq<u8>) {
    if patched {
        (nops(), nops())
    } else {
        (yaw_stock(), pitch_stock())
    }
}

/// The bytes of the yaw and pitch sites after performing `a` on `sites`.
pub open spec fn perform(sites: (Seq<u8>, Seq<u8>), a: PatchAction) -> (Seq<u8>, Seq<u8>) {
    match a {
        PatchAction::Keep => sites,
        PatchAction::Apply => (nops(), nops()),
        PatchAction::Revert => (yaw_stock(), pitch_stock()),
    }
}

impl PatchAction {
    /// The bytes to write over the yaw and pitch sites; `None` for `Keep`.
    pub fn bytes(&self) -> (r: Option<(Vec<u8>, Vec<u8>)>)
        ensures
            r matches Some((y, p)) ==> !(*self is Keep) && perform(site_bytes(false), *self) == (
            y@, p@),
            r is None ==> *self is Keep,
    {
        match self {
            PatchAction::Keep => None,
            PatchAction::Apply => {
                let y = vec![0x90u8, 0x90u8, 0x90u8, 0x90u8, 0x90u8, 0x90u8, 0x90u8, 0x90u8];
                let p = vec![0x90u8, 0x90u8, 0x90u8, 0x90u8, 0x90u8, 0x90u8, 0x90u8, 0x90u8];
                assert(y@ =~= nops() && p@ =~= nops());
                Some((y, p))
            },
            PatchAction::Revert => {
                let y = vec![0xF3u8, 0x0Fu8, 0x11u8, 0xB3u8, 0x74u8, 0x11u8, 0x00u8, 0x00u8];
                let p = vec![0xF3u8, 0x0Fu8, 0x11u8, 0x83u8, 0x78u8, 0x11u8, 0x00u8, 0x00u8];
                assert(y@ =~= yaw_stock() && p@ =~= pitch_stock());
                Some((y, p))
            },
        }
    }
}

impl AimState {
    /// The patch is applied exactly while a target is locked.
    pub open spec fn wf(self) -> bool {
        self.patched == (self.locked is Some)
    }

    /// The state after offering `object` of category `c` at `distance`.
    pub open spec fn offered(
        self,
        filter: CategoryFilter,
        fov: u32,
        object: u64,
        c: ObjectCategory,
        distance: u32,
    ) -> AimState {
        if aimable(c) && filter.admits(c) && distance <= fov && (self.best matches Some(b)
            ==> distance < b.distance) {
            AimState { best: Some(Candidate { object, distance }), ..self }
        } else {
            self
        }
    }

    /// The end of a frame's scoring, with the trigger `held` or not: the
    /// state after it (with no candidate left) and the patch action.
    pub open spec fn triggered(self, held: bool) -> (AimState, PatchAction) {
        let cleared = AimState { best: None, ..self };
        if held {
            match (self.locked, self.best) {
                (None, Some(b)) => (
                    AimState { best: None, locked: Some(b.object), patched: true },
                    PatchAction::Apply,
                ),
                _ => (cleared, PatchAction::Keep),
            }
        } else {
            match self.locked {
                Some(_) => (AimState { best: None, locked: None, patched: false }, PatchAction::Revert),
                None => (cleared, PatchAction::Keep),
            }
        }
    }

    /// The state after the locked target was checked, and the patch action.
    pub open spec fn validated(self, valid: bool) -> (AimState, PatchAction) {
        if self.locked is Some && !valid {
            (AimState { locked: None, patched: false, ..self }, PatchAction::Revert)
        } else {
            (self, PatchAction::Keep)
        }
    }

    /// Idle: no candidate, no lock, no patch.
    pub fn new() -> (r: AimState)
        ensures
            r == (AimState { best: None, locked: None, patched: false }),
            r.wf(),
    {
        AimState { best: None, locked: None, patched: false }
    }

    /// Offers one classified object of this frame. It becomes the best
    /// candidate when its category is aimable and admitted by `filter`, its
    /// distance is within `fov` and strictly below the best one's.
    pub fn offer(
        &mut self,
        filter: &CategoryFilter,
        fov: u32,
        object: u64,
        c: ObjectCategory,
        distance: u32,
    )
        ensures
            *final(self) == old(self).offered(*filter, fov, object, c, distance),
    {
        let aimable = match c {
            ObjectCategory::SurvivorNormal | ObjectCategory::SurvivorShopkeeper
            | ObjectCategory::Other => false,
            _ => true,
        };
        if !aimable || !filter.allows(c) || distance > fov {
            return ;
        }
        let better = match self.best {
            Some(b) => distance < b.distance,
            None => true,
        };
        if better {
            self.best = Some(Candidate { object, distance });
        }
    }

    /// Ends the frame's scoring: on the trigger's press the best candidate
    /// is locked and the patch applied; on its release the lock is dropped
    /// and the patch reverted. The candidate is cleared for the next frame.
    pub fn trigger(&mut self, held: bool) -> (r: PatchAction)
        requires
            old(self).wf(),
        ensures
            (*final(self), r) == old(self).triggered(held),
            final(self).wf(),
            final(self).best is None,
            perform(site_bytes(old(self).patched), r) == site_bytes(final(self).patched),
            !held ==> final(self).locked is None,
    {
        let best = self.best;
        self.best = None;
        if held {
            if self.locked.is_none() {
                if let Some(b) = best {
                    self.locked = Some(b.object);
                    self.patched = true;
                    return PatchAction::Apply;
                }
            }
            PatchAction::Keep
        } else if self.locked.is_some() {
            self.locked = None;
            self.patched = false;
            PatchAction::Revert
        } else {
            PatchAction::Keep
        }
    }

    /// The locked target, which the caller checks each frame while it is held.
    pub fn target(&self) -> (r: Option<u64>)
        ensures
            r == self.locked,
    {
        self.locked
    }

    /// Takes the check of the locked target: an invalid target drops the
    /// lock and reverts the patch.
    pub fn validate(&mut self, valid: bool) -> (r: PatchAction)
        requires
            old(self).wf(),
        ensures
            (*final(self), r) == old(self).validated(valid),
            final(self).wf(),
            perform(site_bytes(old(self).patched), r) == site_bytes(final(self).patched),
            !valid ==> final(self).locked is None,
    {
        if self.locked.is_some() && !valid {
            self.locked = None;
            self.patched = false;
            PatchAction::Revert
        } else {
            PatchAction::Keep
        }
    }
}

/// One frame with the trigger held and the locked target found valid, the
/// frame's scoring having left `best`: the state after it and the number of
/// times the patch was applied.
pub open spec fn held_frame(s: AimState, best: Option<Candidate>) -> (AimState, nat) {
    let (t, a) = AimState { best, ..s }.triggered(true);
    let (u, b) = t.validated(true);
    (u, (if a is Apply { 1nat } else { 0nat }) + (if b is Apply { 1nat } else { 0nat }))
}

/// Frames with the trigger held throughout and the target valid, one per
/// entry of `bests`: the final state and the applications of the patch.
pub open spec fn held_frames(s: AimState, bests: Seq<Option<Candidate>>) -> (AimState, nat)
    decreases bests.len(),
{
    if bests.len() == 0 {
        (s, 0)
    } else {
        let (t, n) = held_frame(s, bests[0]);
        let (u, m) = held_frames(t, bests.drop_first());
        (u, n + m)
    }
}

/// Holding the trigger on a valid target applies the patch at most once,
/// whatever the frames' candidates, and never again once it is applied.
pub proof fn lemma_hold_patches_once(s: AimState, bests: Seq<Option<Candidate>>)
    requires
        s.wf(),
    ensures
        held_frames(s, bests).1 <= 1,
        s.patched ==> held_frames(s, bests).1 == 0,
        s.patched ==> held_frames(s, bests).0.locked == s.locked,
        held_frames(s, bests).0.wf(),
    decreases bests.len(),
{
    if bests.len() > 0 {
        let (t, n) = held_frame(s, bests[0]);
        lemma_hold_patches_once(t, bests.drop_first());
    }
}

/// Through any frame the patch sites hold no-ops exactly while a target is
/// locked, and the host's own instructions otherwise: performing the actions
/// of `trigger` and `validate` keeps the sites in step with the state.
pub proof fn lemma_sites_follow_lock(s: AimState, held: bool, valid: bool)
    requires
        s.wf(),
    ensures
        ({
            let (t, a) = s.triggered(held);
            let (u, b) = t.validated(valid);
            &&& perform(perform(site_bytes(s.patched), a), b) == site_bytes(u.patched)
            &&& u.wf()
            &&& (u.locked is Some) == (site_bytes(u.patched) == (nops(), nops()))
            &&& (!held || !valid) ==> u.locked is None && site_bytes(u.patched) == (
                yaw_stock(),
                pitch_stock(),
            )
        }),
{
    assert(nops() != yaw_stock()) by {
        assert(nops()[0] != yaw_stock()[0]);
    }
}

} // verus!
