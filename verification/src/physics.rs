//! Hitboxes and hurtboxes — the combat layer of the physics world — and the
//! i-frame marker.

use vstd::prelude::*;

verus! {

/// What role a hitbox plays in combat.
#[derive(Debug, Clone, Copy, PartialEq, Eq, Structural)]
pub enum HitboxKind {
    /// An attack hitbox — this entity is dealing damage.
    Attack,
    /// A hurtbox — this entity can receive damage.
    Hurt,
    /// A pushbox — prevents entity overlap.
    Push,
}

/// How many fixed steps a standard attack hitbox stays active.
pub const ATTACK_ACTIVE_FRAMES: u32 = 6;

/// Hitbox component. `S` is the collider shape and `V` the 2D vector type;
/// the hitbox never looks inside them.
#[derive(Debug)]
pub struct Hitbox<S, V> {
    pub kind: HitboxKind,
    pub shape: S,
    /// Offset from the owner's position.
    pub offset: V,
    /// The entity this hitbox belongs to.
    pub owner: hecs::Entity,
    pub damage: u32,
    pub knockback: V,
    pub poise_damage: u32,
    /// Lifetime in fixed steps; 0 for a permanent box.
    pub active_frames: u32,
    pub frames_remaining: u32,
}

impl<S, V: Copy> Hitbox<S, V> {
    /// A standard attack hitbox: active for [`ATTACK_ACTIVE_FRAMES`] steps,
    /// breaking half its damage (rounded down) of poise, with no offset or
    /// knockback (`zero`).
    pub fn attack(owner: hecs::Entity, shape: S, zero: V, damage: u32) -> (h: Self)
        ensures
            h.kind == HitboxKind::Attack,
            h.shape == shape,
            h.offset == zero,
            h.owner == owner,
            h.damage == damage,
            h.knockback == zero,
            h.poise_damage == damage / 2,
            h.active_frames == ATTACK_ACTIVE_FRAMES,
            h.frames_remaining == ATTACK_ACTIVE_FRAMES,
    {
        Hitbox {
            kind: HitboxKind::Attack,
            shape,
            offset: zero,
            owner,
            damage,
            knockback: zero,
            poise_damage: damage / 2,
            active_frames: ATTACK_ACTIVE_FRAMES,
            frames_remaining: ATTACK_ACTIVE_FRAMES,
        }
    }

    /// A standard, permanent hurtbox (receives damage, deals none).
    pub fn hurtbox(owner: hecs::Entity, shape: S, zero: V) -> (h: Self)
        ensures
            h.kind == HitboxKind::Hurt,
            h.shape == shape,
            h.offset == zero,
            h.owner == owner,
            h.damage == 0,
            h.knockback == zero,
            h.poise_damage == 0,
            h.active_frames == 0,
            h.frames_remaining == 0,
    {
        Hitbox {
            kind: HitboxKind::Hurt,
            shape,
            offset: zero,
            owner,
            damage: 0,
            knockback: zero,
            poise_damage: 0,
            active_frames: 0,
            frames_remaining: 0,
        }
    }
}

impl<S, V> Hitbox<S, V> {
    /// `true` if this hitbox has run out and should be despawned: it is
    /// timed and no steps remain.
    pub fn should_despawn(&self) -> (b: bool)
        ensures
            b == (self.active_frames > 0 && self.frames_remaining == 0),
    {
        self.active_frames > 0 && self.frames_remaining == 0
    }

    /// Count down one step of a timed hitbox; `true` if it has now expired.
    /// A permanent box is left as it is.
    pub fn tick(&mut self) -> (expired: bool)
        ensures
            final(self).frames_remaining == remaining_after_tick(old(self).active_frames, old(self).frames_remaining),
            expired == (old(self).active_frames > 0 && final(self).frames_remaining == 0),
            final(self).active_frames == old(self).active_frames,
            final(self).kind == old(self).kind,
            final(self).damage == old(self).damage,
            final(self).poise_damage == old(self).poise_damage,
            final(self).owner == old(self).owner,
    {
        if self.active_frames > 0 {
            self.frames_remaining = self.frames_remaining.saturating_sub(1);
            self.frames_remaining == 0
        } else {
            false
        }
    }
}

/// The steps a hitbox has left after one tick.
pub open spec fn remaining_after_tick(active_frames: u32, remaining: u32) -> u32 {
    if active_frames > 0 && remaining > 0 { (remaining - 1) as u32 } else { remaining }
}

/// The steps a hitbox has left after `n` ticks.
pub open spec fn remaining_after(active_frames: u32, remaining: u32, n: nat) -> u32
    decreases n,
{
    if n == 0 { remaining } else { remaining_after_tick(active_frames, remaining_after(active_frames, remaining, (n - 1) as nat)) }
}

/// A timed hitbox with `remaining` steps left counts down one per tick:
/// it is still live after fewer ticks, and due for despawning after exactly
/// that many.
pub proof fn lemma_hitbox_expires_after_its_frames(active_frames: u32, remaining: u32, n: nat)
    requires
        active_frames > 0,
        n <= remaining,
    ensures
        remaining_after(active_frames, remaining, n) == remaining - n,
        remaining_after(active_frames, remaining, n) == 0 <==> n == remaining,
    decreases n,
{
    if n > 0 {
        lemma_hitbox_expires_after_its_frames(active_frames, remaining, (n - 1) as nat);
    }
}

/// A permanent box (no active frames) never counts down, and a timed box
/// that has run out stays at zero.
pub proof fn lemma_permanent_and_spent_boxes_stay(active_frames: u32, remaining: u32)
    ensures
        active_frames == 0 ==> remaining_after_tick(active_frames, remaining) == remaining,
        remaining == 0 ==> remaining_after_tick(active_frames, remaining) == 0,
        active_frames > 0 && remaining > 0 ==> remaining_after_tick(active_frames, remaining) == remaining - 1,
{
}

/// Marker component — disables the hurtbox (i-frames during a dodge).
#[derive(Debug, Clone, Copy, Default)]
pub struct HurtboxDisabled;

} // verus!
