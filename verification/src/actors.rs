//! The decisions of the Ashlands' actors, one frame at a time: the player's
//! and the enemies' state machines. Timers, distances and stamina are
//! measured by the caller and handed in as the facts the machines react to;
//! the caller also applies the physical effects (movement, timers, damage).

use vstd::prelude::*;

verus! {

// ─── Enemy ──────────────────────────────────────────────────────────────────

/// The behaviour an enemy is in.
#[derive(Debug, Clone, Copy, PartialEq, Eq, Structural)]
pub enum EnemyPhase {
    /// Walking back and forth around its home.
    Patrol,
    /// Running at the player.
    Chase,
    /// Telegraphing a strike.
    Windup,
    /// The strike itself (can hurt the player).
    Striking,
    /// Vulnerable after a strike.
    Recovery,
    /// Reeling from a hit.
    Stunned,
    /// Defeated.
    Dead,
}

/// What an enemy perceives this frame.
#[derive(Debug, Clone, Copy)]
pub struct EnemySenses {
    /// The player is alive.
    pub player_alive: bool,
    /// The player is within aggro range.
    pub player_in_aggro: bool,
    /// The player is farther than the leash (1.5 × aggro range).
    pub player_beyond_leash: bool,
    /// The player is within striking range.
    pub player_in_reach: bool,
    /// The current phase's timer has run out.
    pub timer_expired: bool,
}

/// How an enemy moves this frame.
#[derive(Debug, Clone, Copy, PartialEq, Eq, Structural)]
pub enum EnemyMove {
    Stay,
    /// Along its patrol direction.
    Patrol,
    /// Toward the player.
    TowardPlayer,
}

/// An enemy's decision for one frame.
#[derive(Debug, Clone, Copy)]
pub struct EnemyStep {
    /// The phase after this frame.
    pub next: EnemyPhase,
    /// The next phase starts with a fresh timer.
    pub restart_timer: bool,
    /// Patrol direction flips.
    pub turn_around: bool,
    /// Patrol restarts in the default direction.
    pub reset_patrol: bool,
    /// How it moves.
    pub movement: EnemyMove,
}

/// The phase an enemy is in after this frame: a patrol turns into a chase
/// when a live player comes within aggro range; a chase gives up when the
/// player dies or outruns the leash, and winds up a strike once the player is
/// in reach; wind-up, strike, recovery and stun each last until their timer
/// runs out (wind-up → strike → recovery → chase, stun → chase); defeat is
/// final.
pub open spec fn enemy_next_phase(phase: EnemyPhase, s: EnemySenses) -> EnemyPhase {
    match phase {
        EnemyPhase::Patrol => if s.player_alive && s.player_in_aggro { EnemyPhase::Chase } else { phase },
        EnemyPhase::Chase => if !s.player_alive || s.player_beyond_leash {
            EnemyPhase::Patrol
        } else if s.player_in_reach {
            EnemyPhase::Windup
        } else {
            phase
        },
        EnemyPhase::Windup => if s.timer_expired { EnemyPhase::Striking } else { phase },
        EnemyPhase::Striking => if s.timer_expired { EnemyPhase::Recovery } else { phase },
        EnemyPhase::Recovery | EnemyPhase::Stunned => if s.timer_expired { EnemyPhase::Chase } else { phase },
        EnemyPhase::Dead => phase,
    }
}

/// An enemy's decision: it moves to [`enemy_next_phase`]; every change of
/// phase restarts the timer except one into a chase; a patrol turns around
/// (and restarts its timer) each time the timer runs out; giving up a chase
/// resets the patrol; it walks its patrol while patrolling, runs at the
/// player while chasing, and stands still otherwise.
pub open spec fn enemy_decision(phase: EnemyPhase, s: EnemySenses) -> EnemyStep {
    let next = enemy_next_phase(phase, s);
    let patrolling = phase == EnemyPhase::Patrol && next == EnemyPhase::Patrol;
    EnemyStep {
        next,
        restart_timer: (patrolling && s.timer_expired) || (next != phase && next != EnemyPhase::Chase),
        turn_around: patrolling && s.timer_expired,
        reset_patrol: phase == EnemyPhase::Chase && next == EnemyPhase::Patrol,
        movement: if patrolling {
            EnemyMove::Patrol
        } else if phase == EnemyPhase::Chase && next == EnemyPhase::Chase {
            EnemyMove::TowardPlayer
        } else {
            EnemyMove::Stay
        },
    }
}

/// Decide an enemy's next frame.
pub fn enemy_step(phase: EnemyPhase, s: EnemySenses) -> (r: EnemyStep)
    ensures
        r == enemy_decision(phase, s),
{
    let stay = EnemyStep { next: phase, restart_timer: false, turn_around: false, reset_patrol: false, movement: EnemyMove::Stay };
    match phase {
        EnemyPhase::Patrol => if s.player_alive && s.player_in_aggro {
            EnemyStep { next: EnemyPhase::Chase, ..stay }
        } else {
            EnemyStep { restart_timer: s.timer_expired, turn_around: s.timer_expired, movement: EnemyMove::Patrol, ..stay }
        },
        EnemyPhase::Chase => if !s.player_alive || s.player_beyond_leash {
            EnemyStep { next: EnemyPhase::Patrol, restart_timer: true, reset_patrol: true, ..stay }
        } else if s.player_in_reach {
            EnemyStep { next: EnemyPhase::Windup, restart_timer: true, ..stay }
        } else {
            EnemyStep { movement: EnemyMove::TowardPlayer, ..stay }
        },
        EnemyPhase::Windup => if s.timer_expired { EnemyStep { next: EnemyPhase::Striking, restart_timer: true, ..stay } } else { stay },
        EnemyPhase::Striking => if s.timer_expired { EnemyStep { next: EnemyPhase::Recovery, restart_timer: true, ..stay } } else { stay },
        EnemyPhase::Recovery => if s.timer_expired { EnemyStep { next: EnemyPhase::Chase, ..stay } } else { stay },
        EnemyPhase::Stunned => if s.timer_expired { EnemyStep { next: EnemyPhase::Chase, ..stay } } else { stay },
        EnemyPhase::Dead => stay,
    }
}

/// The phase an enemy enters when hit: defeated if its health is gone,
/// otherwise stunned (with a fresh timer).
pub fn enemy_hit_phase(health_gone: bool) -> (p: EnemyPhase)
    ensures
        p == (if health_gone { EnemyPhase::Dead } else { EnemyPhase::Stunned }),
{
    if health_gone { EnemyPhase::Dead } else { EnemyPhase::Stunned }
}

/// Defeat is final, a strike is always telegraphed, a wind-up only starts
/// with the player alive and in reach, and no timed phase outlasts its
/// timer.
pub proof fn lemma_enemy_behaviour(phase: EnemyPhase, s: EnemySenses)
    ensures
        phase == EnemyPhase::Dead ==> enemy_decision(phase, s).next == EnemyPhase::Dead,
        phase != EnemyPhase::Dead ==> enemy_decision(phase, s).next != EnemyPhase::Dead,
        enemy_decision(phase, s).next == EnemyPhase::Striking ==> (phase == EnemyPhase::Windup || phase == EnemyPhase::Striking),
        (enemy_decision(phase, s).next == EnemyPhase::Windup && phase != EnemyPhase::Windup)
            ==> (phase == EnemyPhase::Chase && s.player_alive && s.player_in_reach),
        (s.timer_expired && (phase == EnemyPhase::Windup || phase == EnemyPhase::Striking
            || phase == EnemyPhase::Recovery || phase == EnemyPhase::Stunned))
            ==> enemy_decision(phase, s).next != phase,
        enemy_decision(phase, s).movement == EnemyMove::TowardPlayer ==> phase == EnemyPhase::Chase && s.player_alive,
{
}

/// A timed phase (wind-up, strike, recovery, stun) lasts exactly until its
/// timer runs out: before that the enemy stays in it, still and with its
/// timer running; then a wind-up becomes a strike, a strike becomes a
/// recovery (both with a fresh timer), and a recovery or a stun returns to
/// the chase. Nothing the enemy sees of the player changes this.
pub proof fn lemma_enemy_timed_phases(phase: EnemyPhase, s: EnemySenses)
    requires
        phase == EnemyPhase::Windup || phase == EnemyPhase::Striking || phase == EnemyPhase::Recovery
            || phase == EnemyPhase::Stunned,
    ensures
        !s.timer_expired ==> enemy_step_is(enemy_decision(phase, s), phase, false, false, false, EnemyMove::Stay),
        s.timer_expired && phase == EnemyPhase::Windup
            ==> enemy_step_is(enemy_decision(phase, s), EnemyPhase::Striking, true, false, false, EnemyMove::Stay),
        s.timer_expired && phase == EnemyPhase::Striking
            ==> enemy_step_is(enemy_decision(phase, s), EnemyPhase::Recovery, true, false, false, EnemyMove::Stay),
        s.timer_expired && phase == EnemyPhase::Recovery
            ==> enemy_step_is(enemy_decision(phase, s), EnemyPhase::Chase, false, false, false, EnemyMove::Stay),
        s.timer_expired && phase == EnemyPhase::Stunned
            ==> enemy_step_is(enemy_decision(phase, s), EnemyPhase::Chase, false, false, false, EnemyMove::Stay),
{
}

/// A patrolling enemy starts chasing a live player within aggro range,
/// standing still that frame; otherwise it walks its patrol, and each time
/// its timer runs out it turns around with a fresh timer.
pub proof fn lemma_enemy_patrol(s: EnemySenses)
    ensures
        s.player_alive && s.player_in_aggro
            ==> enemy_step_is(enemy_decision(EnemyPhase::Patrol, s), EnemyPhase::Chase, false, false, false, EnemyMove::Stay),
        !(s.player_alive && s.player_in_aggro)
            ==> enemy_step_is(enemy_decision(EnemyPhase::Patrol, s), EnemyPhase::Patrol, s.timer_expired,
                s.timer_expired, false, EnemyMove::Patrol),
{
}

/// A chasing enemy gives up (back to a fresh patrol) when the player is dead
/// or beyond the leash; otherwise it winds up a strike, with a fresh timer,
/// once the player is in reach; otherwise it runs at the player.
pub proof fn lemma_enemy_chase(s: EnemySenses)
    ensures
        (!s.player_alive || s.player_beyond_leash)
            ==> enemy_step_is(enemy_decision(EnemyPhase::Chase, s), EnemyPhase::Patrol, true, false, true, EnemyMove::Stay),
        (s.player_alive && !s.player_beyond_leash && s.player_in_reach)
            ==> enemy_step_is(enemy_decision(EnemyPhase::Chase, s), EnemyPhase::Windup, true, false, false, EnemyMove::Stay),
        (s.player_alive && !s.player_beyond_leash && !s.player_in_reach)
            ==> enemy_step_is(enemy_decision(EnemyPhase::Chase, s), EnemyPhase::Chase, false, false, false,
                EnemyMove::TowardPlayer),
{
}

/// A defeated enemy does nothing, whatever it sees.
pub proof fn lemma_enemy_defeat_is_final(s: EnemySenses)
    ensures
        enemy_step_is(enemy_decision(EnemyPhase::Dead, s), EnemyPhase::Dead, false, false, false, EnemyMove::Stay),
{
}

/// `true` if step `st` moves to `next` with the given timer restart, turn,
/// patrol reset and movement.
pub open spec fn enemy_step_is(st: EnemyStep, next: EnemyPhase, restart: bool, turn: bool, reset: bool, movement: EnemyMove) -> bool {
    st.next == next && st.restart_timer == restart && st.turn_around == turn && st.reset_patrol == reset
        && st.movement == movement
}

// ─── Player ─────────────────────────────────────────────────────────────────

/// What the player is doing.
#[derive(Debug, Clone, Copy, PartialEq, Eq, Structural)]
pub enum PlayerPhase {
    Idle,
    Walking,
    /// A three-part swing: 0 = wind-up, 1 = active (the hit lands when it
    /// starts), 2 = follow-through.
    Attacking(u8),
    Dodging,
    Dead,
}

/// The player's situation this frame.
#[derive(Debug, Clone, Copy)]
pub struct PlayerSenses {
    /// A movement direction is held.
    pub moving: bool,
    /// Attack was pressed and the stamina covers it.
    pub attack_ok: bool,
    /// Dodge was pressed and the stamina covers it (after any attack cost
    /// of this frame).
    pub dodge_ok: bool,
    /// The current phase's timer has run out.
    pub timer_expired: bool,
}

/// The player's decision for one frame.
#[derive(Debug, Clone, Copy)]
pub struct PlayerStep {
    /// The phase after this frame.
    pub next: PlayerPhase,
    /// The next phase starts with a fresh timer.
    pub restart_timer: bool,
    /// An attack starts: its stamina is spent.
    pub start_attack: bool,
    /// A dodge starts: its stamina is spent and i-frames begin.
    pub start_dodge: bool,
    /// The swing's hit lands this frame.
    pub deal_hit: bool,
    /// The swing ended: the combo counter advances.
    pub advance_combo: bool,
}

/// The phase the player is in after this frame: when free (idle or
/// walking) a dodge wins over an attack, and an attack over walking; a swing
/// goes through its three parts, each lasting until the timer runs out, and
/// then ends in idle; a dodge ends in idle when its timer runs out; death is
/// final.
pub open spec fn player_next_phase(phase: PlayerPhase, s: PlayerSenses) -> PlayerPhase {
    match phase {
        PlayerPhase::Idle | PlayerPhase::Walking => if s.dodge_ok {
            PlayerPhase::Dodging
        } else if s.attack_ok {
            PlayerPhase::Attacking(0)
        } else if s.moving {
            PlayerPhase::Walking
        } else {
            PlayerPhase::Idle
        },
        PlayerPhase::Attacking(p) => if !s.timer_expired {
            phase
        } else if p < 2 {
            PlayerPhase::Attacking((p + 1) as u8)
        } else {
            PlayerPhase::Idle
        },
        PlayerPhase::Dodging => if s.timer_expired { PlayerPhase::Idle } else { phase },
        PlayerPhase::Dead => phase,
    }
}

/// The player's decision: it moves to [`player_next_phase`]; entering a
/// swing part or a dodge restarts the timer; a free player spends stamina on
/// each of attack and dodge that is allowed, even where the dodge wins; the
/// hit lands as the swing's active part begins; the combo advances as the
/// swing ends.
pub open spec fn player_decision(phase: PlayerPhase, s: PlayerSenses) -> PlayerStep {
    let next = player_next_phase(phase, s);
    let free = phase == PlayerPhase::Idle || phase == PlayerPhase::Walking;
    PlayerStep {
        next,
        restart_timer: next != phase && (next is Attacking || next == PlayerPhase::Dodging),
        start_attack: free && s.attack_ok,
        start_dodge: free && s.dodge_ok,
        deal_hit: phase == PlayerPhase::Attacking(0) && next == PlayerPhase::Attacking(1),
        advance_combo: phase is Attacking && next == PlayerPhase::Idle,
    }
}

/// Decide the player's next frame.
pub fn player_step(phase: PlayerPhase, s: PlayerSenses) -> (r: PlayerStep)
    ensures
        r == player_decision(phase, s),
{
    let stay = PlayerStep { next: phase, restart_timer: false, start_attack: false, start_dodge: false, deal_hit: false, advance_combo: false };
    match phase {
        PlayerPhase::Idle | PlayerPhase::Walking => {
            let base = if s.moving { PlayerPhase::Walking } else { PlayerPhase::Idle };
            let after_attack = if s.attack_ok { PlayerPhase::Attacking(0) } else { base };
            PlayerStep {
                next: if s.dodge_ok { PlayerPhase::Dodging } else { after_attack },
                restart_timer: s.attack_ok || s.dodge_ok,
                start_attack: s.attack_ok,
                start_dodge: s.dodge_ok,
                ..stay
            }
        },
        PlayerPhase::Attacking(p) => if !s.timer_expired {
            stay
        } else if p == 0 {
            PlayerStep { next: PlayerPhase::Attacking(1), restart_timer: true, deal_hit: true, ..stay }
        } else if p == 1 {
            PlayerStep { next: PlayerPhase::Attacking(2), restart_timer: true, ..stay }
        } else {
            PlayerStep { next: PlayerPhase::Idle, advance_combo: true, ..stay }
        },
        PlayerPhase::Dodging => if s.timer_expired { PlayerStep { next: PlayerPhase::Idle, ..stay } } else { stay },
        PlayerPhase::Dead => stay,
    }
}

/// The combo counter after a finished swing, `(combo + 1) mod 3`: 0 → 1 → 2 → 0.
pub fn next_combo(combo: u8) -> (c: u8)
    requires
        combo < u8::MAX,
    ensures
        c == (combo + 1) % 3,
        c < 3,
{
    (combo + 1) % 3
}

/// A swing deals its hit exactly once, when it leaves the wind-up; it only
/// begins from idle or walking with the stamina for it; death is final.
pub proof fn lemma_player_behaviour(phase: PlayerPhase, s: PlayerSenses)
    ensures
        player_decision(phase, s).deal_hit <==> (phase == PlayerPhase::Attacking(0) && s.timer_expired),
        player_decision(phase, s).start_attack ==> (s.attack_ok && (phase == PlayerPhase::Idle || phase == PlayerPhase::Walking)),
        player_decision(phase, s).start_dodge ==> (s.dodge_ok && (phase == PlayerPhase::Idle || phase == PlayerPhase::Walking)),
        phase == PlayerPhase::Dead ==> player_decision(phase, s).next == PlayerPhase::Dead,
        phase != PlayerPhase::Dead ==> player_decision(phase, s).next != PlayerPhase::Dead,
        player_decision(phase, s).advance_combo ==> player_decision(phase, s).next == PlayerPhase::Idle,
{
}

/// `true` if step `st` moves to `next` with the given timer restart,
/// attack start, dodge start, hit and combo advance.
pub open spec fn player_step_is(st: PlayerStep, next: PlayerPhase, restart: bool, attack: bool, dodge: bool, hit: bool, combo: bool) -> bool {
    st.next == next && st.restart_timer == restart && st.start_attack == attack && st.start_dodge == dodge
        && st.deal_hit == hit && st.advance_combo == combo
}

/// A free player (idle or walking) dodges when the dodge is allowed, else
/// starts a swing when the attack is allowed, else walks while a direction is
/// held and stands otherwise; each allowed action spends its stamina and
/// restarts the timer.
pub proof fn lemma_player_free(phase: PlayerPhase, s: PlayerSenses)
    requires
        phase == PlayerPhase::Idle || phase == PlayerPhase::Walking,
    ensures
        player_decision(phase, s).start_attack == s.attack_ok,
        player_decision(phase, s).start_dodge == s.dodge_ok,
        player_decision(phase, s).restart_timer == (s.attack_ok || s.dodge_ok),
        !player_decision(phase, s).deal_hit,
        !player_decision(phase, s).advance_combo,
        s.dodge_ok ==> player_decision(phase, s).next == PlayerPhase::Dodging,
        !s.dodge_ok && s.attack_ok ==> player_decision(phase, s).next == PlayerPhase::Attacking(0),
        !s.dodge_ok && !s.attack_ok && s.moving ==> player_decision(phase, s).next == PlayerPhase::Walking,
        !s.dodge_ok && !s.attack_ok && !s.moving ==> player_decision(phase, s).next == PlayerPhase::Idle,
{
}

/// A swing part and a dodge last exactly until their timer runs out: before
/// that the player stays in them and nothing else happens. Then a dodge ends
/// in idle; a wind-up becomes the active part and lands the hit, the active
/// part becomes the follow-through (both with a fresh timer), and the
/// follow-through ends in idle and advances the combo.
pub proof fn lemma_player_timed_phases(phase: PlayerPhase, s: PlayerSenses)
    requires
        phase is Attacking || phase == PlayerPhase::Dodging,
    ensures
        !s.timer_expired ==> player_step_is(player_decision(phase, s), phase, false, false, false, false, false),
        s.timer_expired && phase == PlayerPhase::Dodging
            ==> player_step_is(player_decision(phase, s), PlayerPhase::Idle, false, false, false, false, false),
        s.timer_expired && phase == PlayerPhase::Attacking(0)
            ==> player_step_is(player_decision(phase, s), PlayerPhase::Attacking(1), true, false, false, true, false),
        s.timer_expired && phase == PlayerPhase::Attacking(1)
            ==> player_step_is(player_decision(phase, s), PlayerPhase::Attacking(2), true, false, false, false, false),
        s.timer_expired && (phase matches PlayerPhase::Attacking(p) && p >= 2)
            ==> player_step_is(player_decision(phase, s), PlayerPhase::Idle, false, false, false, false, true),
{
}

/// A dead player stays dead and does nothing, whatever is pressed.
pub proof fn lemma_player_death_is_final(s: PlayerSenses)
    ensures
        player_step_is(player_decision(PlayerPhase::Dead, s), PlayerPhase::Dead, false, false, false, false, false),
{
}

/// With every timer running out, a swing runs wind-up → active → follow-
/// through → idle, dealing one hit on the way.
pub proof fn lemma_swing_completes(s: PlayerSenses)
    requires
        s.timer_expired,
    ensures
        player_decision(PlayerPhase::Attacking(0), s).next == PlayerPhase::Attacking(1),
        player_decision(PlayerPhase::Attacking(1), s).next == PlayerPhase::Attacking(2),
        player_decision(PlayerPhase::Attacking(2), s).next == PlayerPhase::Idle,
        player_decision(PlayerPhase::Attacking(0), s).deal_hit,
        !player_decision(PlayerPhase::Attacking(1), s).deal_hit,
        !player_decision(PlayerPhase::Attacking(2), s).deal_hit,
{
}

} // verus!
