use gur::actors::{
    enemy_hit_phase, enemy_step, next_combo, player_step, EnemyMove, EnemyPhase, EnemySenses, PlayerPhase,
    PlayerSenses,
};
use gur::scene::{build_map, is_solid, region_has_solid, tile_at, T_ASH, T_EMBER, T_GROUND, T_VOID, T_WALL};

fn senses(alive: bool, aggro: bool, leash: bool, reach: bool, expired: bool) -> EnemySenses {
    EnemySenses {
        player_alive: alive,
        player_in_aggro: aggro,
        player_beyond_leash: leash,
        player_in_reach: reach,
        timer_expired: expired,
    }
}

fn player(moving: bool, attack_ok: bool, dodge_ok: bool, expired: bool) -> PlayerSenses {
    PlayerSenses { moving, attack_ok, dodge_ok, timer_expired: expired }
}

#[test]
fn map_layout() {
    let map = build_map();
    // Border
    assert_eq!(tile_at(&map, 0, 0), T_WALL);
    assert_eq!(tile_at(&map, 79, 59), T_WALL);
    assert_eq!(tile_at(&map, 40, 0), T_WALL);
    assert_eq!(tile_at(&map, 0, 30), T_WALL);
    // Start clearing and pillar cluster
    assert_eq!(tile_at(&map, 3, 3), T_GROUND);
    assert_eq!(tile_at(&map, 8, 12), T_WALL);
    assert_eq!(tile_at(&map, 9, 14), T_WALL);
    assert_eq!(tile_at(&map, 10, 12), T_GROUND);
    // Ruined columns at 12, 16, 20
    assert_eq!(tile_at(&map, 12, 25), T_WALL);
    assert_eq!(tile_at(&map, 16, 27), T_WALL);
    assert_eq!(tile_at(&map, 20, 26), T_WALL);
    assert_eq!(tile_at(&map, 24, 25), T_GROUND);
    // Ember lake
    assert_eq!(tile_at(&map, 35, 28), T_EMBER);
    assert_eq!(tile_at(&map, 42, 32), T_EMBER);
    assert_eq!(tile_at(&map, 43, 32), T_GROUND);
    // Maze walls and gaps
    assert_eq!(tile_at(&map, 56, 20), T_WALL);
    assert_eq!(tile_at(&map, 60, 20), T_GROUND);
    assert_eq!(tile_at(&map, 64, 30), T_GROUND);
    assert_eq!(tile_at(&map, 58, 40), T_GROUND);
    assert_eq!(tile_at(&map, 62, 35), T_WALL);
    // Arena boundary with entrance
    assert_eq!(tile_at(&map, 75, 10), T_WALL);
    assert_eq!(tile_at(&map, 75, 29), T_GROUND);
    assert_eq!(tile_at(&map, 75, 50), T_GROUND);
    // Ash pit
    assert_eq!(tile_at(&map, 60, 50), T_ASH);
    assert_eq!(tile_at(&map, 74, 57), T_ASH);
    assert_eq!(tile_at(&map, 74, 58), T_GROUND);
}

#[test]
fn outside_the_map_reads_as_wall() {
    let map = build_map();
    assert_eq!(tile_at(&map, -1, 5), T_WALL);
    assert_eq!(tile_at(&map, 5, -1), T_WALL);
    assert_eq!(tile_at(&map, 80, 5), T_WALL);
    assert_eq!(tile_at(&map, 5, 60), T_WALL);
}

#[test]
fn solid_tiles() {
    assert!(is_solid(T_WALL));
    assert!(is_solid(T_VOID));
    assert!(is_solid(T_ASH));
    assert!(!is_solid(T_GROUND));
    assert!(!is_solid(T_EMBER));
}

#[test]
fn region_collision() {
    let map = build_map();
    assert!(!region_has_solid(&map, 2, 5, 2, 5));
    assert!(region_has_solid(&map, 6, 8, 11, 12));
    assert!(region_has_solid(&map, -1, 0, 3, 3));
    // Empty rectangles hold nothing.
    assert!(!region_has_solid(&map, 5, 4, 3, 3));
    assert!(!region_has_solid(&map, 3, 3, 5, 4));
}

#[test]
fn enemy_aggro_chase_and_strike() {
    // Patrol notices a live player in range.
    let s = enemy_step(EnemyPhase::Patrol, senses(true, true, false, false, false));
    assert_eq!(s.next, EnemyPhase::Chase);
    // Patrol ignores a dead player and turns round when its timer runs out.
    let s = enemy_step(EnemyPhase::Patrol, senses(false, true, false, false, true));
    assert_eq!(s.next, EnemyPhase::Patrol);
    assert!(s.turn_around && s.restart_timer);
    assert_eq!(s.movement, EnemyMove::Patrol);
    // Chase closes in, then winds up in reach.
    let s = enemy_step(EnemyPhase::Chase, senses(true, true, false, false, false));
    assert_eq!((s.next, s.movement), (EnemyPhase::Chase, EnemyMove::TowardPlayer));
    let s = enemy_step(EnemyPhase::Chase, senses(true, true, false, true, false));
    assert_eq!(s.next, EnemyPhase::Windup);
    assert!(s.restart_timer);
    // Chase gives up beyond the leash.
    let s = enemy_step(EnemyPhase::Chase, senses(true, false, true, true, false));
    assert_eq!(s.next, EnemyPhase::Patrol);
    assert!(s.reset_patrol);
    // Windup → Striking → Recovery → Chase, each on its timer.
    assert_eq!(enemy_step(EnemyPhase::Windup, senses(true, true, false, true, false)).next, EnemyPhase::Windup);
    assert_eq!(enemy_step(EnemyPhase::Windup, senses(true, true, false, true, true)).next, EnemyPhase::Striking);
    assert_eq!(enemy_step(EnemyPhase::Striking, senses(true, true, false, true, true)).next, EnemyPhase::Recovery);
    assert_eq!(enemy_step(EnemyPhase::Recovery, senses(true, true, false, true, true)).next, EnemyPhase::Chase);
    assert_eq!(enemy_step(EnemyPhase::Stunned, senses(true, true, false, true, true)).next, EnemyPhase::Chase);
    // The dead stay dead.
    assert_eq!(enemy_step(EnemyPhase::Dead, senses(true, true, false, true, true)).next, EnemyPhase::Dead);
    assert_eq!(enemy_hit_phase(true), EnemyPhase::Dead);
    assert_eq!(enemy_hit_phase(false), EnemyPhase::Stunned);
}

#[test]
fn player_swing_dodge_and_walk() {
    let s = player_step(PlayerPhase::Idle, player(true, false, false, false));
    assert_eq!(s.next, PlayerPhase::Walking);
    let s = player_step(PlayerPhase::Walking, player(false, false, false, false));
    assert_eq!(s.next, PlayerPhase::Idle);
    let s = player_step(PlayerPhase::Idle, player(false, true, false, false));
    assert_eq!(s.next, PlayerPhase::Attacking(0));
    assert!(s.start_attack && s.restart_timer && !s.deal_hit);
    // Dodge wins over an attack pressed in the same frame.
    let s = player_step(PlayerPhase::Walking, player(true, true, true, false));
    assert_eq!(s.next, PlayerPhase::Dodging);
    assert!(s.start_dodge);
    // The swing's phases.
    let s = player_step(PlayerPhase::Attacking(0), player(false, false, false, false));
    assert_eq!(s.next, PlayerPhase::Attacking(0));
    let s = player_step(PlayerPhase::Attacking(0), player(false, false, false, true));
    assert_eq!(s.next, PlayerPhase::Attacking(1));
    assert!(s.deal_hit);
    let s = player_step(PlayerPhase::Attacking(1), player(false, false, false, true));
    assert_eq!(s.next, PlayerPhase::Attacking(2));
    assert!(!s.deal_hit);
    let s = player_step(PlayerPhase::Attacking(2), player(false, false, false, true));
    assert_eq!(s.next, PlayerPhase::Idle);
    assert!(s.advance_combo);
    assert_eq!(player_step(PlayerPhase::Dodging, player(true, true, true, true)).next, PlayerPhase::Idle);
    assert_eq!(player_step(PlayerPhase::Dead, player(true, true, true, true)).next, PlayerPhase::Dead);
}

#[test]
fn combo_cycles() {
    assert_eq!(next_combo(0), 1);
    assert_eq!(next_combo(1), 2);
    assert_eq!(next_combo(2), 0);
}

#[test]
fn void_and_ground_constants() {
    assert_eq!((T_VOID, T_GROUND, T_WALL, T_EMBER, T_ASH), (0, 1, 2, 3, 4));
}

use gur::platform::{Controls, GameKey, KeyEffect};
use gur::scene::{tile_style, visible_tiles, TileOverlay};

#[test]
fn keys_drive_the_frame_input() {
    let mut c = Controls::new();
    assert_eq!(c.key_event(GameKey::KeyW, true), KeyEffect::Continue);
    assert_eq!(c.key_event(GameKey::ArrowRight, true), KeyEffect::Continue);
    // A tap of Z between frames still attacks once.
    c.key_event(GameKey::KeyZ, true);
    c.key_event(GameKey::KeyZ, false);
    let i = c.take_frame_input();
    assert!(i.up && i.right && !i.down && !i.left);
    assert!(i.attack && !i.dodge);
    let i = c.take_frame_input();
    assert!(i.up && !i.attack);
    c.key_event(GameKey::KeyK, true);
    c.key_event(GameKey::KeyW, false);
    let i = c.take_frame_input();
    assert!(!i.up && i.right && i.dodge);
    // Releasing the attack key alone does not attack.
    c.key_event(GameKey::KeyJ, false);
    assert!(!c.take_frame_input().attack);
}

#[test]
fn quit_and_respawn_keys() {
    let mut c = Controls::new();
    assert_eq!(c.key_event(GameKey::Escape, true), KeyEffect::Quit);
    assert_eq!(c.key_event(GameKey::Escape, false), KeyEffect::Quit);
    assert_eq!(c.key_event(GameKey::KeyR, true), KeyEffect::Respawn);
    assert_eq!(c.key_event(GameKey::KeyR, false), KeyEffect::Continue);
    assert_eq!(c.key_event(GameKey::Other, true), KeyEffect::Continue);
}

#[test]
fn visible_tiles_are_culled_to_the_map() {
    let map = build_map();
    // A 3×2 view hanging over the top-left corner: only (0,0), (1,0), (0,1), (1,1) exist.
    let v = visible_tiles(&map, -1, 1, -1, 1);
    let coords: Vec<(i32, i32, u8)> = v.iter().map(|t| (t.tx, t.ty, t.tile)).collect();
    assert_eq!(coords, vec![(0, 0, T_WALL), (1, 0, T_WALL), (0, 1, T_WALL), (1, 1, T_GROUND)]);
    // The whole map: every tile (none is void).
    assert_eq!(visible_tiles(&map, 0, 79, 0, 59).len(), 4800);
    assert_eq!(visible_tiles(&map, -20, 100, -20, 100).len(), 4800);
    // Empty ranges show nothing.
    assert!(visible_tiles(&map, 5, 4, 0, 10).is_empty());
    assert!(visible_tiles(&map, 0, 10, 5, 4).is_empty());
    assert!(visible_tiles(&map, 80, 90, 0, 10).is_empty());
}

#[test]
fn tile_styles() {
    let g = tile_style(T_GROUND);
    assert_eq!((g.r, g.g, g.b, g.overlay), (72, 54, 36, TileOverlay::InnerLight));
    let w = tile_style(T_WALL);
    assert_eq!((w.r, w.g, w.b, w.overlay), (42, 36, 52, TileOverlay::WallShadow));
    let e = tile_style(T_EMBER);
    assert_eq!((e.r, e.g, e.b, e.overlay), (90, 44, 18, TileOverlay::EmberGlow));
    let a = tile_style(T_ASH);
    assert_eq!((a.r, a.g, a.b, a.overlay), (15, 10, 18, TileOverlay::AshShade));
    let o = tile_style(9);
    assert_eq!((o.r, o.g, o.b, o.overlay), (20, 20, 30, TileOverlay::Plain));
}
