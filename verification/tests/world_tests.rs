use gur::physics::{Hitbox, HitboxKind, ATTACK_ACTIVE_FRAMES};
use gur::world::{SpatialGrid, ZoneRegistry};

fn entities(n: usize) -> Vec<hecs::Entity> {
    let mut world = hecs::World::new();
    (0..n).map(|i| world.spawn((i as u32,))).collect()
}

#[test]
fn zone_registry_lookup_and_active() {
    let mut zones: ZoneRegistry<&str> = ZoneRegistry::new();
    assert!(zones.active_zone().is_none());
    zones
        .register("ashlands".to_string(), "The Ashlands")
        .register("crystalveil".to_string(), "Crystalveil");
    assert_eq!(zones.get("ashlands"), Some(&"The Ashlands"));
    assert!(zones.get("nowhere").is_none());
    // An active id that is not registered gives no zone.
    zones.set_active("nowhere".to_string());
    assert!(zones.active_zone().is_none());
    zones.set_active("ashlands".to_string());
    assert_eq!(zones.active_zone(), Some(&"The Ashlands"));
    zones.register("ashlands".to_string(), "Ashlands (burnt)");
    assert_eq!(zones.active_zone(), Some(&"Ashlands (burnt)"));
    let mut ids = zones.zone_ids();
    ids.sort();
    assert_eq!(ids, vec!["ashlands", "crystalveil"]);
}

#[test]
fn spatial_grid_queries_neighbouring_cells() {
    let e = entities(5);
    let mut grid = SpatialGrid::new();
    grid.insert((0, 0), e[0]);
    grid.insert((1, 0), e[1]);
    grid.insert((0, 0), e[2]);
    grid.insert((3, 3), e[3]);
    grid.insert((-1, 1), e[4]);
    assert_eq!(grid.cell((0, 0)), vec![e[0], e[2]]);
    assert!(grid.cell((7, 7)).is_empty());
    // Radius 0: the centre cell only.
    assert_eq!(grid.query_cells((0, 0), 0), vec![e[0], e[2]]);
    // Radius 1: columns -1, 0, 1, each top to bottom.
    assert_eq!(grid.query_cells((0, 0), 1), vec![e[4], e[0], e[2], e[1]]);
    assert_eq!(grid.query_cells((2, 2), 1), vec![e[3]]);
    assert!(grid.query_cells((0, 0), -1).is_empty());
    grid.clear();
    assert!(grid.query_cells((0, 0), 5).is_empty());
}

#[test]
fn attack_hitbox_lives_six_steps() {
    let e = entities(1);
    let mut h: Hitbox<(u32, u32), (i32, i32)> = Hitbox::attack(e[0], (4, 4), (0, 0), 25);
    assert_eq!(h.kind, HitboxKind::Attack);
    assert_eq!(h.poise_damage, 12);
    assert_eq!(h.active_frames, ATTACK_ACTIVE_FRAMES);
    for _ in 0..5 {
        assert!(!h.tick());
        assert!(!h.should_despawn());
    }
    assert!(h.tick());
    assert!(h.should_despawn());
    // Further ticks stay at zero.
    assert!(h.tick());
    assert_eq!(h.frames_remaining, 0);
}

#[test]
fn hurtbox_never_expires() {
    let e = entities(1);
    let mut h: Hitbox<(u32, u32), (i32, i32)> = Hitbox::hurtbox(e[0], (3, 4), (0, 0));
    assert_eq!(h.kind, HitboxKind::Hurt);
    assert_eq!(h.damage, 0);
    assert!(!h.tick());
    assert!(!h.should_despawn());
    assert_eq!(h.frames_remaining, 0);
}

use gur::combat::{ModifierStack, StatModifier};

fn tags(stack: &ModifierStack<i32>) -> Vec<(String, Option<u32>)> {
    stack.modifiers().iter().map(|m| (m.tag.clone(), m.duration)).collect()
}

#[test]
fn modifiers_expire_after_their_steps() {
    let mut stack: ModifierStack<i32> = ModifierStack::new();
    stack.push(StatModifier::permanent("ring".to_string(), 5));
    stack.push(StatModifier::timed("frost_slow".to_string(), -2, 2));
    stack.push(StatModifier::timed("flash".to_string(), 1, 1));
    stack.tick();
    assert_eq!(tags(&stack), vec![("ring".to_string(), None), ("frost_slow".to_string(), Some(1))]);
    stack.tick();
    assert_eq!(tags(&stack), vec![("ring".to_string(), None)]);
    for _ in 0..10 {
        stack.tick();
    }
    assert_eq!(stack.modifiers().len(), 1);
    assert_eq!(stack.modifiers()[0].kind, 5);
}

#[test]
fn modifiers_removed_by_tag() {
    let mut stack: ModifierStack<i32> = ModifierStack::new();
    stack.push(StatModifier::permanent("a".to_string(), 1));
    stack.push(StatModifier::timed("b".to_string(), 2, 3));
    stack.push(StatModifier::permanent("a".to_string(), 3));
    stack.remove("a");
    assert_eq!(tags(&stack), vec![("b".to_string(), Some(3))]);
    stack.remove("missing");
    assert_eq!(stack.modifiers().len(), 1);
    // A modifier timed for zero steps is dropped at the first tick.
    stack.push(StatModifier::timed("zero".to_string(), 0, 0));
    stack.tick();
    assert_eq!(tags(&stack), vec![("b".to_string(), Some(2))]);
}

use gur::render::{GpuTextureCache, SpriteQueue, FALLBACK_TEXTURE, MAX_SPRITES};
use gur::tools::{PerfOverlay, FRAME_SAMPLES};

#[test]
fn texture_cache_falls_back_to_white() {
    let mut cache: GpuTextureCache<&str> = GpuTextureCache::new("white");
    assert!(cache.contains(FALLBACK_TEXTURE));
    assert!(!cache.contains(7));
    assert_eq!(*cache.get(7), "white");
    cache.upload(7, "hero");
    assert!(cache.contains(7));
    assert_eq!(*cache.get(7), "hero");
    cache.upload(7, "hero v2");
    assert_eq!(*cache.get(7), "hero v2");
    assert_eq!(*cache.get(8), "white");
    // Replacing the fallback changes what unknown ids get.
    cache.upload(FALLBACK_TEXTURE, "magenta");
    assert_eq!(*cache.get(8), "magenta");
    assert_eq!(*cache.get(7), "hero v2");
}

#[test]
fn sprite_queue_is_capped() {
    let mut q: SpriteQueue<usize> = SpriteQueue::new();
    for i in 0..MAX_SPRITES + 10 {
        q.draw(i);
    }
    assert_eq!(q.calls().len(), MAX_SPRITES);
    assert_eq!(q.calls()[MAX_SPRITES - 1], MAX_SPRITES - 1);
    q.calls_mut().reverse();
    assert_eq!(q.calls()[0], MAX_SPRITES - 1);
    q.begin_frame();
    assert!(q.calls().is_empty());
}

#[test]
fn overlay_keeps_the_last_sixty_frames() {
    let mut o: PerfOverlay<u32> = PerfOverlay::new();
    assert!(!o.visible);
    for i in 0..100 {
        o.record_frame(i);
    }
    assert_eq!(o.frame_times().len(), FRAME_SAMPLES);
    assert_eq!(o.frame_times().front(), Some(&40));
    assert_eq!(o.frame_times().back(), Some(&99));
    o.toggle();
    assert!(o.visible);
    assert_eq!(o.entity_count, 0);
}
