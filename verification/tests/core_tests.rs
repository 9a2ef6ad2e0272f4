use gur::error::EngineError;
use gur::event::EventBus;
use gur::narrative::NarrativePlugin;
use gur::plugin::{Plugin, PluginRegistry};
use gur::scheduler::{Schedule, SystemStage};
use gur::time::Time;

struct FooPlugin;
impl Plugin for FooPlugin {
    fn name(&self) -> &'static str {
        "foo"
    }
}

struct BarPlugin;
impl Plugin for BarPlugin {
    fn name(&self) -> &'static str {
        "bar"
    }
}

#[test]
fn duplicate_plugin_is_rejected() {
    let mut registry = PluginRegistry::new();
    registry.add(FooPlugin).unwrap();
    let result = registry.add(FooPlugin);
    assert!(matches!(result, Err(EngineError::DuplicatePlugin("foo"))));
}

#[test]
fn build_all_succeeds() {
    let mut registry = PluginRegistry::new();
    registry.add(FooPlugin).unwrap();
    let mut world: Vec<&'static str> = Vec::new();
    let build = |p: &FooPlugin, w: &mut Vec<&'static str>| -> Result<(), EngineError> {
        w.push(p.name());
        Ok(())
    };
    registry.build_all(&build, &mut world).unwrap();
    assert_eq!(world, vec!["foo"]);
    assert!(registry.is_built("foo"));
}

#[test]
fn build_all_stops_at_the_first_failing_plugin() {
    let mut registry: PluginRegistry<Box<dyn Plugin>> = PluginRegistry::new();
    registry.add_named("foo", Box::new(FooPlugin)).unwrap();
    registry.add_named("bar", Box::new(BarPlugin)).unwrap();
    registry.add_named("baz", Box::new(FooPlugin)).unwrap();
    let mut world: Vec<&'static str> = Vec::new();
    let build = |p: &Box<dyn Plugin>, w: &mut Vec<&'static str>| -> Result<(), EngineError> {
        if p.name() == "bar" {
            return Err(EngineError::Other("bar cannot start".to_string()));
        }
        w.push(p.name());
        Ok(())
    };
    let result = registry.build_all(&build, &mut world);
    assert!(matches!(result, Err(EngineError::Other(ref m)) if m == "bar cannot start"));
    assert_eq!(world, vec!["foo"]);
    assert!(registry.is_built("foo"));
    assert!(!registry.is_built("bar"));
    assert!(!registry.is_built("baz"));
    assert_eq!(registry.entries().len(), 3);
}

#[test]
fn cleanup_runs_in_reverse_registration_order() {
    let mut registry: PluginRegistry<Box<dyn Plugin>> = PluginRegistry::new();
    registry.add_named("foo", Box::new(FooPlugin)).unwrap();
    registry.add_named("bar", Box::new(BarPlugin)).unwrap();
    let mut log: Vec<&'static str> = Vec::new();
    let cleanup = |p: &Box<dyn Plugin>, log: &mut Vec<&'static str>| log.push(p.name());
    registry.cleanup_all(&cleanup, &mut log);
    assert_eq!(log, vec!["bar", "foo"]);
}

#[test]
fn registry_keeps_order_and_records_builds() {
    let mut registry: PluginRegistry<Box<dyn Plugin>> = PluginRegistry::new();
    registry.add_named("foo", Box::new(FooPlugin)).unwrap();
    registry.add_named("bar", Box::new(BarPlugin)).unwrap();
    assert!(registry.has("foo"));
    assert!(registry.has("bar"));
    assert!(!registry.has("baz"));
    let names: Vec<&str> = registry.entries().iter().map(|e| e.0).collect();
    assert_eq!(names, vec!["foo", "bar"]);
    assert!(!registry.is_built("foo"));
    registry.mark_built("foo");
    assert!(registry.is_built("foo"));
    assert!(!registry.is_built("bar"));
    assert!(matches!(registry.add_named("bar", Box::new(BarPlugin)), Err(EngineError::DuplicatePlugin("bar"))));
    assert_eq!(registry.entries().len(), 2);
}

// ── Scheduler ───────────────────────────────────────────────────────────────

type World = Vec<&'static str>;
type Sys = fn(&mut World, &mut EventBus<u32>) -> Result<(), EngineError>;

fn noop_system(_w: &mut World, _b: &mut EventBus<u32>) -> Result<(), EngineError> {
    Ok(())
}

fn error_system(_w: &mut World, _b: &mut EventBus<u32>) -> Result<(), EngineError> {
    Err(EngineError::Other("intentional test error".to_string()))
}

fn log_a(w: &mut World, _b: &mut EventBus<u32>) -> Result<(), EngineError> {
    w.push("a");
    Ok(())
}

fn log_b(w: &mut World, _b: &mut EventBus<u32>) -> Result<(), EngineError> {
    w.push("b");
    Ok(())
}

#[test]
fn add_and_run_system() {
    let mut sched: Schedule<Sys> = Schedule::new();
    sched.add_system(SystemStage::Update, "noop".to_string(), noop_system).unwrap();
    let mut world = World::new();
    let mut bus = EventBus::new();
    sched.run_stage(&SystemStage::Update, &mut world, &mut bus).unwrap();
}

#[test]
fn error_propagates_from_system() {
    let mut sched: Schedule<Sys> = Schedule::new();
    sched.add_system(SystemStage::Update, "err".to_string(), error_system).unwrap();
    let mut world = World::new();
    let mut bus = EventBus::new();
    assert!(sched.run_stage(&SystemStage::Update, &mut world, &mut bus).is_err());
}

#[test]
fn disabled_system_is_skipped() {
    let mut sched: Schedule<Sys> = Schedule::new();
    sched.add_system(SystemStage::Update, "err".to_string(), error_system).unwrap();
    sched.set_system_active(&SystemStage::Update, "err", false).unwrap();
    let mut world = World::new();
    let mut bus = EventBus::new();
    // Should not error because system is disabled
    sched.run_stage(&SystemStage::Update, &mut world, &mut bus).unwrap();
}

#[test]
fn systems_run_in_registration_order() {
    let mut sched: Schedule<Sys> = Schedule::new();
    sched.add_system(SystemStage::Update, "a".to_string(), log_a).unwrap();
    sched.add_system(SystemStage::Update, "b".to_string(), log_b).unwrap();
    sched.add_system(SystemStage::PostUpdate, "a".to_string(), log_a).unwrap();
    let mut world = World::new();
    let mut bus = EventBus::new();
    sched.run_stage(&SystemStage::Update, &mut world, &mut bus).unwrap();
    assert_eq!(world, vec!["a", "b"]);
    sched.set_system_active(&SystemStage::Update, "a", false).unwrap();
    sched.run_stage(&SystemStage::Update, &mut world, &mut bus).unwrap();
    assert_eq!(world, vec!["a", "b", "b"]);
    sched.set_system_active(&SystemStage::Update, "a", true).unwrap();
    sched.run_stage(&SystemStage::Update, &mut world, &mut bus).unwrap();
    assert_eq!(world, vec!["a", "b", "b", "a", "b"]);
}

#[test]
fn standard_stage_order() {
    let sched: Schedule<Sys> = Schedule::new();
    assert_eq!(
        sched.stage_names(),
        vec!["PreUpdate", "Input", "FixedUpdate", "Update", "PostUpdate", "Render", "Debug"]
    );
    let stages = sched.logic_order();
    let logic: Vec<&str> = stages.iter().map(|s| s.name()).collect();
    assert_eq!(logic, vec!["PreUpdate", "Input", "FixedUpdate", "Update", "PostUpdate"]);
    assert_eq!(sched.run_order().len(), 7);
}

#[test]
fn custom_stage_inserted_after() {
    let mut sched: Schedule<Sys> = Schedule::new();
    sched.insert_stage_after(&SystemStage::Update, SystemStage::Custom("Physics".to_string())).unwrap();
    assert_eq!(
        sched.stage_names(),
        vec!["PreUpdate", "Input", "FixedUpdate", "Update", "Physics", "PostUpdate", "Render", "Debug"]
    );
    let custom = SystemStage::Custom("Physics".to_string());
    sched.add_system(SystemStage::Custom("Physics".to_string()), "a".to_string(), log_a).unwrap();
    let mut world = World::new();
    let mut bus = EventBus::new();
    sched.run_stage(&custom, &mut world, &mut bus).unwrap();
    assert_eq!(world, vec!["a"]);
}

#[test]
fn unknown_stage_and_system_are_reported() {
    let mut sched: Schedule<Sys> = Schedule::new();
    let missing = SystemStage::Custom("Nowhere".to_string());
    match sched.add_system(SystemStage::Custom("Nowhere".to_string()), "a".to_string(), log_a) {
        Err(EngineError::UnknownStage(s)) => assert_eq!(s, "Nowhere"),
        _ => panic!("expected UnknownStage"),
    }
    match sched.insert_stage_after(&missing, SystemStage::Custom("X".to_string())) {
        Err(EngineError::UnknownStage(s)) => assert_eq!(s, "Nowhere"),
        _ => panic!("expected UnknownStage"),
    }
    assert!(matches!(sched.active_systems(&missing), Err(EngineError::UnknownStage(_))));
    match sched.set_system_active(&SystemStage::Update, "ghost", false) {
        Err(EngineError::UnknownStage(s)) => assert_eq!(s, "Update::ghost"),
        _ => panic!("expected UnknownStage"),
    }
}

#[test]
fn stage_names_and_equality() {
    assert_eq!(SystemStage::FixedUpdate.name(), "FixedUpdate");
    assert_eq!(SystemStage::Custom("Audio".to_string()).name(), "Audio");
    assert!(SystemStage::Custom("Audio".to_string()).same_as(&SystemStage::Custom("Audio".to_string())));
    assert!(!SystemStage::Render.same_as(&SystemStage::Debug));
}

// ── Time ────────────────────────────────────────────────────────────────────

#[test]
fn time_paused_returns_zero_delta() {
    let mut t = Time::new();
    t.tick();
    t.set_paused(true);
    t.tick();
    assert_eq!(t.delta() as f64 / 1_000_000_000.0, 0.0);
}

#[test]
fn tick_clamps_long_frames() {
    let mut t = Time::new();
    t.tick_by(16_000_000);
    assert_eq!(t.delta(), 16_000_000);
    assert_eq!(t.elapsed(), 16_000_000);
    assert_eq!(t.frame_count(), 1);
    // A 2-second hitch counts as 100 ms.
    t.tick_by(2_000_000_000);
    assert_eq!(t.delta(), 100_000_000);
    assert_eq!(t.elapsed(), 116_000_000);
    assert_eq!(t.frame_count(), 2);
    t.set_paused(true);
    assert!(t.is_paused());
    t.tick_by(10_000_000);
    assert_eq!(t.delta(), 0);
    // Paused time does not advance.
    assert_eq!(t.elapsed(), 116_000_000);
    assert_eq!(t.frame_count(), 3);
    t.set_paused(false);
    t.tick_by(1_000);
    assert_eq!(t.delta(), 1_000);
    assert_eq!(t.elapsed(), 116_001_000);
}

#[test]
fn first_failure_stops_the_frame() {
    let mut sched: Schedule<Sys> = Schedule::new();
    sched.add_system(SystemStage::Input, "a".to_string(), log_a).unwrap();
    sched.add_system(SystemStage::Update, "err".to_string(), error_system).unwrap();
    sched.add_system(SystemStage::Update, "b".to_string(), log_b).unwrap();
    sched.add_system(SystemStage::Render, "a".to_string(), log_a).unwrap();
    let mut world = World::new();
    let mut bus = EventBus::new();
    match sched.run_all(&mut world, &mut bus) {
        Err(EngineError::Other(msg)) => assert_eq!(msg, "intentional test error"),
        _ => panic!("expected the system's error"),
    }
    // Input ran; the failing system stopped Update before "b" and every later stage.
    assert_eq!(world, vec!["a"]);
    sched.set_system_active(&SystemStage::Update, "err", false).unwrap();
    sched.run_logic_only(&mut world, &mut bus).unwrap();
    assert_eq!(world, vec!["a", "a", "b"]);
    sched.run_all(&mut world, &mut bus).unwrap();
    assert_eq!(world, vec!["a", "a", "b", "a", "b", "a"]);
    assert!(matches!(
        sched.run_stage(&SystemStage::Custom("Nowhere".to_string()), &mut world, &mut bus),
        Err(EngineError::UnknownStage(_))
    ));
}

#[test]
fn engine_plugins_are_refused_twice() {
    let mut registry = PluginRegistry::new();
    registry.add(NarrativePlugin).unwrap();
    assert!(matches!(registry.add(NarrativePlugin), Err(EngineError::DuplicatePlugin("gur_narrative"))));
    assert_eq!(registry.entries().len(), 1);
}
