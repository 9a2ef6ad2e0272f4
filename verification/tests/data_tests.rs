use gur::assets::{AssetServer, IdAllocator, Texture};
use gur::combat::{ActionQueue, CombatAction};
use gur::error::EngineError;
use gur::input::{Action, Binding, InputMap, InputState};
use gur::narrative::{DialogueAction, DialogueNode, DialogueTree, StoryState};
use gur::save::SaveManager;
use gur::scripting::{DataRegistry, ItemCategory, ItemDef};
use gur::table::NamedTable;
use gur::tools::DevConsole;

#[test]
fn press_hold_release_cycle() {
    let mut state = InputState::new();
    state.press(Action::AttackLight);
    assert!(state.just_pressed(Action::AttackLight));
    assert!(state.held(Action::AttackLight));

    // Next frame
    state.begin_frame();
    state.press(Action::AttackLight); // still held
    assert!(!state.just_pressed(Action::AttackLight)); // no longer "just"
    assert!(state.held(Action::AttackLight));

    // Release
    state.begin_frame();
    state.release(Action::AttackLight);
    assert!(state.just_released(Action::AttackLight));
    assert!(!state.held(Action::AttackLight));
}

#[test]
fn raw_keys_and_held_actions() {
    let mut state = InputState::new();
    assert!(!state.any_held());
    state.key_down("KeyW".to_string());
    state.key_down("KeyZ".to_string());
    assert_eq!(state.keys_held().len(), 2);
    state.key_up(&"KeyW".to_string());
    assert_eq!(state.keys_held(), &vec!["KeyZ".to_string()]);
    state.press(Action::Dodge);
    state.press(Action::Guard);
    assert!(state.any_held());
    let held = state.held_actions();
    assert_eq!(held.len(), 2);
    assert!(held.contains(&Action::Dodge) && held.contains(&Action::Guard));
}

#[test]
fn default_key_bindings() {
    let map = InputMap::default_bindings();
    assert_eq!(map.binding_count(), 23);
    let up = map.get(&Action::MoveUp);
    assert_eq!(up.len(), 2);
    assert!(up[0].matches_key_name("KeyW"));
    assert!(up[1].matches_key_name("ArrowUp"));
    assert!(map.get(&Action::AttackLight)[0].matches_key_name("KeyZ"));
    assert!(map.get(&Action::DevConsole)[0].matches_key_name("Backquote"));
    assert!(map.get(&Action::OpenMap)[0].matches_key_name("KeyM"));
}

#[test]
fn rebinding() {
    let mut map = InputMap::empty();
    assert_eq!(map.binding_count(), 0);
    assert!(map.get(&Action::Dodge).is_empty());
    map.bind(Action::Dodge, Binding::key_named("Space".to_string()))
        .bind(Action::Dodge, Binding::gamepad(1));
    assert_eq!(map.get(&Action::Dodge).len(), 2);
    assert!(!map.get(&Action::Dodge)[1].matches_key_name("Space"));
    map.rebind(Action::Dodge, vec![Binding::key_named("KeyK".to_string())]);
    assert_eq!(map.get(&Action::Dodge).len(), 1);
    assert!(map.get(&Action::Dodge)[0].matches_key_name("KeyK"));
    map.unbind(Action::Dodge);
    assert!(map.get(&Action::Dodge).is_empty());
    assert_eq!(map.binding_count(), 0);
}

#[test]
fn story_flags_and_counters() {
    let mut story = StoryState::new();
    assert!(!story.flag("met_smith"));
    story.set_flag("met_smith".to_string(), true);
    assert!(story.flag("met_smith"));
    story.set_flag("met_smith".to_string(), false);
    assert!(!story.flag("met_smith"));
    assert_eq!(story.counter("kills"), 0);
    assert_eq!(story.increment("kills".to_string()), 1);
    assert_eq!(story.increment("kills".to_string()), 2);
    assert_eq!(story.counter("kills"), 2);
    assert_eq!(story.counter("deaths"), 0);
    assert!(!story.in_dialogue());
    story.begin_dialogue("smith".to_string(), "greet".to_string());
    assert!(story.in_dialogue());
    assert_eq!(story.active_dialogue.as_deref(), Some("smith"));
    assert_eq!(story.current_node.as_deref(), Some("greet"));
    story.end_dialogue();
    assert!(!story.in_dialogue());
    assert!(story.current_node.is_none());
}

fn node(id: &str, text: &str) -> DialogueNode {
    DialogueNode {
        id: id.to_string(),
        text: text.to_string(),
        speaker: None,
        choices: vec![],
        action: DialogueAction::NoAction,
        auto_next: None,
    }
}

#[test]
fn dialogue_lookup() {
    let tree = DialogueTree {
        id: "smith".to_string(),
        entry: "greet".to_string(),
        nodes: vec![node("intro", "..."), node("greet", "Hello"), node("greet", "shadowed")],
    };
    assert_eq!(tree.entry_node().unwrap().text, "Hello");
    assert_eq!(tree.node("intro").unwrap().text, "...");
    assert!(tree.node("bye").is_none());
    let empty = DialogueTree { id: "x".to_string(), entry: "start".to_string(), nodes: vec![] };
    assert!(empty.entry_node().is_none());
}

#[test]
fn console_submit_and_history() {
    let mut c = DevConsole::new();
    assert!(!c.visible);
    c.toggle();
    assert!(c.visible);
    c.input = "   ".to_string();
    assert_eq!(c.submit(), None);
    assert_eq!(c.input, "   ");
    c.input = "  spawn ember_knight  ".to_string();
    assert_eq!(c.submit(), Some("spawn ember_knight".to_string()));
    assert_eq!(c.input, "");
    assert_eq!(c.submit_command(String::new()), None);
    assert_eq!(c.submit_command("help".to_string()), Some("help".to_string()));
}

#[test]
fn console_log_is_trimmed() {
    let mut c = DevConsole::new();
    for i in 0..500 {
        c.print(format!("line {i}"));
    }
    assert_eq!(c.log.len(), 500);
    c.print("line 500".to_string());
    // 501 lines exceed the limit: the oldest 100 go.
    assert_eq!(c.log.len(), 401);
    assert_eq!(c.log[0], "line 100");
    assert_eq!(c.log[400], "line 500");
}

#[test]
fn texture_constructors() {
    let t = Texture::solid(1, 2, 3, 4);
    assert_eq!((t.width, t.height), (1, 1));
    assert_eq!(t.data, vec![1, 2, 3, 4]);
    let t = Texture::from_rgba8(2, 1, vec![9; 8]);
    assert_eq!((t.width, t.height, t.data.len()), (2, 1, 8));
}

#[test]
fn ids_count_up_from_one() {
    let mut ids = IdAllocator::new();
    assert_eq!(ids.next_id(), 1);
    assert_eq!(ids.next_id(), 2);
    assert_eq!(ids.next_id(), 3);
}

#[test]
fn asset_cache_reuses_paths() {
    let mut server = AssetServer::new("assets".to_string());
    assert_eq!(server.root(), "assets");
    assert!(server.cached_texture("hero.png").is_none());
    let h = server.finish_texture_load("hero.png".to_string(), Ok(Texture::solid(255, 0, 0, 255))).unwrap();
    assert_eq!(h.id(), 1);
    // A second load of the same path gives the cached handle and ignores the new data.
    let again = server.finish_texture_load("hero.png".to_string(), Ok(Texture::solid(0, 0, 0, 0))).unwrap();
    assert!(again.same_asset(&h));
    assert_eq!(server.get_texture(&h).unwrap().data, vec![255, 0, 0, 255]);
    assert_eq!(server.cached_texture("hero.png").unwrap().id(), 1);
    let other = server.store_texture("tiles.png".to_string(), Texture::solid(1, 1, 1, 1));
    assert_eq!(other.id(), 2);
    match server.finish_texture_load("missing.png".to_string(), Err("not found".to_string())) {
        Err(EngineError::AssetLoad { path, reason }) => {
            assert_eq!(path, "missing.png");
            assert_eq!(reason, "not found");
        },
        _ => panic!("expected AssetLoad"),
    }
    // Replacing a path's texture gives it a fresh id; the old handle no longer resolves.
    let h3 = server.store_texture("hero.png".to_string(), Texture::solid(0, 255, 0, 255));
    assert_eq!(h3.id(), 3);
    assert!(server.get_texture(&h).is_none());
    assert_eq!(server.get_texture(&h3).unwrap().data, vec![0, 255, 0, 255]);
    assert!(h.duplicate().same_asset(&h));
}

#[test]
fn turn_based_priority_order() {
    let mut q: ActionQueue<(i32, i32), u32> = ActionQueue::new();
    assert!(q.is_empty());
    assert!(q.pop_priority().is_none());
    q.push(CombatAction::Wait);
    q.push(CombatAction::AttackLight { direction: (1, 0) });
    q.push(CombatAction::Dodge { direction: (0, 1) });
    q.push(CombatAction::AttackLight { direction: (2, 0) });
    q.push(CombatAction::Guard);
    assert!(matches!(q.pop_priority(), Some(CombatAction::Dodge { direction: (0, 1) })));
    assert!(matches!(q.pop_priority(), Some(CombatAction::Guard)));
    // Equal priorities: the most recently queued goes first.
    assert!(matches!(q.pop_priority(), Some(CombatAction::AttackLight { direction: (2, 0) })));
    assert!(matches!(q.pop(), Some(CombatAction::Wait)));
    assert!(matches!(q.pop(), Some(CombatAction::AttackLight { direction: (1, 0) })));
    assert!(q.pop().is_none());
    q.push(CombatAction::UseItem { item_id: "potion".to_string() });
    q.clear();
    assert!(q.is_empty());
}

#[test]
fn action_priorities() {
    type A = CombatAction<(i32, i32), u32>;
    assert_eq!(A::Dodge { direction: (0, 0) }.priority(), 100);
    assert_eq!(A::Guard.priority(), 80);
    assert_eq!(A::AttackLight { direction: (0, 0) }.priority(), 50);
    assert_eq!(A::AttackHeavy { direction: (0, 0), charge: 3 }.priority(), 30);
    assert_eq!(A::UseItem { item_id: String::new() }.priority(), 20);
    assert_eq!(A::Wait.priority(), 0);
}

#[test]
fn save_slot_paths() {
    let m = SaveManager::new("saves".to_string());
    assert_eq!(m.save_dir(), "saves");
    assert_eq!(m.slot_path(0), "saves/slot_0.json");
    assert_eq!(m.slot_path(12), "saves/slot_12.json");
    assert_eq!(SaveManager::new("saves/".to_string()).slot_path(3), "saves/slot_3.json");
    assert_eq!(SaveManager::new(String::new()).slot_path(7), "slot_7.json");
}

fn item(id: &str, name: &str) -> ItemDef {
    ItemDef {
        id: id.to_string(),
        name: name.to_string(),
        description: String::new(),
        category: ItemCategory::Consumable,
        max_stack: 5,
        sprite: String::new(),
    }
}

#[test]
fn data_registry_replaces_by_id() {
    let mut reg: DataRegistry<u32> = DataRegistry::new();
    reg.register_enemy("ember_knight".to_string(), 120);
    reg.register_enemy("ash_wraith".to_string(), 60);
    reg.register_enemy("ember_knight".to_string(), 150);
    assert_eq!(reg.enemy("ember_knight"), Some(&150));
    assert!(reg.enemy("slime").is_none());
    let mut ids = reg.enemy_ids();
    ids.sort();
    assert_eq!(ids, vec!["ash_wraith", "ember_knight"]);
    reg.register_item(item("potion", "Potion"));
    reg.register_item(item("potion", "Big Potion"));
    assert_eq!(reg.item("potion").unwrap().name, "Big Potion");
    assert!(reg.item("elixir").is_none());
}

#[test]
fn named_table_basics() {
    let mut t: NamedTable<i32> = NamedTable::new();
    assert_eq!(t.len(), 0);
    t.insert("a".to_string(), 1);
    t.insert("b".to_string(), 2);
    t.insert("a".to_string(), 3);
    assert_eq!(t.len(), 2);
    assert_eq!(t.get("a"), Some(&3));
    assert!(t.contains("b"));
    assert!(!t.contains("c"));
    assert_eq!(t.keys(), vec!["a", "b"]);
}

use gur::save::{join_paths, slot_label, SLOT_COUNT};
use gur::scripting::{is_data_file, DataLoader};

#[test]
fn path_joining() {
    assert_eq!(join_paths("assets", "hero.png"), "assets/hero.png");
    assert_eq!(join_paths("assets/", "hero.png"), "assets/hero.png");
    assert_eq!(join_paths("", "hero.png"), "hero.png");
    assert_eq!(join_paths("assets", "/abs/hero.png"), "/abs/hero.png");
    let server = AssetServer::new("assets".to_string());
    assert_eq!(server.resolve("sprites/hero.png"), "assets/sprites/hero.png");
}

#[test]
fn slot_labels() {
    assert_eq!(SLOT_COUNT, 3);
    assert_eq!(slot_label(0), "Slot 1");
    assert_eq!(slot_label(2), "Slot 3");
    assert_eq!(slot_label(9), "Slot 10");
}

#[test]
fn data_files_and_dirs() {
    let loader = DataLoader::new("assets/data".to_string());
    assert_eq!(loader.root(), "assets/data");
    assert_eq!(loader.enemies_dir(), "assets/data/enemies");
    assert_eq!(loader.items_dir(), "assets/data/items");
    assert!(is_data_file("ember_knight.ron"));
    assert!(is_data_file("a.b.ron"));
    assert!(!is_data_file(".ron"));
    assert!(!is_data_file("ron"));
    assert!(!is_data_file("notes.txt"));
    assert!(!is_data_file("knight.ron.bak"));
    assert!(!is_data_file("knight.RON"));
}
