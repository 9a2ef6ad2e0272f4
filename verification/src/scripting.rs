//! Game data definitions and their registry. Files are read and parsed by
//! the caller; the registry keeps one definition per id.

use crate::plugin::Plugin;
use crate::table::NamedTable;
use crate::save::{join_path, join_paths};
use vstd::prelude::*;

verus! {

/// Item category.
#[derive(Debug, Clone, Copy, PartialEq, Eq, Structural)]
pub enum ItemCategory {
    /// Heals the player.
    Consumable,
    /// Equippable weapon.
    Weapon,
    /// Equippable armor.
    Armor,
    /// Key item / quest item.
    Key,
    /// Crafting material.
    Material,
}

/// Item definition.
pub struct ItemDef {
    /// Unique identifier.
    pub id: String,
    /// Display name.
    pub name: String,
    /// Description shown in the inventory.
    pub description: String,
    /// Item category.
    pub category: ItemCategory,
    /// How many the player can carry at once.
    pub max_stack: u32,
    /// Sprite sheet path.
    pub sprite: String,
}

/// Where game data files are read from: `<root>/enemies/` and
/// `<root>/items/`.
pub struct DataLoader {
    root: String,
}

impl DataLoader {
    /// The data root directory.
    pub closed spec fn root_dir(&self) -> Seq<char> {
        self.root@
    }

    /// A loader for the given data root.
    pub fn new(root: String) -> (l: Self)
        ensures
            l.root_dir() == root@,
    {
        DataLoader { root }
    }

    /// The data root directory.
    pub fn root(&self) -> (r: &str)
        ensures
            r@ == self.root_dir(),
    {
        self.root.as_str()
    }

    /// The directory holding the files of one kind of definition.
    pub fn data_dir(&self, subdir: &str) -> (d: String)
        ensures
            d@ == join_path(self.root_dir(), subdir@),
    {
        join_paths(self.root.as_str(), subdir)
    }

    /// The directory of the enemy definitions: `<root>/enemies`.
    pub fn enemies_dir(&self) -> (d: String)
        ensures
            d@ == join_path(self.root_dir(), "enemies"@),
    {
        self.data_dir("enemies")
    }

    /// The directory of the item definitions: `<root>/items`.
    pub fn items_dir(&self) -> (d: String)
        ensures
            d@ == join_path(self.root_dir(), "items"@),
    {
        self.data_dir("items")
    }
}

/// `true` if a file name has the extension `ron`, as `Path::extension`
/// reads it: the part after the last `.`, where that `.` is not the first
/// character.
pub open spec fn has_ron_extension(name: Seq<char>) -> bool {
    name.len() >= 5 && name.subrange(name.len() - 4, name.len() as int) == ".ron"@
}

/// A non-empty stem followed by `.ron` is a data file name; `.ron` alone is a
/// hidden file with no extension; a name whose last character is not `n`
/// is not one.
pub proof fn lemma_ron_names(stem: Seq<char>, name: Seq<char>)
    ensures
        stem.len() > 0 ==> has_ron_extension(stem + ".ron"@),
        !has_ron_extension(".ron"@),
        name.len() > 0 && name.last() != 'n' ==> !has_ron_extension(name),
{
    reveal_strlit(".ron");
    if stem.len() > 0 {
        let full = stem + ".ron"@;
        assert(full.subrange(full.len() - 4, full.len() as int) =~= ".ron"@);
    }
    if name.len() >= 5 && name.last() != 'n' {
        let tail = name.subrange(name.len() - 4, name.len() as int);
        assert(tail[3] == name.last());
        assert(".ron"@[3] == 'n');
    }
}

/// `true` for the files a data directory's definitions are read from: those
/// with the extension `ron`.
pub fn is_data_file(file_name: &str) -> (b: bool)
    ensures
        b == has_ron_extension(file_name@),
{
    let n = file_name.unicode_len();
    if n < 5 {
        return false;
    }
    let b = file_name.get_char(n - 4) == '.' && file_name.get_char(n - 3) == 'r'
        && file_name.get_char(n - 2) == 'o' && file_name.get_char(n - 1) == 'n';
    proof {
        reveal_strlit(".ron");
        let tail = file_name@.subrange(n - 4, n as int);
        if b {
            assert(tail =~= ".ron"@);
        } else {
            if tail == ".ron"@ {
                assert(tail[0] == file_name@[n - 4]);
                assert(tail[1] == file_name@[n - 3]);
                assert(tail[2] == file_name@[n - 2]);
                assert(tail[3] == file_name@[n - 1]);
            }
        }
    }
    b
}

/// Registry of game data definitions: enemies of type `E`, and items.
pub struct DataRegistry<E> {
    enemies: NamedTable<E>,
    items: NamedTable<ItemDef>,
}

impl<E> DataRegistry<E> {
    /// Enemy definitions by id.
    pub closed spec fn enemy_defs(&self) -> Map<Seq<char>, E> {
        self.enemies.view()
    }

    /// Item definitions by id.
    pub closed spec fn item_defs(&self) -> Map<Seq<char>, ItemDef> {
        self.items.view()
    }

    /// An empty registry.
    pub fn new() -> (r: Self)
        ensures
            r.enemy_defs() == Map::<Seq<char>, E>::empty(),
            r.item_defs() == Map::<Seq<char>, ItemDef>::empty(),
    {
        DataRegistry { enemies: NamedTable::new(), items: NamedTable::new() }
    }

    /// Register an enemy definition under its id (replacing an earlier one).
    pub fn register_enemy(&mut self, id: String, def: E)
        ensures
            final(self).enemy_defs() == old(self).enemy_defs().insert(id@, def),
            final(self).item_defs() == old(self).item_defs(),
    {
        self.enemies.insert(id, def);
    }

    /// Register an item definition under its id (replacing an earlier one).
    pub fn register_item(&mut self, def: ItemDef)
        ensures
            final(self).item_defs() == old(self).item_defs().insert(def.id@, def),
            final(self).enemy_defs() == old(self).enemy_defs(),
    {
        let id = def.id.clone();
        self.items.insert(id, def);
    }

    /// The enemy definition with the given id.
    pub fn enemy(&self, id: &str) -> (r: Option<&E>)
        ensures
            r == (if self.enemy_defs().contains_key(id@) { Some(&self.enemy_defs()[id@]) } else { None }),
    {
        self.enemies.get(id)
    }

    /// The item definition with the given id.
    pub fn item(&self, id: &str) -> (r: Option<&ItemDef>)
        ensures
            r == (if self.item_defs().contains_key(id@) { Some(&self.item_defs()[id@]) } else { None }),
    {
        self.items.get(id)
    }

    /// The ids of all registered enemies.
    pub fn enemy_ids(&self) -> (v: Vec<&str>)
        ensures
            v@.map_values(|k: &str| k@).to_set() == self.enemy_defs().dom(),
    {
        self.enemies.keys()
    }
}

/// Loads all data files and registers them.
pub struct ScriptingPlugin {
    /// Path to the game data root.
    pub data_root: String,
}

impl Default for ScriptingPlugin {
    /// Data under `assets/data`.
    fn default() -> (p: Self)
        ensures
            p.data_root@ == "assets/data"@,
    {
        ScriptingPlugin { data_root: "assets/data".to_owned() }
    }
}

impl Plugin for ScriptingPlugin {
    /// The name this plugin reports.
    open spec fn spec_name(&self) -> Seq<char> {
        "gur_scripting"@
    }

    /// The plugin's unique name.
    fn name(&self) -> (n: &'static str)
        ensures
            n@ == "gur_scripting"@,
    {
        "gur_scripting"
    }
}

} // verus!
