//! Narrative state and dialogue trees: world flags, story counters, the
//! active dialogue, and lookup of dialogue nodes.

use crate::table::NamedTable;
use crate::plugin::Plugin;
use vstd::prelude::*;

verus! {

/// The value of a world flag: `false` unless set.
pub open spec fn flag_value(flags: Map<Seq<char>, bool>, key: Seq<char>) -> bool {
    if flags.contains_key(key) { flags[key] } else { false }
}

/// The value of a story counter: zero unless incremented.
pub open spec fn counter_value(counters: Map<Seq<char>, i64>, key: Seq<char>) -> int {
    if counters.contains_key(key) { counters[key] as int } else { 0 }
}

/// The view of an optional string.
pub open spec fn opt_str(o: Option<String>) -> Option<Seq<char>> {
    match o {
        Some(s) => Some(s@),
        None => None,
    }
}

/// Global narrative state: world flags, story counters, active dialogue.
pub struct StoryState {
    flags: NamedTable<bool>,
    counters: NamedTable<i64>,
    /// Currently active dialogue tree ID (if any).
    pub active_dialogue: Option<String>,
    /// Current node ID in the active dialogue.
    pub current_node: Option<String>,
}

impl StoryState {
    /// The world flags that have been set.
    pub closed spec fn flags(&self) -> Map<Seq<char>, bool> {
        self.flags.view()
    }

    /// The story counters that have been incremented.
    pub closed spec fn counters(&self) -> Map<Seq<char>, i64> {
        self.counters.view()
    }

    /// The active dialogue tree, if any.
    pub closed spec fn dialogue(&self) -> Option<Seq<char>> {
        opt_str(self.active_dialogue)
    }

    /// The current dialogue node, if any.
    pub closed spec fn node(&self) -> Option<Seq<char>> {
        opt_str(self.current_node)
    }

    /// An empty story state: no flags, no counters, no dialogue.
    pub fn new() -> (s: Self)
        ensures
            s.flags() == Map::<Seq<char>, bool>::empty(),
            s.counters() == Map::<Seq<char>, i64>::empty(),
            s.dialogue() is None,
            s.node() is None,
    {
        StoryState {
            flags: NamedTable::new(),
            counters: NamedTable::new(),
            active_dialogue: None,
            current_node: None,
        }
    }

    /// Set a world flag.
    pub fn set_flag(&mut self, key: String, value: bool)
        ensures
            final(self).flags() == old(self).flags().insert(key@, value),
            final(self).counters() == old(self).counters(),
            final(self).dialogue() == old(self).dialogue(),
            final(self).node() == old(self).node(),
    {
        self.flags.insert(key, value);
    }

    /// Check a world flag (`false` if never set).
    pub fn flag(&self, key: &str) -> (b: bool)
        ensures
            b == flag_value(self.flags(), key@),
    {
        match self.flags.get(key) {
            Some(v) => *v,
            None => false,
        }
    }

    /// Increment a counter and return the new value.
    pub fn increment(&mut self, key: String) -> (n: i64)
        requires
            counter_value(old(self).counters(), key@) < i64::MAX,
        ensures
            n == counter_value(old(self).counters(), key@) + 1,
            final(self).counters() == old(self).counters().insert(key@, n),
            final(self).flags() == old(self).flags(),
            final(self).dialogue() == old(self).dialogue(),
            final(self).node() == old(self).node(),
    {
        let c = match self.counters.get(key.as_str()) {
            Some(v) => *v,
            None => 0,
        };
        let n = c + 1;
        self.counters.insert(key, n);
        n
    }

    /// A counter's value (0 if never incremented).
    pub fn counter(&self, key: &str) -> (n: i64)
        ensures
            n == counter_value(self.counters(), key@),
    {
        match self.counters.get(key) {
            Some(v) => *v,
            None => 0,
        }
    }

    /// Start a dialogue at the given tree and node.
    pub fn begin_dialogue(&mut self, tree_id: String, entry_node: String)
        ensures
            final(self).dialogue() == Some(tree_id@),
            final(self).node() == Some(entry_node@),
            final(self).flags() == old(self).flags(),
            final(self).counters() == old(self).counters(),
    {
        self.active_dialogue = Some(tree_id);
        self.current_node = Some(entry_node);
    }

    /// End the current dialogue.
    pub fn end_dialogue(&mut self)
        ensures
            final(self).dialogue() is None,
            final(self).node() is None,
            final(self).flags() == old(self).flags(),
            final(self).counters() == old(self).counters(),
    {
        self.active_dialogue = None;
        self.current_node = None;
    }

    /// `true` while a dialogue is active.
    pub fn in_dialogue(&self) -> (b: bool)
        ensures
            b == self.dialogue() is Some,
    {
        self.active_dialogue.is_some()
    }
}

/// A flag reads back the last value written to it; other flags are untouched;
/// a flag never written reads `false`.
pub proof fn lemma_flag_read_after_write(flags: Map<Seq<char>, bool>, k: Seq<char>, v: bool, other: Seq<char>)
    ensures
        flag_value(flags.insert(k, v), k) == v,
        other != k ==> flag_value(flags.insert(k, v), other) == flag_value(flags, other),
        flag_value(Map::empty(), k) == false,
{
}

/// Incrementing counts from zero, one step at a time, per key.
pub proof fn lemma_counter_increments(counters: Map<Seq<char>, i64>, k: Seq<char>, n: i64, other: Seq<char>)
    requires
        n == counter_value(counters, k) + 1,
    ensures
        counter_value(counters.insert(k, n), k) == counter_value(counters, k) + 1,
        other != k ==> counter_value(counters.insert(k, n), other) == counter_value(counters, other),
        counter_value(Map::empty(), k) == 0,
{
}

/// An action triggered when a dialogue node completes.
pub enum DialogueAction {
    /// Open the shop interface.
    OpenShop,
    /// Set a world flag.
    SetFlag { key: String, value: bool },
    /// Give the player an item.
    GiveItem { item_id: String, count: u32 },
    /// Start a quest.
    StartQuest { quest_id: String },
    /// Transition to a zone.
    ZoneTransition { zone_id: String },
    /// No action (written `None` in dialogue files).
    NoAction,
}

/// A player choice presented at a dialogue decision point.
pub struct DialogueChoice {
    /// Text shown to the player.
    pub text: String,
    /// ID of the next node, or `None` to end the dialogue.
    pub next: Option<String>,
    /// World flag required for this choice to appear. `None` = always visible.
    pub requires_flag: Option<String>,
}

/// A single node in a dialogue tree.
pub struct DialogueNode {
    /// Unique node identifier.
    pub id: String,
    /// The text spoken.
    pub text: String,
    /// Speaker name shown in the dialogue box.
    pub speaker: Option<String>,
    /// Choices presented to the player. Empty = auto-advance.
    pub choices: Vec<DialogueChoice>,
    /// Action executed when this node is reached.
    pub action: DialogueAction,
    /// If `Some`, advance to this node automatically.
    pub auto_next: Option<String>,
}

/// A complete dialogue tree for an NPC or scene.
pub struct DialogueTree {
    /// Unique ID for this dialogue tree.
    pub id: String,
    /// ID of the first node to show.
    pub entry: String,
    /// All nodes in this tree.
    pub nodes: Vec<DialogueNode>,
}

/// Index of the first node with the given id, if any.
pub open spec fn node_index(nodes: Seq<DialogueNode>, id: Seq<char>) -> Option<int> {
    if exists|i: int| 0 <= i < nodes.len() && nodes[i].id@ == id {
        Some(choose|i: int| 0 <= i < nodes.len() && nodes[i].id@ == id && forall|j: int| 0 <= j < i ==> nodes[j].id@ != id)
    } else {
        None
    }
}

proof fn lemma_node_index_is(nodes: Seq<DialogueNode>, id: Seq<char>, i: int)
    requires
        0 <= i < nodes.len(),
        nodes[i].id@ == id,
        forall|j: int| 0 <= j < i ==> nodes[j].id@ != id,
    ensures
        node_index(nodes, id) == Some(i),
{
    let c = choose|c: int| 0 <= c < nodes.len() && nodes[c].id@ == id && forall|j: int| 0 <= j < c ==> nodes[j].id@ != id;
    assert(0 <= i < nodes.len() && nodes[i].id@ == id && forall|j: int| 0 <= j < i ==> nodes[j].id@ != id);
    assert(c == i);
}

impl DialogueTree {
    /// The first node with the given id.
    pub fn node(&self, id: &str) -> (r: Option<&DialogueNode>)
        ensures
            r == (match node_index(self.nodes@, id@) {
                Some(i) => Some(&self.nodes@[i]),
                None => None,
            }),
    {
        let wanted = id.to_owned();
        let mut i: usize = 0;
        while i < self.nodes.len()
            invariant
                wanted@ == id@,
                i <= self.nodes@.len(),
                forall|j: int| 0 <= j < i ==> self.nodes@[j].id@ != id@,
            decreases self.nodes@.len() - i,
        {
            if self.nodes[i].id == wanted {
                proof { lemma_node_index_is(self.nodes@, id@, i as int); }
                return Some(&self.nodes[i]);
            }
            i = i + 1;
        }
        None
    }

    /// The entry node.
    pub fn entry_node(&self) -> (r: Option<&DialogueNode>)
        ensures
            r == (match node_index(self.nodes@, self.entry@) {
                Some(i) => Some(&self.nodes@[i]),
                None => None,
            }),
    {
        self.node(self.entry.as_str())
    }
}

/// Registers the story state resource.
pub struct NarrativePlugin;

impl Plugin for NarrativePlugin {
    /// The name this plugin reports.
    open spec fn spec_name(&self) -> Seq<char> {
        "gur_narrative"@
    }

    /// The plugin's unique name.
    fn name(&self) -> (n: &'static str)
        ensures
            n@ == "gur_narrative"@,
    {
        "gur_narrative"
    }
}

} // verus!
