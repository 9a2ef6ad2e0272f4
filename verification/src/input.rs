//! Input: the semantic actions the player can express, the per-frame action
//! state (pressed / held / released), and the rebindable action map.

use crate::plugin::Plugin;
use vstd::prelude::*;

verus! {

/// Every player intent the input system can express.
#[derive(Debug, Clone, Copy, PartialEq, Eq, Hash, Structural)]
pub enum Action {
    MoveUp,
    MoveDown,
    MoveLeft,
    MoveRight,
    AttackLight,
    AttackHeavy,
    Dodge,
    Guard,
    UseItem,
    CycleItemLeft,
    CycleItemRight,
    LockOn,
    Interact,
    Cancel,
    DialogueAdvance,
    PauseMenu,
    Inventory,
    /// Open the world map.
    OpenMap,
    DevConsole,
}

/// Whether an action was just pressed, held, or just released.
#[derive(Debug, Clone, Copy, PartialEq, Eq, Structural)]
pub enum ActionKind {
    Pressed,
    Held,
    Released,
}

/// An action event emitted by the input system each frame.
#[derive(Debug, Clone, Copy)]
pub struct ActionEvent {
    pub action: Action,
    pub kind: ActionKind,
}

/// The views of a list of key names.
pub open spec fn key_names(v: Seq<String>) -> Seq<Seq<char>> {
    v.map_values(|k: String| k@)
}

/// A set of actions.
struct ActionSet {
    items: Vec<Action>,
}

impl ActionSet {
    spec fn view(&self) -> Set<Action> {
        self.items@.to_set()
    }

    fn new() -> (s: Self)
        ensures
            s.view() == Set::<Action>::empty(),
    {
        let s = ActionSet { items: Vec::new() };
        assert(s.view() =~= Set::<Action>::empty());
        s
    }

    fn contains(&self, a: Action) -> (b: bool)
        ensures
            b == self.view().contains(a),
    {
        let mut i: usize = 0;
        while i < self.items.len()
            invariant
                i <= self.items@.len(),
                forall|j: int| 0 <= j < i ==> self.items@[j] != a,
            decreases self.items@.len() - i,
        {
            if self.items[i] == a {
                assert(self.items@.contains(a));
                return true;
            }
            i = i + 1;
        }
        false
    }

    fn insert(&mut self, a: Action)
        ensures
            final(self).view() == old(self).view().insert(a),
    {
        if !self.contains(a) {
            let ghost prev = self.items@;
            self.items.push(a);
            proof {
                assert(self.items@.to_set() =~= prev.to_set().insert(a)) by {
                    assert forall|x: Action| #[trigger] self.items@.to_set().contains(x)
                        == prev.to_set().insert(a).contains(x) by {
                        if prev.contains(x) {
                            let i = choose|i: int| 0 <= i < prev.len() && prev[i] == x;
                            assert(self.items@[i] == x);
                        }
                        if self.items@.contains(x) && x != a {
                            let i = choose|i: int| 0 <= i < self.items@.len() && self.items@[i] == x;
                            assert(prev[i] == x);
                        }
                        if x == a {
                            assert(self.items@[prev.len() as int] == a);
                        }
                    }
                }
            }
        } else {
            assert(self.view().insert(a) =~= self.view());
        }
    }

    fn remove(&mut self, a: Action)
        ensures
            final(self).view() == old(self).view().remove(a),
    {
        let ghost prev = self.items@;
        let mut kept: Vec<Action> = Vec::new();
        let mut i: usize = 0;
        while i < self.items.len()
            invariant
                i <= self.items@.len(),
                self.items@ == prev,
                forall|x: Action| #[trigger] kept@.contains(x) <==> (x != a && exists|j: int| 0 <= j < i && prev[j] == x),
            decreases self.items@.len() - i,
        {
            let x = self.items[i];
            if x != a {
                let ghost before = kept@;
                kept.push(x);
                proof {
                    assert forall|y: Action| #[trigger] kept@.contains(y) <==> (y != a && exists|j: int| 0 <= j < i + 1 && prev[j] == y) by {
                        if kept@.contains(y) && y != x {
                            let k = choose|k: int| 0 <= k < kept@.len() && kept@[k] == y;
                            assert(before[k] == y);
                            assert(before.contains(y));
                        }
                        if y == x { assert(kept@[before.len() as int] == x); assert(prev[i as int] == x); }
                        if y != a && (exists|j: int| 0 <= j < i + 1 && prev[j] == y) && y != x {
                            let j = choose|j: int| 0 <= j < i + 1 && prev[j] == y;
                            assert(j < i);
                            assert(before.contains(y));
                            let k = choose|k: int| 0 <= k < before.len() && before[k] == y;
                            assert(kept@[k] == y);
                        }
                    }
                }
            } else {
                proof {
                    assert forall|y: Action| #[trigger] kept@.contains(y) <==> (y != a && exists|j: int| 0 <= j < i + 1 && prev[j] == y) by {
                        if y != a && (exists|j: int| 0 <= j < i + 1 && prev[j] == y) {
                            let j = choose|j: int| 0 <= j < i + 1 && prev[j] == y;
                            assert(j < i);
                        }
                    }
                }
            }
            i = i + 1;
        }
        self.items = kept;
        proof {
            assert forall|x: Action| #[trigger] self.items@.to_set().contains(x) == prev.to_set().remove(a).contains(x) by {
                if prev.contains(x) {
                    let j = choose|j: int| 0 <= j < prev.len() && prev[j] == x;
                }
            }
            assert(self.items@.to_set() =~= prev.to_set().remove(a));
        }
    }

    fn clear(&mut self)
        ensures
            final(self).view() == Set::<Action>::empty(),
    {
        self.items = Vec::new();
        assert(self.view() =~= Set::<Action>::empty());
    }
}

/// The abstract per-frame action state.
pub ghost struct ActionState {
    pub just_pressed: Set<Action>,
    pub held: Set<Action>,
    pub just_released: Set<Action>,
}

/// The state after `a` is activated: it is "just pressed" only if it was not
/// already held.
pub open spec fn after_press(s: ActionState, a: Action) -> ActionState {
    ActionState {
        just_pressed: if s.held.contains(a) { s.just_pressed } else { s.just_pressed.insert(a) },
        held: s.held.insert(a),
        just_released: s.just_released,
    }
}

/// The state after `a` is deactivated.
pub open spec fn after_release(s: ActionState, a: Action) -> ActionState {
    ActionState { just_pressed: s.just_pressed, held: s.held.remove(a), just_released: s.just_released.insert(a) }
}

/// The state at the start of a new frame: transitions of the last frame are
/// forgotten, held actions stay held.
pub open spec fn after_begin_frame(s: ActionState) -> ActionState {
    ActionState { just_pressed: Set::empty(), held: s.held, just_released: Set::empty() }
}

/// Snapshot of which actions are active this frame, and the raw keys held.
pub struct InputState {
    just_pressed: ActionSet,
    held: ActionSet,
    just_released: ActionSet,
    keys_held: Vec<String>,
}

impl View for InputState {
    type V = ActionState;

    closed spec fn view(&self) -> ActionState {
        ActionState {
            just_pressed: self.just_pressed.view(),
            held: self.held.view(),
            just_released: self.just_released.view(),
        }
    }
}

impl InputState {
    #[verifier::type_invariant]
    spec fn keys_listed_once(self) -> bool {
        key_names(self.keys_held@).no_duplicates()
    }

    /// The raw keys held, by name.
    pub closed spec fn keys(&self) -> Set<Seq<char>> {
        key_names(self.keys_held@).to_set()
    }

    /// An empty state: nothing pressed, held, released, or down.
    pub fn new() -> (s: Self)
        ensures
            s@ == (ActionState { just_pressed: Set::empty(), held: Set::empty(), just_released: Set::empty() }),
            s.keys() == Set::<Seq<char>>::empty(),
    {
        let s = InputState {
            just_pressed: ActionSet::new(),
            held: ActionSet::new(),
            just_released: ActionSet::new(),
            keys_held: Vec::new(),
        };
        assert(s.keys() =~= Set::<Seq<char>>::empty());
        s
    }

    /// Start a new frame: forget last frame's presses and releases.
    pub fn begin_frame(&mut self)
        ensures
            final(self)@ == after_begin_frame(old(self)@),
            final(self).keys() == old(self).keys(),
    {
        proof { use_type_invariant(&*self); }
        {
            let mut set = ActionSet::new();
            std::mem::swap(&mut set, &mut self.just_pressed);
            set.clear();
            self.just_pressed = set;
        }
        {
            let mut set = ActionSet::new();
            std::mem::swap(&mut set, &mut self.just_released);
            set.clear();
            self.just_released = set;
        }
    }

    /// Record a key-down event.
    pub fn key_down(&mut self, key: String)
        ensures
            final(self)@ == old(self)@,
            final(self).keys() == old(self).keys().insert(key@),
    {
        proof { use_type_invariant(&*self); }
        let mut i: usize = 0;
        while i < self.keys_held.len()
            invariant
                i <= self.keys_held@.len(),
                forall|j: int| 0 <= j < i ==> self.keys_held@[j]@ != key@,
            decreases self.keys_held@.len() - i,
        {
            if self.keys_held[i] == key {
                proof {
                    let pv = key_names(self.keys_held@);
                    assert(pv[i as int] == key@);
                    assert(pv.to_set().insert(key@) =~= pv.to_set());
                }
                return;
            }
            i = i + 1;
        }
        let mut keys: Vec<String> = Vec::new();
        std::mem::swap(&mut keys, &mut self.keys_held);
        let ghost prev = keys@;
        keys.push(key);
        proof {
            let pv = key_names(prev);
            let nv = key_names(keys@);
            assert(nv =~= pv.push(key@));
            assert(!pv.contains(key@)) by {
                if pv.contains(key@) {
                    let j = choose|j: int| 0 <= j < pv.len() && pv[j] == key@;
                    assert(prev[j]@ == key@);
                }
            }
            assert(nv.no_duplicates()) by {
                assert forall|a: int, b: int| 0 <= a < nv.len() && 0 <= b < nv.len() && a != b implies nv[a] != nv[b] by {
                    if a < pv.len() && b < pv.len() {
                        assert(nv[a] == pv[a] && nv[b] == pv[b]);
                    } else if a == pv.len() {
                        assert(nv[b] == pv[b]);
                        assert(pv.contains(pv[b]));
                    } else {
                        assert(nv[a] == pv[a]);
                        assert(pv.contains(pv[a]));
                    }
                }
            }
            assert forall|x: Seq<char>| #[trigger] nv.to_set().contains(x) == pv.to_set().insert(key@).contains(x) by {
                if pv.contains(x) {
                    let i = choose|i: int| 0 <= i < pv.len() && pv[i] == x;
                    assert(nv[i] == x);
                }
                if nv.contains(x) && x != key@ {
                    let i = choose|i: int| 0 <= i < nv.len() && nv[i] == x;
                    assert(pv[i] == x);
                }
                if x == key@ { assert(nv[pv.len() as int] == x); }
            }
            assert(nv.to_set() =~= pv.to_set().insert(key@));
        }
        self.keys_held = keys;
    }

    /// Record a key-up event.
    pub fn key_up(&mut self, key: &String)
        ensures
            final(self)@ == old(self)@,
            final(self).keys() == old(self).keys().remove(key@),
    {
        proof { use_type_invariant(&*self); }
        let ghost prev = key_names(self.keys_held@);
        let mut kept: Vec<String> = Vec::new();
        let mut i: usize = 0;
        while i < self.keys_held.len()
            invariant
                i <= self.keys_held@.len(),
                prev == key_names(self.keys_held@),
                prev.no_duplicates(),
                key_names(kept@).no_duplicates(),
                forall|x: Seq<char>| #[trigger] key_names(kept@).contains(x)
                    <==> (x != key@ && exists|j: int| 0 <= j < i && prev[j] == x),
            decreases self.keys_held@.len() - i,
        {
            let ghost before = key_names(kept@);
            if self.keys_held[i] != *key {
                kept.push(self.keys_held[i].clone());
                proof {
                    let now = key_names(kept@);
                    let x = prev[i as int];
                    assert(now =~= before.push(x));
                    assert(!before.contains(x)) by {
                        if before.contains(x) {
                            let j = choose|j: int| 0 <= j < i && prev[j] == x;
                        }
                    }
                    assert(now.no_duplicates()) by {
                        assert forall|a: int, b: int| 0 <= a < now.len() && 0 <= b < now.len() && a != b implies now[a] != now[b] by {
                            if a < before.len() && b < before.len() {
                                assert(now[a] == before[a] && now[b] == before[b]);
                            } else if a == before.len() {
                                assert(now[b] == before[b]);
                            } else {
                                assert(now[a] == before[a]);
                            }
                        }
                    }
                    assert forall|y: Seq<char>| #[trigger] now.contains(y)
                        <==> (y != key@ && exists|j: int| 0 <= j < i + 1 && prev[j] == y) by {
                        if now.contains(y) && y != x {
                            let k = choose|k: int| 0 <= k < now.len() && now[k] == y;
                            assert(before[k] == y);
                            assert(before.contains(y));
                        }
                        if y == x { assert(now[before.len() as int] == x); }
                        if y != key@ && (exists|j: int| 0 <= j < i + 1 && prev[j] == y) && y != x {
                            let j = choose|j: int| 0 <= j < i + 1 && prev[j] == y;
                            assert(j < i);
                            assert(before.contains(y));
                            let k = choose|k: int| 0 <= k < before.len() && before[k] == y;
                            assert(now[k] == y);
                        }
                    }
                }
            } else {
                proof {
                    assert forall|y: Seq<char>| #[trigger] before.contains(y)
                        <==> (y != key@ && exists|j: int| 0 <= j < i + 1 && prev[j] == y) by {
                        if y != key@ && (exists|j: int| 0 <= j < i + 1 && prev[j] == y) {
                            let j = choose|j: int| 0 <= j < i + 1 && prev[j] == y;
                            assert(j < i);
                        }
                    }
                }
            }
            i = i + 1;
        }
        self.keys_held = kept;
        proof {
            let now = key_names(self.keys_held@);
            assert forall|x: Seq<char>| #[trigger] now.to_set().contains(x) == prev.to_set().remove(key@).contains(x) by {
                if prev.contains(x) {
                    let j = choose|j: int| 0 <= j < prev.len() && prev[j] == x;
                }
            }
            assert(now.to_set() =~= prev.to_set().remove(key@));
        }
    }

    /// Mark an action as activated this frame.
    pub fn press(&mut self, action: Action)
        ensures
            final(self)@ == after_press(old(self)@, action),
            final(self).keys() == old(self).keys(),
    {
        proof { use_type_invariant(&*self); }
        if !self.held.contains(action) {
            let mut set = ActionSet::new();
            std::mem::swap(&mut set, &mut self.just_pressed);
            set.insert(action);
            self.just_pressed = set;
        }
        {
            let mut set = ActionSet::new();
            std::mem::swap(&mut set, &mut self.held);
            set.insert(action);
            self.held = set;
        }
    }

    /// Mark an action as deactivated this frame.
    pub fn release(&mut self, action: Action)
        ensures
            final(self)@ == after_release(old(self)@, action),
            final(self).keys() == old(self).keys(),
    {
        proof { use_type_invariant(&*self); }
        {
            let mut set = ActionSet::new();
            std::mem::swap(&mut set, &mut self.held);
            set.remove(action);
            self.held = set;
        }
        {
            let mut set = ActionSet::new();
            std::mem::swap(&mut set, &mut self.just_released);
            set.insert(action);
            self.just_released = set;
        }
    }

    /// `true` if the action was activated for the first time this frame.
    pub fn just_pressed(&self, action: Action) -> (b: bool)
        ensures
            b == self@.just_pressed.contains(action),
    {
        self.just_pressed.contains(action)
    }

    /// `true` if the action is currently active.
    pub fn held(&self, action: Action) -> (b: bool)
        ensures
            b == self@.held.contains(action),
    {
        self.held.contains(action)
    }

    /// `true` if the action was released this frame.
    pub fn just_released(&self, action: Action) -> (b: bool)
        ensures
            b == self@.just_released.contains(action),
    {
        self.just_released.contains(action)
    }

    /// The names of the raw keys held, each once.
    pub fn keys_held(&self) -> (v: &Vec<String>)
        ensures
            key_names(v@).to_set() == self.keys(),
            key_names(v@).no_duplicates(),
    {
        proof { use_type_invariant(self); }
        &self.keys_held
    }

    /// `true` if any action is currently held.
    pub fn any_held(&self) -> (b: bool)
        ensures
            b == (self@.held != Set::<Action>::empty()),
    {
        let b = self.held.items.len() > 0;
        proof {
            if b {
                assert(self.held.items@.to_set().contains(self.held.items@[0]));
            } else {
                assert(self.held.items@.to_set() =~= Set::<Action>::empty());
            }
        }
        b
    }

    /// All currently held actions.
    pub fn held_actions(&self) -> (v: Vec<Action>)
        ensures
            v@.to_set() == self@.held,
    {
        self.held.items.clone()
    }
}

/// A press on a frame where the action was idle is a "just pressed" hold;
/// at the next frame it is still held but no longer "just pressed", also if
/// the device reports it again; a release ends the hold and is visible as
/// "just released" for that frame.
pub proof fn lemma_press_hold_release(s: ActionState, a: Action)
    requires
        !s.held.contains(a),
    ensures
        after_press(s, a).just_pressed.contains(a),
        after_press(s, a).held.contains(a),
        !after_press(after_begin_frame(after_press(s, a)), a).just_pressed.contains(a),
        after_press(after_begin_frame(after_press(s, a)), a).held.contains(a),
        after_release(after_begin_frame(after_press(s, a)), a).just_released.contains(a),
        !after_release(after_begin_frame(after_press(s, a)), a).held.contains(a),
{
}

/// Actions are independent, and each event does exactly its own part: a
/// press holds the action and marks it just pressed unless it was held
/// already, leaving its release mark; a release ends the hold and marks it
/// just released, leaving its press mark; a new frame forgets every press
/// and release mark and keeps what is held. No event touches another action.
pub proof fn lemma_action_events(s: ActionState, a: Action, b: Action)
    requires
        a != b,
    ensures
        after_press(s, a).held.contains(a),
        after_press(s, a).just_pressed.contains(a) == (s.just_pressed.contains(a) || !s.held.contains(a)),
        after_press(s, a).just_released.contains(a) == s.just_released.contains(a),
        !after_release(s, a).held.contains(a),
        after_release(s, a).just_released.contains(a),
        after_release(s, a).just_pressed.contains(a) == s.just_pressed.contains(a),
        after_press(s, a).held.contains(b) == s.held.contains(b),
        after_press(s, a).just_pressed.contains(b) == s.just_pressed.contains(b),
        after_press(s, a).just_released.contains(b) == s.just_released.contains(b),
        after_release(s, a).held.contains(b) == s.held.contains(b),
        after_release(s, a).just_pressed.contains(b) == s.just_pressed.contains(b),
        after_release(s, a).just_released.contains(b) == s.just_released.contains(b),
        after_begin_frame(s).held == s.held,
        !after_begin_frame(s).just_pressed.contains(a),
        !after_begin_frame(s).just_released.contains(a),
{
}

/// A physical input source that can be bound to an [`Action`].
#[derive(Debug, Clone)]
pub enum Binding {
    /// A keyboard key, by the name of its key code (e.g. `"KeyW"`).
    Key(String),
    /// A mouse button (0 = left, 1 = right, 2 = middle).
    MouseButton(u32),
    /// A gamepad button (SDL-style index).
    GamepadButton(u32),
    /// A gamepad axis threshold; `threshold_bits` is the bit pattern of the
    /// `f32` threshold.
    GamepadAxis { axis: u32, positive: bool, threshold_bits: u32 },
}

impl Binding {
    /// A keyboard binding for the key code named `name`.
    pub fn key_named(name: String) -> (b: Self)
        ensures
            b matches Binding::Key(n) && n@ == name@,
    {
        Binding::Key(name)
    }

    /// `true` if this is a keyboard binding for the key code named `name`.
    pub fn matches_key_name(&self, name: &str) -> (r: bool)
        ensures
            r == (self matches Binding::Key(n) && n@ == name@),
    {
        match self {
            Binding::Key(n) => {
                let wanted = name.to_owned();
                *n == wanted
            },
            _ => false,
        }
    }

    /// A gamepad button binding.
    pub fn gamepad(button: u32) -> (b: Self)
        ensures
            b == Binding::GamepadButton(button),
    {
        Binding::GamepadButton(button)
    }
}

/// Index of the first entry for `a`, if any.
pub open spec fn action_index(entries: Seq<(Action, Vec<Binding>)>, a: Action) -> Option<int> {
    if exists|i: int| 0 <= i < entries.len() && entries[i].0 == a {
        Some(choose|i: int| 0 <= i < entries.len() && entries[i].0 == a && forall|j: int| 0 <= j < i ==> entries[j].0 != a)
    } else {
        None
    }
}

proof fn lemma_action_index_is(entries: Seq<(Action, Vec<Binding>)>, a: Action, i: int)
    requires
        0 <= i < entries.len(),
        entries[i].0 == a,
        forall|j: int| 0 <= j < i ==> entries[j].0 != a,
    ensures
        action_index(entries, a) == Some(i),
{
    let c = choose|c: int| 0 <= c < entries.len() && entries[c].0 == a && forall|j: int| 0 <= j < c ==> entries[j].0 != a;
    assert(0 <= i < entries.len() && entries[i].0 == a && forall|j: int| 0 <= j < i ==> entries[j].0 != a);
    assert(c == i);
}

/// The bindings per action that a list of entries denotes (first entry wins).
pub open spec fn bindings_map(entries: Seq<(Action, Vec<Binding>)>) -> Map<Action, Seq<Binding>> {
    Map::new(
        |a: Action| action_index(entries, a) is Some,
        |a: Action| entries[action_index(entries, a)->0].1@,
    )
}

/// Total number of bindings in a list of entries.
pub open spec fn total_bindings(entries: Seq<(Action, Vec<Binding>)>) -> int
    decreases entries.len(),
{
    if entries.len() == 0 { 0 } else { total_bindings(entries.drop_last()) + entries.last().1@.len() }
}


/// The entries of `entries` whose action is not `a`, in order.
pub open spec fn filter_out(entries: Seq<(Action, Vec<Binding>)>, a: Action) -> Seq<(Action, Vec<Binding>)>
    decreases entries.len(),
{
    if entries.len() == 0 {
        entries
    } else {
        let rest = filter_out(entries.drop_last(), a);
        if entries.last().0 != a { rest.push(entries.last()) } else { rest }
    }
}

proof fn lemma_action_index_props(entries: Seq<(Action, Vec<Binding>)>, a: Action)
    ensures
        action_index(entries, a) matches Some(i) ==> (0 <= i < entries.len() && entries[i].0 == a
            && forall|j: int| 0 <= j < i ==> entries[j].0 != a),
        action_index(entries, a) is None ==> forall|j: int| 0 <= j < entries.len() ==> entries[j].0 != a,
{
    if exists|i: int| 0 <= i < entries.len() && entries[i].0 == a {
        let w = choose|i: int| 0 <= i < entries.len() && entries[i].0 == a;
        lemma_least_action(entries, a, w);
    }
}

proof fn lemma_least_action(entries: Seq<(Action, Vec<Binding>)>, a: Action, w: int)
    requires
        0 <= w < entries.len(),
        entries[w].0 == a,
    ensures
        exists|i: int| 0 <= i < entries.len() && entries[i].0 == a && forall|j: int| 0 <= j < i ==> entries[j].0 != a,
    decreases w,
{
    if exists|j: int| 0 <= j < w && entries[j].0 == a {
        let j = choose|j: int| 0 <= j < w && entries[j].0 == a;
        lemma_least_action(entries, a, j);
    } else {
        assert(0 <= w < entries.len() && entries[w].0 == a && forall|j: int| 0 <= j < w ==> entries[j].0 != a);
    }
}

/// Appending an entry only matters for an action that had none.
proof fn lemma_bindings_push(entries: Seq<(Action, Vec<Binding>)>, e: (Action, Vec<Binding>))
    ensures
        bindings_map(entries.push(e)) == (if action_index(entries, e.0) is Some {
            bindings_map(entries)
        } else {
            bindings_map(entries).insert(e.0, e.1@)
        }),
{
    let w = entries.push(e);
    let m1 = bindings_map(w);
    let m2 = if action_index(entries, e.0) is Some { bindings_map(entries) } else { bindings_map(entries).insert(e.0, e.1@) };
    assert forall|k: Action| #[trigger] m1.contains_key(k) == m2.contains_key(k) && (m1.contains_key(k) ==> m1[k] == m2[k]) by {
        lemma_action_index_props(entries, k);
        lemma_action_index_props(w, k);
        match action_index(entries, k) {
            Some(i) => {
                assert(w[i] == entries[i]);
                assert forall|j: int| 0 <= j < i implies w[j].0 != k by { assert(w[j] == entries[j]); }
                lemma_action_index_is(w, k, i);
            },
            None => {
                if e.0 == k {
                    assert forall|j: int| 0 <= j < entries.len() implies w[j].0 != k by { assert(w[j] == entries[j]); }
                    lemma_action_index_is(w, k, entries.len() as int);
                } else {
                    assert forall|j: int| 0 <= j < w.len() implies w[j].0 != k by {
                        if j < entries.len() { assert(w[j] == entries[j]); }
                    }
                }
            },
        }
    }
    assert(m1 =~= m2);
}

/// Replacing the first entry of an action replaces that action's bindings.
proof fn lemma_bindings_update(entries: Seq<(Action, Vec<Binding>)>, i: int, e: (Action, Vec<Binding>))
    requires
        action_index(entries, e.0) == Some(i),
    ensures
        bindings_map(entries.update(i, e)) == bindings_map(entries).insert(e.0, e.1@),
{
    lemma_action_index_props(entries, e.0);
    let w = entries.update(i, e);
    let m1 = bindings_map(w);
    let m2 = bindings_map(entries).insert(e.0, e.1@);
    assert forall|k: Action| #[trigger] m1.contains_key(k) == m2.contains_key(k) && (m1.contains_key(k) ==> m1[k] == m2[k]) by {
        lemma_action_index_props(entries, k);
        match action_index(entries, k) {
            Some(j) => {
                assert forall|l: int| 0 <= l < j implies w[l].0 != k by {}
                lemma_action_index_is(w, k, j);
            },
            None => {
                assert(k != e.0);
                assert forall|l: int| 0 <= l < w.len() implies w[l].0 != k by {}
                lemma_action_index_props(w, k);
            },
        }
    }
    assert(m1 =~= m2);
}

/// Dropping every entry of an action removes that action.
proof fn lemma_filter_out_map(entries: Seq<(Action, Vec<Binding>)>, a: Action)
    ensures
        bindings_map(filter_out(entries, a)) == bindings_map(entries).remove(a),
    decreases entries.len(),
{
    if entries.len() == 0 {
        assert(bindings_map(entries) =~= Map::<Action, Seq<Binding>>::empty());
        assert(bindings_map(entries).remove(a) =~= Map::<Action, Seq<Binding>>::empty());
    } else {
        let s = entries.drop_last();
        let e = entries.last();
        assert(entries =~= s.push(e));
        lemma_filter_out_map(s, a);
        lemma_bindings_push(s, e);
        let f = filter_out(s, a);
        if e.0 != a {
            lemma_bindings_push(f, e);
            lemma_action_index_props(f, e.0);
            lemma_action_index_props(s, e.0);
            assert(bindings_map(f).contains_key(e.0) == bindings_map(s).contains_key(e.0));
            assert(bindings_map(filter_out(entries, a)) =~= bindings_map(entries).remove(a));
        } else {
            assert(bindings_map(filter_out(entries, a)) =~= bindings_map(entries).remove(a));
        }
    }
}

/// Replacing an entry changes the total by the difference in its size.
proof fn lemma_total_update(entries: Seq<(Action, Vec<Binding>)>, i: int, e: (Action, Vec<Binding>))
    requires
        0 <= i < entries.len(),
    ensures
        total_bindings(entries.update(i, e)) == total_bindings(entries) - entries[i].1@.len() + e.1@.len(),
    decreases entries.len(),
{
    let w = entries.update(i, e);
    if i == entries.len() - 1 {
        assert(w.drop_last() =~= entries.drop_last());
    } else {
        lemma_total_update(entries.drop_last(), i, e);
        assert(w.drop_last() =~= entries.drop_last().update(i, e));
    }
}

/// A prefix holds no more bindings than the whole.
proof fn lemma_total_prefix_le(entries: Seq<(Action, Vec<Binding>)>, k: int)
    requires
        0 <= k <= entries.len(),
    ensures
        total_bindings(entries.subrange(0, k)) <= total_bindings(entries),
    decreases entries.len(),
{
    if k < entries.len() {
        assert(entries.drop_last().subrange(0, k) =~= entries.subrange(0, k));
        lemma_total_prefix_le(entries.drop_last(), k);
    } else {
        assert(entries.subrange(0, k) =~= entries);
    }
}

/// Maps actions to one or more physical bindings (primary first).
#[derive(Clone)]
pub struct InputMap {
    bindings: Vec<(Action, Vec<Binding>)>,
}

impl View for InputMap {
    type V = Map<Action, Seq<Binding>>;

    closed spec fn view(&self) -> Map<Action, Seq<Binding>> {
        bindings_map(self.bindings@)
    }
}

impl InputMap {
    /// Total number of bindings across all actions.
    pub closed spec fn count(&self) -> int {
        total_bindings(self.bindings@)
    }

    /// A map with no bindings.
    pub fn empty() -> (m: Self)
        ensures
            m@ == Map::<Action, Seq<Binding>>::empty(),
            m.count() == 0,
    {
        let m = InputMap { bindings: Vec::new() };
        assert(m@ =~= Map::<Action, Seq<Binding>>::empty());
        m
    }

    fn find(&self, action: Action) -> (r: Option<usize>)
        ensures
            match r {
                Some(i) => action_index(self.bindings@, action) == Some(i as int) && i < self.bindings@.len(),
                None => action_index(self.bindings@, action) is None,
            },
    {
        let mut i: usize = 0;
        while i < self.bindings.len()
            invariant
                i <= self.bindings@.len(),
                forall|j: int| 0 <= j < i ==> self.bindings@[j].0 != action,
            decreases self.bindings@.len() - i,
        {
            if self.bindings[i].0 == action {
                proof { lemma_action_index_is(self.bindings@, action, i as int); }
                return Some(i);
            }
            i = i + 1;
        }
        None
    }

    /// Add a binding for an action, after the ones it already has.
    pub fn bind(&mut self, action: Action, binding: Binding) -> (r: &mut Self)
        ensures
            r@ == old(self)@.insert(
                action,
                if old(self)@.contains_key(action) { old(self)@[action].push(binding) } else { seq![binding] },
            ),
            r.count() == old(self).count() + 1,
            *final(self) == *final(r),
    {
        self.add_binding(action, binding);
        self
    }

    #[verifier::rlimit(60)]
    #[verifier::spinoff_prover]
    fn add_binding(&mut self, action: Action, binding: Binding)
        ensures
            final(self)@ == old(self)@.insert(
                action,
                if old(self)@.contains_key(action) { old(self)@[action].push(binding) } else { seq![binding] },
            ),
            final(self).count() == old(self).count() + 1,
    {
        let ghost old_entries = self.bindings@;
        match self.find(action) {
            Some(i) => {
                let (a, mut list) = self.bindings.remove(i);
                let ghost old_list = list@;
                list.push(binding);
                self.bindings.insert(i, (a, list));
                proof {
                    lemma_action_index_props(old_entries, action);
                    let ne = self.bindings@;
                    assert(ne =~= old_entries.update(i as int, ne[i as int]));
                    lemma_bindings_update(old_entries, i as int, ne[i as int]);
                    lemma_total_update(old_entries, i as int, ne[i as int]);
                    assert(bindings_map(old_entries)[action] == old_list);
                }
            },
            None => {
                let mut list: Vec<Binding> = Vec::new();
                list.push(binding);
                self.bindings.push((action, list));
                proof {
                    let ne = self.bindings@;
                    assert(ne =~= old_entries.push(ne.last()));
                    assert(ne.drop_last() =~= old_entries);
                    lemma_bindings_push(old_entries, ne.last());
                    assert(ne.last().1@ =~= seq![binding]);
                }
            },
        }
    }

    /// Replace all bindings of an action.
    pub fn rebind(&mut self, action: Action, bindings: Vec<Binding>)
        ensures
            final(self)@ == old(self)@.insert(action, bindings@),
    {
        let ghost old_entries = self.bindings@;
        match self.find(action) {
            Some(i) => {
                self.bindings.set(i, (action, bindings));
                proof { lemma_bindings_update(old_entries, i as int, self.bindings@[i as int]); }
            },
            None => {
                self.bindings.push((action, bindings));
                proof { lemma_bindings_push(old_entries, self.bindings@.last()); }
            },
        }
    }

    /// Remove all bindings of an action.
    pub fn unbind(&mut self, action: Action)
        ensures
            final(self)@ == old(self)@.remove(action),
    {
        let mut src_list: Vec<(Action, Vec<Binding>)> = Vec::new();
        std::mem::swap(&mut src_list, &mut self.bindings);
        let ghost src = src_list@;
        let mut kept: Vec<(Action, Vec<Binding>)> = Vec::new();
        let ghost mut i: int = 0;
        while src_list.len() > 0
            invariant
                0 <= i <= src.len(),
                src_list@ == src.subrange(i, src.len() as int),
                kept@ == filter_out(src.subrange(0, i), action),
            decreases src_list@.len(),
        {
            let e = src_list.remove(0);
            proof {
                assert(e == src[i]);
                assert(src.subrange(0, i + 1).drop_last() =~= src.subrange(0, i));
                assert(src.subrange(0, i + 1).last() == src[i]);
            }
            if e.0 != action {
                kept.push(e);
            }
            proof {
                i = i + 1;
                assert(src_list@ =~= src.subrange(i, src.len() as int));
            }
        }
        proof {
            assert(src.subrange(0, i) =~= src);
            lemma_filter_out_map(src, action);
        }
        self.bindings = kept;
    }

    /// All bindings of an action (empty if it has none).
    pub fn get(&self, action: &Action) -> (r: &[Binding])
        ensures
            r@ == (if self@.contains_key(*action) { self@[*action] } else { Seq::<Binding>::empty() }),
    {
        match self.find(*action) {
            Some(i) => self.bindings[i].1.as_slice(),
            None => &[],
        }
    }

    /// Total number of bindings across all actions.
    pub fn binding_count(&self) -> (n: usize)
        requires
            self.count() <= usize::MAX,
        ensures
            n == self.count(),
    {
        let mut total: usize = 0;
        let mut i: usize = 0;
        while i < self.bindings.len()
            invariant
                i <= self.bindings@.len(),
                total == total_bindings(self.bindings@.subrange(0, i as int)),
                total_bindings(self.bindings@) <= usize::MAX,
            decreases self.bindings@.len() - i,
        {
            proof {
                assert(self.bindings@.subrange(0, i + 1).drop_last() =~= self.bindings@.subrange(0, i as int));
                lemma_total_prefix_le(self.bindings@, i + 1);
            }
            total = total + self.bindings[i].1.len();
            i = i + 1;
        }
        proof { assert(self.bindings@.subrange(0, i as int) =~= self.bindings@); }
        total
    }

    /// The key names each action is bound to by default, primary first.
    pub open spec fn default_keys(a: Action) -> Seq<Seq<char>> {
        match a {
            Action::MoveUp => seq!["KeyW"@, "ArrowUp"@],
            Action::MoveDown => seq!["KeyS"@, "ArrowDown"@],
            Action::MoveLeft => seq!["KeyA"@, "ArrowLeft"@],
            Action::MoveRight => seq!["KeyD"@, "ArrowRight"@],
            Action::AttackLight => seq!["KeyZ"@],
            Action::AttackHeavy => seq!["KeyX"@],
            Action::Dodge => seq!["Space"@],
            Action::Guard => seq!["ShiftLeft"@],
            Action::UseItem => seq!["KeyQ"@],
            Action::CycleItemLeft => seq!["BracketLeft"@],
            Action::CycleItemRight => seq!["BracketRight"@],
            Action::LockOn => seq!["KeyR"@],
            Action::Interact => seq!["KeyE"@],
            Action::Cancel => seq!["Escape"@],
            Action::DialogueAdvance => seq!["KeyZ"@],
            Action::PauseMenu => seq!["Escape"@],
            Action::Inventory => seq!["KeyI"@],
            Action::OpenMap => seq!["KeyM"@],
            Action::DevConsole => seq!["Backquote"@],
        }
    }

    /// The default keyboard bindings: WASD with arrow keys for movement, and
    /// one key per combat, interaction, menu and debug action.
    #[verifier::spinoff_prover]
    pub fn default_bindings() -> (m: Self)
        ensures
            m.count() == 23,
            forall|a: Action| #[trigger] m@.contains_key(a),
            forall|a: Action| #[trigger] m@[a].len() == Self::default_keys(a).len(),
            forall|a: Action, i: int| 0 <= i < Self::default_keys(a).len() ==>
                (#[trigger] m@[a][i] matches Binding::Key(n) && n@ == Self::default_keys(a)[i]),
    {
        let mut entries: Vec<(Action, Vec<Binding>)> = Vec::new();
        entries.push((Action::MoveUp, key_bindings2("KeyW", "ArrowUp")));
        entries.push((Action::MoveDown, key_bindings2("KeyS", "ArrowDown")));
        entries.push((Action::MoveLeft, key_bindings2("KeyA", "ArrowLeft")));
        entries.push((Action::MoveRight, key_bindings2("KeyD", "ArrowRight")));
        entries.push((Action::AttackLight, key_bindings1("KeyZ")));
        entries.push((Action::AttackHeavy, key_bindings1("KeyX")));
        entries.push((Action::Dodge, key_bindings1("Space")));
        entries.push((Action::Guard, key_bindings1("ShiftLeft")));
        entries.push((Action::UseItem, key_bindings1("KeyQ")));
        entries.push((Action::CycleItemLeft, key_bindings1("BracketLeft")));
        entries.push((Action::CycleItemRight, key_bindings1("BracketRight")));
        entries.push((Action::LockOn, key_bindings1("KeyR")));
        entries.push((Action::Interact, key_bindings1("KeyE")));
        entries.push((Action::Cancel, key_bindings1("Escape")));
        entries.push((Action::DialogueAdvance, key_bindings1("KeyZ")));
        entries.push((Action::PauseMenu, key_bindings1("Escape")));
        entries.push((Action::Inventory, key_bindings1("KeyI")));
        entries.push((Action::OpenMap, key_bindings1("KeyM")));
        entries.push((Action::DevConsole, key_bindings1("Backquote")));
        let m = InputMap { bindings: entries };
        proof {
            let e = m.bindings@;
            assert forall|a: Action| #[trigger] action_index(e, a) is Some
                && e[action_index(e, a)->0].0 == a
                && e[action_index(e, a)->0].1@.len() == Self::default_keys(a).len()
                && forall|i: int| 0 <= i < Self::default_keys(a).len() ==>
                    (#[trigger] e[action_index(e, a)->0].1@[i] matches Binding::Key(n) && n@ == Self::default_keys(a)[i]) by {
                match a {
                Action::MoveUp => lemma_action_index_is(e, a, 0),
                Action::MoveDown => lemma_action_index_is(e, a, 1),
                Action::MoveLeft => lemma_action_index_is(e, a, 2),
                Action::MoveRight => lemma_action_index_is(e, a, 3),
                Action::AttackLight => lemma_action_index_is(e, a, 4),
                Action::AttackHeavy => lemma_action_index_is(e, a, 5),
                Action::Dodge => lemma_action_index_is(e, a, 6),
                Action::Guard => lemma_action_index_is(e, a, 7),
                Action::UseItem => lemma_action_index_is(e, a, 8),
                Action::CycleItemLeft => lemma_action_index_is(e, a, 9),
                Action::CycleItemRight => lemma_action_index_is(e, a, 10),
                Action::LockOn => lemma_action_index_is(e, a, 11),
                Action::Interact => lemma_action_index_is(e, a, 12),
                Action::Cancel => lemma_action_index_is(e, a, 13),
                Action::DialogueAdvance => lemma_action_index_is(e, a, 14),
                Action::PauseMenu => lemma_action_index_is(e, a, 15),
                Action::Inventory => lemma_action_index_is(e, a, 16),
                Action::OpenMap => lemma_action_index_is(e, a, 17),
                Action::DevConsole => lemma_action_index_is(e, a, 18),
                }
            }
            reveal_with_fuel(total_bindings, 20);
        }
        m
    }
}

/// A list holding one key binding.
fn key_bindings1(a: &str) -> (v: Vec<Binding>)
    ensures
        v@.len() == 1,
        v@[0] matches Binding::Key(n) && n@ == a@,
{
    let mut v: Vec<Binding> = Vec::new();
    v.push(Binding::key_named(a.to_owned()));
    v
}

/// A list holding two key bindings, in order.
fn key_bindings2(a: &str, b: &str) -> (v: Vec<Binding>)
    ensures
        v@.len() == 2,
        v@[0] matches Binding::Key(n) && n@ == a@,
        v@[1] matches Binding::Key(n) && n@ == b@,
{
    let mut v: Vec<Binding> = Vec::new();
    v.push(Binding::key_named(a.to_owned()));
    v.push(Binding::key_named(b.to_owned()));
    v
}

/// The default keys: movement on WASD first and the arrow keys second;
/// light attack Z, heavy attack X, dodge Space, guard left Shift, use item Q,
/// cycle items with the brackets, lock on R; interact E, cancel Escape,
/// advance dialogue Z; pause Escape, inventory I, map M; developer console
/// the backquote.
pub proof fn lemma_default_keys()
    ensures
        InputMap::default_keys(Action::MoveUp) == seq!["KeyW"@, "ArrowUp"@],
        InputMap::default_keys(Action::MoveDown) == seq!["KeyS"@, "ArrowDown"@],
        InputMap::default_keys(Action::MoveLeft) == seq!["KeyA"@, "ArrowLeft"@],
        InputMap::default_keys(Action::MoveRight) == seq!["KeyD"@, "ArrowRight"@],
        InputMap::default_keys(Action::AttackLight) == seq!["KeyZ"@],
        InputMap::default_keys(Action::AttackHeavy) == seq!["KeyX"@],
        InputMap::default_keys(Action::Dodge) == seq!["Space"@],
        InputMap::default_keys(Action::Guard) == seq!["ShiftLeft"@],
        InputMap::default_keys(Action::UseItem) == seq!["KeyQ"@],
        InputMap::default_keys(Action::CycleItemLeft) == seq!["BracketLeft"@],
        InputMap::default_keys(Action::CycleItemRight) == seq!["BracketRight"@],
        InputMap::default_keys(Action::LockOn) == seq!["KeyR"@],
        InputMap::default_keys(Action::Interact) == seq!["KeyE"@],
        InputMap::default_keys(Action::Cancel) == seq!["Escape"@],
        InputMap::default_keys(Action::DialogueAdvance) == seq!["KeyZ"@],
        InputMap::default_keys(Action::PauseMenu) == seq!["Escape"@],
        InputMap::default_keys(Action::Inventory) == seq!["KeyI"@],
        InputMap::default_keys(Action::OpenMap) == seq!["KeyM"@],
        InputMap::default_keys(Action::DevConsole) == seq!["Backquote"@],
{
}

/// Registers the input state and the action map.
pub struct InputPlugin {
    /// Initial key bindings to load at startup.
    pub map: InputMap,
}

impl Default for InputPlugin {
    /// Start with the default key bindings.
    fn default() -> (p: Self)
        ensures
            p.map.count() == 23,
            forall|a: Action| #[trigger] p.map@.contains_key(a),
            forall|a: Action| #[trigger] p.map@[a].len() == InputMap::default_keys(a).len(),
            forall|a: Action, i: int| 0 <= i < InputMap::default_keys(a).len() ==>
                (#[trigger] p.map@[a][i] matches Binding::Key(n) && n@ == InputMap::default_keys(a)[i]),
    {
        InputPlugin { map: InputMap::default_bindings() }
    }
}

impl Plugin for InputPlugin {
    /// The name this plugin reports.
    open spec fn spec_name(&self) -> Seq<char> {
        "gur_input"@
    }

    /// The plugin's unique name.
    fn name(&self) -> (n: &'static str)
        ensures
            n@ == "gur_input"@,
    {
        "gur_input"
    }
}

} // verus!
