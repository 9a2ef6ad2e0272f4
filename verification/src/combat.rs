//! Combat configuration (resolution mode, weapon classes), stat modifier
//! stacks, and the per-entity action queue.

use crate::plugin::Plugin;
use vstd::prelude::*;

verus! {

/// Whether combat resolves actions in real time or in turn order.
#[derive(Debug, Clone, Copy, PartialEq, Eq, Structural)]
pub enum CombatMode {
    /// Actions resolve immediately, time-based.
    RealTime,
    /// Turn order, initiative-based.
    TurnBased,
}

/// Broad category of weapon — affects animation set and move options.
#[derive(Debug, Clone, Copy, PartialEq, Eq, Structural)]
pub enum WeaponClass {
    Dagger,
    Sword,
    Greatsword,
    Spear,
    Axe,
    Staff,
    Bow,
    Fist,
}

/// A combat intention queued by a player or AI controller. `V` is the 2D
/// direction type and `F` the charge type; the queue never looks inside them.
#[derive(Debug, Clone)]
pub enum CombatAction<V, F> {
    /// A light attack in a direction.
    AttackLight { direction: V },
    /// A heavy, charged attack in a direction.
    AttackHeavy { direction: V, charge: F },
    /// A dodge roll in a direction (grants i-frames).
    Dodge { direction: V },
    /// Raise guard / parry window.
    Guard,
    /// Use a consumable item.
    UseItem { item_id: String },
    /// Do nothing this turn.
    Wait,
}

/// Turn-based priority of an action (higher executes first).
pub open spec fn action_priority<V, F>(a: CombatAction<V, F>) -> int {
    match a {
        CombatAction::Dodge { .. } => 100,
        CombatAction::Guard => 80,
        CombatAction::AttackLight { .. } => 50,
        CombatAction::AttackHeavy { .. } => 30,
        CombatAction::UseItem { .. } => 20,
        CombatAction::Wait => 0,
    }
}

impl<V, F> CombatAction<V, F> {
    /// Priority value for turn-based ordering (higher = executes first).
    pub fn priority(&self) -> (p: i32)
        ensures
            p == action_priority(*self),
    {
        match self {
            CombatAction::Dodge { .. } => 100,
            CombatAction::Guard => 80,
            CombatAction::AttackLight { .. } => 50,
            CombatAction::AttackHeavy { .. } => 30,
            CombatAction::UseItem { .. } => 20,
            CombatAction::Wait => 0,
        }
    }
}

/// Turn order: a dodge goes before a guard, a guard before a light attack,
/// a light attack before a heavy one, a heavy attack before using an item,
/// and waiting comes last with priority zero.
pub proof fn lemma_turn_order<V, F>(dir: V, charge: F, item: String)
    ensures
        action_priority(CombatAction::<V, F>::Dodge { direction: dir }) > action_priority(CombatAction::<V, F>::Guard),
        action_priority(CombatAction::<V, F>::Guard) > action_priority(CombatAction::<V, F>::AttackLight { direction: dir }),
        action_priority(CombatAction::<V, F>::AttackLight { direction: dir })
            > action_priority(CombatAction::<V, F>::AttackHeavy { direction: dir, charge }),
        action_priority(CombatAction::<V, F>::AttackHeavy { direction: dir, charge })
            > action_priority(CombatAction::<V, F>::UseItem { item_id: item }),
        action_priority(CombatAction::<V, F>::UseItem { item_id: item }) > action_priority(CombatAction::<V, F>::Wait),
        action_priority(CombatAction::<V, F>::Wait) == 0,
{
}

/// `true` if `i` is the last position holding the highest priority in `q`
/// (the action a turn-based pop takes).
pub open spec fn is_priority_pick<V, F>(q: Seq<CombatAction<V, F>>, i: int) -> bool {
    &&& 0 <= i < q.len()
    &&& forall|j: int| 0 <= j < q.len() ==> action_priority(#[trigger] q[j]) <= action_priority(q[i])
    &&& forall|j: int| i < j < q.len() ==> action_priority(#[trigger] q[j]) < action_priority(q[i])
}

/// A single buff or debuff applied to a stat. `K` says how it changes the
/// value; the stack never looks inside it.
pub struct StatModifier<K> {
    /// Tag used to remove it (e.g. `"frost_slow"`).
    pub tag: String,
    /// How this modifier changes the value.
    pub kind: K,
    /// Remaining duration in fixed steps; `None` = permanent until removed.
    pub duration: Option<u32>,
}

impl<K> StatModifier<K> {
    /// A modifier that stays until it is removed.
    pub fn permanent(tag: String, kind: K) -> (m: Self)
        ensures
            m.tag@ == tag@,
            m.kind == kind,
            m.duration is None,
    {
        StatModifier { tag, kind, duration: None }
    }

    /// A modifier that lasts `steps` fixed steps.
    pub fn timed(tag: String, kind: K, steps: u32) -> (m: Self)
        ensures
            m.tag@ == tag@,
            m.kind == kind,
            m.duration == Some(steps),
    {
        StatModifier { tag, kind, duration: Some(steps) }
    }
}

/// The modifiers of `s` whose tag is not `tag`, in order.
pub open spec fn without_tag<K>(s: Seq<StatModifier<K>>, tag: Seq<char>) -> Seq<StatModifier<K>>
    decreases s.len(),
{
    if s.len() == 0 {
        s
    } else {
        let rest = without_tag(s.drop_last(), tag);
        if s.last().tag@ != tag { rest.push(s.last()) } else { rest }
    }
}

/// A modifier one step later: a timed one has one step less (never below
/// zero).
pub open spec fn aged<K>(m: StatModifier<K>) -> StatModifier<K> {
    match m.duration {
        Some(d) => StatModifier { duration: Some(if d == 0 { 0 } else { (d - 1) as u32 }), ..m },
        None => m,
    }
}

/// `true` if a modifier is still in force: permanent, or with steps left.
pub open spec fn in_force<K>(m: StatModifier<K>) -> bool {
    match m.duration {
        Some(d) => d > 0,
        None => true,
    }
}

/// The modifiers of `s` one step later, with the expired ones dropped.
pub open spec fn ticked_modifiers<K>(s: Seq<StatModifier<K>>) -> Seq<StatModifier<K>>
    decreases s.len(),
{
    if s.len() == 0 {
        s
    } else {
        let rest = ticked_modifiers(s.drop_last());
        if in_force(aged(s.last())) { rest.push(aged(s.last())) } else { rest }
    }
}

/// The active modifiers of one stat, oldest first.
pub struct ModifierStack<K> {
    modifiers: Vec<StatModifier<K>>,
}

impl<K> ModifierStack<K> {
    /// The modifiers, oldest first.
    pub closed spec fn entries(&self) -> Seq<StatModifier<K>> {
        self.modifiers@
    }

    /// An empty stack.
    pub fn new() -> (s: Self)
        ensures
            s.entries() == Seq::<StatModifier<K>>::empty(),
    {
        ModifierStack { modifiers: Vec::new() }
    }

    /// Add a modifier to the stack.
    pub fn push(&mut self, modifier: StatModifier<K>)
        ensures
            final(self).entries() == old(self).entries().push(modifier),
    {
        self.modifiers.push(modifier);
    }

    /// The modifiers, oldest first (to compute a stat's effective value).
    pub fn modifiers(&self) -> (v: &[StatModifier<K>])
        ensures
            v@ == self.entries(),
    {
        self.modifiers.as_slice()
    }

    /// Remove every modifier with the given tag.
    pub fn remove(&mut self, tag: &str)
        ensures
            final(self).entries() == without_tag(old(self).entries(), tag@),
    {
        let mut rest: Vec<StatModifier<K>> = Vec::new();
        std::mem::swap(&mut rest, &mut self.modifiers);
        let ghost orig = rest@;
        let n = rest.len();
        let wanted = tag.to_owned();
        let mut kept: Vec<StatModifier<K>> = Vec::new();
        let mut k: usize = 0;
        while rest.len() > 0
            invariant
                orig.len() == n,
                k + rest@.len() == orig.len(),
                rest@ == orig.subrange(k as int, orig.len() as int),
                kept@ == without_tag(orig.subrange(0, k as int), tag@),
                wanted@ == tag@,
            decreases rest@.len(),
        {
            let m = rest.remove(0);
            proof {
                assert(orig.subrange(0, k + 1).drop_last() =~= orig.subrange(0, k as int));
                assert(orig.subrange(0, k + 1).last() == m);
            }
            if m.tag != wanted {
                kept.push(m);
            }
            k = k + 1;
            proof {
                assert(rest@ =~= orig.subrange(k as int, orig.len() as int));
            }
        }
        proof { assert(orig.subrange(0, k as int) =~= orig); }
        self.modifiers = kept;
    }

    /// Count down every timed modifier by one step, dropping those that run
    /// out; permanent ones stay.
    pub fn tick(&mut self)
        ensures
            final(self).entries() == ticked_modifiers(old(self).entries()),
    {
        let mut rest: Vec<StatModifier<K>> = Vec::new();
        std::mem::swap(&mut rest, &mut self.modifiers);
        let ghost orig = rest@;
        let n = rest.len();
        let mut kept: Vec<StatModifier<K>> = Vec::new();
        let mut k: usize = 0;
        while rest.len() > 0
            invariant
                orig.len() == n,
                k + rest@.len() == orig.len(),
                rest@ == orig.subrange(k as int, orig.len() as int),
                kept@ == ticked_modifiers(orig.subrange(0, k as int)),
            decreases rest@.len(),
        {
            let m = rest.remove(0);
            proof {
                assert(orig.subrange(0, k + 1).drop_last() =~= orig.subrange(0, k as int));
                assert(orig.subrange(0, k + 1).last() == m);
            }
            let StatModifier { tag, kind, duration } = m;
            match duration {
                Some(d) => {
                    let left = d.saturating_sub(1);
                    if left > 0 {
                        kept.push(StatModifier { tag, kind, duration: Some(left) });
                    }
                },
                None => {
                    kept.push(StatModifier { tag, kind, duration: None });
                },
            }
            k = k + 1;
            proof {
                assert(rest@ =~= orig.subrange(k as int, orig.len() as int));
            }
        }
        proof { assert(orig.subrange(0, k as int) =~= orig); }
        self.modifiers = kept;
    }
}

/// A modifier timed for `n` steps is in force for exactly its first `n - 1`
/// ticks and is dropped by the `n`-th; a permanent one is never dropped.
pub proof fn lemma_modifier_lifetime<K>(m: StatModifier<K>)
    ensures
        m.duration is None ==> in_force(aged(m)) && aged(m) == m,
        m.duration matches Some(d) ==> (d > 1 ==> in_force(aged(m)) && aged(m).duration == Some((d - 1) as u32)),
        m.duration matches Some(d) ==> (d <= 1 ==> !in_force(aged(m))),
{
}

/// Removing a tag removes every modifier with that tag and no other: none
/// with the tag is left, and a stack without it is left as it is.
pub proof fn lemma_remove_tag<K>(s: Seq<StatModifier<K>>, tag: Seq<char>)
    ensures
        forall|i: int| 0 <= i < without_tag(s, tag).len() ==> (#[trigger] without_tag(s, tag)[i]).tag@ != tag,
        without_tag(s, tag).len() <= s.len(),
        (forall|i: int| 0 <= i < s.len() ==> (#[trigger] s[i]).tag@ != tag) ==> without_tag(s, tag) == s,
    decreases s.len(),
{
    if s.len() > 0 {
        lemma_remove_tag(s.drop_last(), tag);
        if forall|i: int| 0 <= i < s.len() ==> (#[trigger] s[i]).tag@ != tag {
            assert forall|i: int| 0 <= i < s.drop_last().len() implies (#[trigger] s.drop_last()[i]).tag@ != tag by {
                assert(s.drop_last()[i] == s[i]);
            }
            assert(s.last() == s[s.len() - 1]);
            assert(s.drop_last().push(s.last()) =~= s);
        }
    }
}

/// Per-entity action queue.
pub struct ActionQueue<V, F> {
    queue: std::collections::VecDeque<CombatAction<V, F>>,
}

impl<V, F> ActionQueue<V, F> {
    /// The pending actions, oldest first.
    pub closed spec fn pending(&self) -> Seq<CombatAction<V, F>> {
        self.queue@
    }

    /// An empty queue.
    pub fn new() -> (q: Self)
        ensures
            q.pending() == Seq::<CombatAction<V, F>>::empty(),
    {
        ActionQueue { queue: std::collections::VecDeque::new() }
    }

    /// Queue an action.
    pub fn push(&mut self, action: CombatAction<V, F>)
        ensures
            final(self).pending() == old(self).pending().push(action),
    {
        self.queue.push_back(action);
    }

    /// Take the oldest action (real-time processing).
    pub fn pop(&mut self) -> (r: Option<CombatAction<V, F>>)
        ensures
            old(self).pending().len() == 0 ==> r is None && final(self).pending() == old(self).pending(),
            old(self).pending().len() > 0 ==> r == Some(old(self).pending()[0])
                && final(self).pending() == old(self).pending().drop_first(),
    {
        self.queue.pop_front()
    }

    /// Take the highest-priority action (turn-based processing); among equal
    /// priorities, the most recently queued one.
    pub fn pop_priority(&mut self) -> (r: Option<CombatAction<V, F>>)
        ensures
            old(self).pending().len() == 0 ==> r is None && final(self).pending() == old(self).pending(),
            old(self).pending().len() > 0 ==> exists|i: int| #[trigger] is_priority_pick(old(self).pending(), i)
                && r == Some(old(self).pending()[i])
                && final(self).pending() == old(self).pending().remove(i),
    {
        let n = self.queue.len();
        if n == 0 {
            return None;
        }
        let ghost q = self.queue@;
        let mut best: usize = 0;
        let mut best_p: i32 = self.queue[0].priority();
        let mut i: usize = 1;
        while i < n
            invariant
                n == q.len(),
                self.queue@ == q,
                1 <= i <= n,
                best < i,
                best_p == action_priority(q[best as int]),
                is_priority_pick(q.subrange(0, i as int), best as int),
            decreases n - i,
        {
            let p = self.queue[i].priority();
            let ghost prev = q.subrange(0, i as int);
            let ghost next = q.subrange(0, i + 1);
            if p >= best_p {
                best = i;
                best_p = p;
            }
            proof {
                assert forall|j: int| 0 <= j < next.len() implies action_priority(#[trigger] next[j]) <= action_priority(next[best as int]) by {
                    if j < i { assert(next[j] == prev[j]); }
                }
                assert forall|j: int| best < j < next.len() implies action_priority(#[trigger] next[j]) < action_priority(next[best as int]) by {
                    if j < i { assert(next[j] == prev[j]); }
                }
            }
            i = i + 1;
        }
        proof { assert(q.subrange(0, n as int) =~= q); }
        self.queue.remove(best)
    }

    /// Discard all queued actions.
    pub fn clear(&mut self)
        ensures
            final(self).pending() == Seq::<CombatAction<V, F>>::empty(),
    {
        self.queue.clear();
    }

    /// `true` if no action is pending.
    pub fn is_empty(&self) -> (b: bool)
        ensures
            b == (self.pending().len() == 0),
    {
        self.queue.len() == 0
    }
}

/// The turn-based pick is well defined: exactly one position qualifies in a
/// non-empty queue.
pub proof fn lemma_priority_pick_unique<V, F>(q: Seq<CombatAction<V, F>>, i: int, j: int)
    requires
        is_priority_pick(q, i),
        is_priority_pick(q, j),
    ensures
        i == j,
{
    if i < j {
        assert(action_priority(q[j]) < action_priority(q[i]));
        assert(action_priority(q[i]) <= action_priority(q[j]));
    } else if j < i {
        assert(action_priority(q[i]) < action_priority(q[j]));
        assert(action_priority(q[j]) <= action_priority(q[i]));
    }
}

/// Configures and registers the combat systems.
pub struct CombatPlugin {
    /// Real-time or turn-based mode.
    pub mode: CombatMode,
}

impl Default for CombatPlugin {
    /// Real-time combat.
    fn default() -> (p: Self)
        ensures
            p.mode == CombatMode::RealTime,
    {
        CombatPlugin { mode: CombatMode::RealTime }
    }
}

impl Plugin for CombatPlugin {
    /// The name this plugin reports.
    open spec fn spec_name(&self) -> Seq<char> {
        "gur_combat"@
    }

    /// The plugin's unique name.
    fn name(&self) -> (n: &'static str)
        ensures
            n@ == "gur_combat"@,
    {
        "gur_combat"
    }
}

} // verus!
