//! System scheduler — organises game systems into named stages that run in a
//! fixed order each frame.
//!
//! Standard order: PreUpdate → Input → FixedUpdate → Update → PostUpdate →
//! Render → Debug. A stage runs its active systems in registration order and
//! stops at the first that fails, returning its error.

use crate::error::EngineError;
use vstd::prelude::*;

verus! {

/// Named execution stage within a single frame.
#[derive(Debug)]
pub enum SystemStage {
    PreUpdate,
    Input,
    FixedUpdate,
    Update,
    PostUpdate,
    Render,
    Debug,
    /// Custom stage with a user-provided name.
    Custom(String),
}

/// The abstract value of a stage.
pub ghost enum StageId {
    PreUpdate,
    Input,
    FixedUpdate,
    Update,
    PostUpdate,
    Render,
    Debug,
    Custom(Seq<char>),
}

/// The name a stage is known by (used in error messages).
pub open spec fn stage_name(s: StageId) -> Seq<char> {
    match s {
        StageId::PreUpdate => "PreUpdate"@,
        StageId::Input => "Input"@,
        StageId::FixedUpdate => "FixedUpdate"@,
        StageId::Update => "Update"@,
        StageId::PostUpdate => "PostUpdate"@,
        StageId::Render => "Render"@,
        StageId::Debug => "Debug"@,
        StageId::Custom(n) => n,
    }
}

impl View for SystemStage {
    type V = StageId;

    open spec fn view(&self) -> StageId {
        match self {
            SystemStage::PreUpdate => StageId::PreUpdate,
            SystemStage::Input => StageId::Input,
            SystemStage::FixedUpdate => StageId::FixedUpdate,
            SystemStage::Update => StageId::Update,
            SystemStage::PostUpdate => StageId::PostUpdate,
            SystemStage::Render => StageId::Render,
            SystemStage::Debug => StageId::Debug,
            SystemStage::Custom(n) => StageId::Custom(n@),
        }
    }
}

impl SystemStage {
    /// The name of this stage.
    pub fn name(&self) -> (n: &str)
        ensures
            n@ == stage_name(self@),
    {
        match self {
            SystemStage::PreUpdate => "PreUpdate",
            SystemStage::Input => "Input",
            SystemStage::FixedUpdate => "FixedUpdate",
            SystemStage::Update => "Update",
            SystemStage::PostUpdate => "PostUpdate",
            SystemStage::Render => "Render",
            SystemStage::Debug => "Debug",
            SystemStage::Custom(n) => n.as_str(),
        }
    }

    /// `true` if both denote the same stage.
    pub fn same_as(&self, other: &SystemStage) -> (b: bool)
        ensures
            b == (self@ == other@),
    {
        match self {
            SystemStage::PreUpdate => match other { SystemStage::PreUpdate => true, _ => false },
            SystemStage::Input => match other { SystemStage::Input => true, _ => false },
            SystemStage::FixedUpdate => match other { SystemStage::FixedUpdate => true, _ => false },
            SystemStage::Update => match other { SystemStage::Update => true, _ => false },
            SystemStage::PostUpdate => match other { SystemStage::PostUpdate => true, _ => false },
            SystemStage::Render => match other { SystemStage::Render => true, _ => false },
            SystemStage::Debug => match other { SystemStage::Debug => true, _ => false },
            SystemStage::Custom(a) => match other {
                SystemStage::Custom(b) => *a == *b,
                _ => false,
            },
        }
    }

    /// A copy of this stage.
    pub fn duplicate(&self) -> (c: SystemStage)
        ensures
            c@ == self@,
    {
        match self {
            SystemStage::PreUpdate => SystemStage::PreUpdate,
            SystemStage::Input => SystemStage::Input,
            SystemStage::FixedUpdate => SystemStage::FixedUpdate,
            SystemStage::Update => SystemStage::Update,
            SystemStage::PostUpdate => SystemStage::PostUpdate,
            SystemStage::Render => SystemStage::Render,
            SystemStage::Debug => SystemStage::Debug,
            SystemStage::Custom(n) => SystemStage::Custom(n.clone()),
        }
    }
}

/// The standard stage order of a new schedule.
pub open spec fn standard_order() -> Seq<StageId> {
    seq![
        StageId::PreUpdate,
        StageId::Input,
        StageId::FixedUpdate,
        StageId::Update,
        StageId::PostUpdate,
        StageId::Render,
        StageId::Debug,
    ]
}

/// A registered system with its metadata.
struct SystemEntry<S> {
    label: String,
    active: bool,
    func: S,
}

/// The abstract value of a registered system.
pub ghost struct SystemInfo<S> {
    pub label: Seq<char>,
    pub active: bool,
    pub func: S,
}

/// The abstract value of a schedule: the stage order and, for each known
/// stage, its systems in registration order.
pub ghost struct ScheduleState<S> {
    pub order: Seq<StageId>,
    pub systems: Map<StageId, Seq<SystemInfo<S>>>,
}

/// Index of the first occurrence of `s` in `order`, if any.
pub open spec fn first_index(order: Seq<StageId>, s: StageId) -> Option<int> {
    if exists|i: int| 0 <= i < order.len() && order[i] == s {
        let i = choose|i: int|
            0 <= i < order.len() && order[i] == s && forall|j: int| 0 <= j < i ==> order[j] != s;
        Some(i)
    } else {
        None
    }
}

/// The stages that run before the first `Render` (the logic-only prefix).
pub open spec fn logic_prefix(order: Seq<StageId>) -> Seq<StageId> {
    match first_index(order, StageId::Render) {
        Some(i) => order.subrange(0, i),
        None => order,
    }
}

/// The functions of the active systems of a stage, in registration order.
pub open spec fn active_funcs<S>(entries: Seq<SystemInfo<S>>) -> Seq<S>
    decreases entries.len(),
{
    if entries.len() == 0 {
        Seq::empty()
    } else {
        let rest = active_funcs(entries.drop_last());
        if entries.last().active { rest.push(entries.last().func) } else { rest }
    }
}

/// The full frame schedule, generic over the system handle `S` it runs.
pub struct Schedule<S> {
    stage_order: Vec<SystemStage>,
    stages: Vec<(SystemStage, Vec<SystemEntry<S>>)>,
}


/// `first_index` picks the first occurrence.
pub proof fn lemma_first_index_is(order: Seq<StageId>, s: StageId, i: int)
    requires
        0 <= i < order.len(),
        order[i] == s,
        forall|j: int| 0 <= j < i ==> order[j] != s,
    ensures
        first_index(order, s) == Some(i),
{
    let c = choose|c: int|
        0 <= c < order.len() && order[c] == s && forall|j: int| 0 <= j < c ==> order[j] != s;
    assert(0 <= i < order.len() && order[i] == s && forall|j: int| 0 <= j < i ==> order[j] != s);
    assert(c == i);
}

/// `first_index` finds nothing when `s` does not occur.
pub proof fn lemma_first_index_none(order: Seq<StageId>, s: StageId)
    requires
        forall|j: int| 0 <= j < order.len() ==> order[j] != s,
    ensures
        first_index(order, s) is None,
{
}

/// The stage values of a stage list.
pub open spec fn stage_ids(v: Seq<SystemStage>) -> Seq<StageId> {
    v.map_values(|s: SystemStage| s@)
}

spec fn entry_info<S>(e: SystemEntry<S>) -> SystemInfo<S> {
    SystemInfo { label: e.label@, active: e.active, func: e.func }
}

spec fn entries_view<S>(v: Seq<SystemEntry<S>>) -> Seq<SystemInfo<S>> {
    v.map_values(|e: SystemEntry<S>| entry_info(e))
}

spec fn stage_keys<S>(v: Seq<(SystemStage, Vec<SystemEntry<S>>)>) -> Seq<StageId> {
    v.map_values(|p: (SystemStage, Vec<SystemEntry<S>>)| p.0@)
}

spec fn systems_map<S>(v: Seq<(SystemStage, Vec<SystemEntry<S>>)>) -> Map<StageId, Seq<SystemInfo<S>>> {
    Map::new(
        |k: StageId| first_index(stage_keys(v), k) is Some,
        |k: StageId| entries_view(v[first_index(stage_keys(v), k)->0].1@),
    )
}

/// `true` if no two systems of `entries` share a label.
pub open spec fn labels_unique<S>(entries: Seq<SystemInfo<S>>) -> bool {
    forall|i: int, j: int|
        0 <= i < entries.len() && 0 <= j < entries.len() && i != j ==> entries[i].label
            != entries[j].label
}

/// Index of the first system labelled `label`, if any.
pub open spec fn label_index<S>(entries: Seq<SystemInfo<S>>, label: Seq<char>) -> Option<int> {
    if exists|i: int| 0 <= i < entries.len() && entries[i].label == label {
        Some(
            choose|i: int|
                0 <= i < entries.len() && entries[i].label == label && forall|j: int|
                    0 <= j < i ==> entries[j].label != label,
        )
    } else {
        None
    }
}

proof fn lemma_label_index_is<S>(entries: Seq<SystemInfo<S>>, label: Seq<char>, i: int)
    requires
        0 <= i < entries.len(),
        entries[i].label == label,
        forall|j: int| 0 <= j < i ==> entries[j].label != label,
    ensures
        label_index(entries, label) == Some(i),
{
    let c = choose|c: int|
        0 <= c < entries.len() && entries[c].label == label && forall|j: int|
            0 <= j < c ==> entries[j].label != label;
    assert(0 <= i < entries.len() && entries[i].label == label && forall|j: int|
        0 <= j < i ==> entries[j].label != label);
    assert(c == i);
}

/// The state of a new schedule: the standard stages, each without systems.
pub open spec fn standard_schedule<S>() -> ScheduleState<S> {
    ScheduleState {
        order: standard_order(),
        systems: Map::new(
            |k: StageId| standard_order().contains(k),
            |k: StageId| Seq::<SystemInfo<S>>::empty(),
        ),
    }
}

impl<S> View for Schedule<S> {
    type V = ScheduleState<S>;

    closed spec fn view(&self) -> ScheduleState<S> {
        ScheduleState { order: stage_ids(self.stage_order@), systems: systems_map(self.stages@) }
    }
}

/// The unknown-stage error for `s`.
pub open spec fn is_unknown_stage<T>(r: Result<T, EngineError>, name: Seq<char>) -> bool {
    r matches Err(EngineError::UnknownStage(msg)) && msg@ == name
}

/// The name used when a labelled system is not found in a stage.
pub open spec fn system_path(stage: StageId, label: Seq<char>) -> Seq<char> {
    stage_name(stage) + "::"@ + label
}


/// Appending keeps the first occurrence of every value already present.
pub proof fn lemma_first_index_push(order: Seq<StageId>, x: StageId, k: StageId)
    ensures
        first_index(order.push(x), k) == (match first_index(order, k) {
            Some(i) => Some(i),
            None => if x == k { Some(order.len() as int) } else { None },
        }),
{
    let o2 = order.push(x);
    lemma_first_index_props(order, k);
    match first_index(order, k) {
        Some(i) => {
            assert forall|j: int| 0 <= j < i implies o2[j] != k by {
                assert(o2[j] == order[j]);
            }
            lemma_first_index_is(o2, k, i);
        },
        None => {
            if x == k {
                assert forall|j: int| 0 <= j < order.len() implies o2[j] != k by {
                    assert(o2[j] == order[j]);
                }
                lemma_first_index_is(o2, k, order.len() as int);
            } else {
                assert forall|j: int| 0 <= j < o2.len() implies o2[j] != k by {
                    if j < order.len() { assert(o2[j] == order[j]); }
                }
                lemma_first_index_none(o2, k);
            }
        },
    }
}

/// What `first_index` returns satisfies its defining property.
pub proof fn lemma_first_index_props(order: Seq<StageId>, k: StageId)
    ensures
        first_index(order, k) matches Some(i) ==> (0 <= i < order.len() && order[i] == k
            && forall|j: int| 0 <= j < i ==> order[j] != k),
        first_index(order, k) is None ==> forall|j: int| 0 <= j < order.len() ==> order[j] != k,
{
    if exists|i: int| 0 <= i < order.len() && order[i] == k {
        let w = choose|i: int| 0 <= i < order.len() && order[i] == k;
        lemma_least_index(order, k, w);
    }
}

proof fn lemma_least_index(order: Seq<StageId>, k: StageId, w: int)
    requires
        0 <= w < order.len(),
        order[w] == k,
    ensures
        exists|i: int| 0 <= i < order.len() && order[i] == k && forall|j: int| 0 <= j < i ==> order[j] != k,
    decreases w,
{
    if exists|j: int| 0 <= j < w && order[j] == k {
        let j = choose|j: int| 0 <= j < w && order[j] == k;
        lemma_least_index(order, k, j);
    } else {
        assert(0 <= w < order.len() && order[w] == k && forall|j: int| 0 <= j < w ==> order[j] != k);
    }
}

proof fn lemma_least_label<S>(entries: Seq<SystemInfo<S>>, label: Seq<char>, w: int)
    requires
        0 <= w < entries.len(),
        entries[w].label == label,
    ensures
        exists|i: int| 0 <= i < entries.len() && entries[i].label == label && forall|j: int| 0 <= j < i ==> entries[j].label != label,
    decreases w,
{
    if exists|j: int| 0 <= j < w && entries[j].label == label {
        let j = choose|j: int| 0 <= j < w && entries[j].label == label;
        lemma_least_label(entries, label, j);
    } else {
        assert(0 <= w < entries.len() && entries[w].label == label && forall|j: int| 0 <= j < w ==> entries[j].label != label);
    }
}

/// What `label_index` returns satisfies its defining property.
pub proof fn lemma_label_index_props<S>(entries: Seq<SystemInfo<S>>, label: Seq<char>)
    ensures
        label_index(entries, label) matches Some(i) ==> (0 <= i < entries.len() && entries[i].label == label
            && forall|j: int| 0 <= j < i ==> entries[j].label != label),
        label_index(entries, label) is None ==> forall|j: int| 0 <= j < entries.len() ==> entries[j].label != label,
{
    if exists|i: int| 0 <= i < entries.len() && entries[i].label == label {
        let w = choose|i: int| 0 <= i < entries.len() && entries[i].label == label;
        lemma_least_label(entries, label, w);
    }
}

/// Labels stay unique within a stage: registering a system under a label the
/// stage does not have yet (as `add_system` requires), or switching a system
/// on or off, keeps every label in the stage distinct.
pub proof fn lemma_labels_stay_unique<S>(entries: Seq<SystemInfo<S>>, info: SystemInfo<S>, k: int, active: bool)
    requires
        labels_unique(entries),
        label_index(entries, info.label) is None,
    ensures
        labels_unique(entries.push(info)),
        0 <= k < entries.len() ==> labels_unique(entries.update(k, SystemInfo { active, ..entries[k] })),
{
    lemma_label_index_props(entries, info.label);
    let p = entries.push(info);
    assert forall|i: int, j: int| 0 <= i < p.len() && 0 <= j < p.len() && i != j implies p[i].label != p[j].label by {
        if i < entries.len() && j < entries.len() {
            assert(p[i] == entries[i] && p[j] == entries[j]);
        }
    }
    if 0 <= k < entries.len() {
        let u = entries.update(k, SystemInfo { active, ..entries[k] });
        assert forall|i: int, j: int| 0 <= i < u.len() && 0 <= j < u.len() && i != j implies u[i].label != u[j].label by {
            assert(u[i].label == entries[i].label && u[j].label == entries[j].label);
        }
    }
}

/// Replacing the entry at `j` by one with the same stage replaces that stage's systems.
proof fn lemma_systems_map_update<S>(v: Seq<(SystemStage, Vec<SystemEntry<S>>)>, j: int, p: (SystemStage, Vec<SystemEntry<S>>))
    requires
        0 <= j < v.len(),
        first_index(stage_keys(v), p.0@) == Some(j),
    ensures
        systems_map(v.update(j, p)) == systems_map(v).insert(p.0@, entries_view(p.1@)),
{
    let keys = stage_keys(v);
    let w = v.update(j, p);
    lemma_first_index_props(keys, p.0@);
    assert(stage_keys(w) =~= keys);
    let m1 = systems_map(w);
    let m2 = systems_map(v).insert(p.0@, entries_view(p.1@));
    assert forall|k: StageId| #[trigger] m1.contains_key(k) == m2.contains_key(k) by {}
    assert forall|k: StageId| m1.contains_key(k) implies #[trigger] m1[k] == m2[k] by {
        lemma_first_index_props(keys, k);
        let i = first_index(keys, k)->0;
        if k != p.0@ {
            assert(i != j);
        }
    }
    assert(m1 =~= m2);
}

/// Appending an entry for a stage that has none adds that stage.
proof fn lemma_systems_map_push<S>(v: Seq<(SystemStage, Vec<SystemEntry<S>>)>, p: (SystemStage, Vec<SystemEntry<S>>))
    requires
        first_index(stage_keys(v), p.0@) is None,
    ensures
        systems_map(v.push(p)) == systems_map(v).insert(p.0@, entries_view(p.1@)),
{
    let keys = stage_keys(v);
    let w = v.push(p);
    assert(stage_keys(w) =~= keys.push(p.0@));
    let m1 = systems_map(w);
    let m2 = systems_map(v).insert(p.0@, entries_view(p.1@));
    assert forall|k: StageId| #[trigger] m1.contains_key(k) == m2.contains_key(k) by {
        lemma_first_index_push(keys, p.0@, k);
    }
    assert forall|k: StageId| m1.contains_key(k) implies #[trigger] m1[k] == m2[k] by {
        lemma_first_index_push(keys, p.0@, k);
        if k != p.0@ {
            let i = first_index(keys, k)->0;
            lemma_first_index_props(keys, k);
            assert(w[i] == v[i]);
        }
    }
    assert(m1 =~= m2);
}

/// Index of the first system labelled `label`.
fn find_label<S>(entries: &Vec<SystemEntry<S>>, label: &String) -> (r: Option<usize>)
    ensures
        match r {
            Some(k) => label_index(entries_view(entries@), label@) == Some(k as int),
            None => label_index(entries_view(entries@), label@) is None,
        },
{
    let ghost infos = entries_view(entries@);
    let mut k: usize = 0;
    while k < entries.len()
        invariant
            infos == entries_view(entries@),
            k <= entries@.len(),
            forall|i: int| 0 <= i < k ==> infos[i].label != label@,
        decreases entries@.len() - k,
    {
        if entries[k].label == *label {
            proof { lemma_label_index_is(infos, label@, k as int); }
            return Some(k);
        }
        k = k + 1;
    }
    proof { lemma_label_index_props(infos, label@); }
    None
}

impl<S> Schedule<S> {
    /// Index of the first stage entry for `stage` in the system table.
    fn find_stage(&self, stage: &SystemStage) -> (r: Option<usize>)
        ensures
            match r {
                Some(i) => first_index(stage_keys(self.stages@), stage@) == Some(i as int),
                None => first_index(stage_keys(self.stages@), stage@) is None,
            },
    {
        let ghost keys = stage_keys(self.stages@);
        let mut i: usize = 0;
        while i < self.stages.len()
            invariant
                i <= self.stages.len(),
                keys == stage_keys(self.stages@),
                forall|j: int| 0 <= j < i ==> keys[j] != stage@,
            decreases self.stages.len() - i,
        {
            if self.stages[i].0.same_as(stage) {
                proof { lemma_first_index_is(keys, stage@, i as int); }
                return Some(i);
            }
            i = i + 1;
        }
        proof { lemma_first_index_none(keys, stage@); }
        None
    }

    /// Create a schedule with the standard stage order and no systems.
    pub fn new() -> (sched: Self)
        ensures
            sched@ == standard_schedule::<S>(),
    {
        let stage_order = vec![
            SystemStage::PreUpdate,
            SystemStage::Input,
            SystemStage::FixedUpdate,
            SystemStage::Update,
            SystemStage::PostUpdate,
            SystemStage::Render,
            SystemStage::Debug,
        ];
        let mut stages: Vec<(SystemStage, Vec<SystemEntry<S>>)> = Vec::new();
        stages.push((SystemStage::PreUpdate, Vec::new()));
        stages.push((SystemStage::Input, Vec::new()));
        stages.push((SystemStage::FixedUpdate, Vec::new()));
        stages.push((SystemStage::Update, Vec::new()));
        stages.push((SystemStage::PostUpdate, Vec::new()));
        stages.push((SystemStage::Render, Vec::new()));
        stages.push((SystemStage::Debug, Vec::new()));
        let sched = Schedule { stage_order, stages };
        proof {
            let keys = stage_keys(sched.stages@);
            assert(keys =~= standard_order());
            assert(stage_ids(sched.stage_order@) =~= standard_order());
            assert forall|k: StageId| #[trigger] standard_order().contains(k) implies first_index(keys, k) is Some by {
                let i = choose|i: int| 0 <= i < standard_order().len() && standard_order()[i] == k;
                assert(keys[i] == k);
            }
            assert forall|k: StageId| first_index(keys, k) is Some implies #[trigger] standard_order().contains(k) by {
                let i = first_index(keys, k)->0;
                assert(keys[i] == k);
            }
            assert forall|k: StageId| first_index(keys, k) is Some implies
                #[trigger] entries_view(sched.stages@[first_index(keys, k)->0].1@) == Seq::<SystemInfo<S>>::empty() by {
                let i = first_index(keys, k)->0;
                assert(entries_view(sched.stages@[i].1@) =~= Seq::<SystemInfo<S>>::empty());
            }
            assert(sched@.systems =~= standard_schedule::<S>().systems);
        }
        sched
    }

    /// Position of the first occurrence of `stage` in the stage order.
    fn position(&self, stage: &SystemStage) -> (r: Option<usize>)
        ensures
            match r {
                Some(i) => first_index(self@.order, stage@) == Some(i as int),
                None => first_index(self@.order, stage@) is None,
            },
    {
        let ghost order = self@.order;
        let mut i: usize = 0;
        while i < self.stage_order.len()
            invariant
                i <= self.stage_order.len(),
                order == stage_ids(self.stage_order@),
                forall|j: int| 0 <= j < i ==> order[j] != stage@,
            decreases self.stage_order.len() - i,
        {
            if self.stage_order[i].same_as(stage) {
                proof { lemma_first_index_is(order, stage@, i as int); }
                return Some(i);
            }
            i = i + 1;
        }
        proof { lemma_first_index_none(order, stage@); }
        None
    }

    /// Give `stage` an empty system list: replaces the list of an existing
    /// entry, or adds a new entry.
    fn reset_stage(&mut self, stage: SystemStage)
        ensures
            final(self).stage_order@ == old(self).stage_order@,
            systems_map(final(self).stages@) == systems_map(old(self).stages@).insert(stage@, Seq::empty()),
    {
        let ghost old_stages = self.stages@;
        let ghost k0 = stage@;
        match self.find_stage(&stage) {
            Some(j) => {
                proof { lemma_first_index_props(stage_keys(old_stages), k0); }
                self.stages.set(j, (stage, Vec::new()));
                proof {
                    lemma_systems_map_update(old_stages, j as int, self.stages@[j as int]);
                    assert(entries_view(self.stages@[j as int].1@) =~= Seq::<SystemInfo<S>>::empty());
                }
            },
            None => {
                self.stages.push((stage, Vec::new()));
                proof {
                    lemma_systems_map_push(old_stages, self.stages@.last());
                    assert(entries_view(self.stages@.last().1@) =~= Seq::<SystemInfo<S>>::empty());
                    assert(self.stages@ =~= old_stages.push(self.stages@.last()));
                }
            },
        }
    }

    /// Insert a new stage immediately after the first occurrence of `after`.
    /// The new stage starts without systems.
    pub fn insert_stage_after(&mut self, after: &SystemStage, new_stage: SystemStage) -> (r: Result<(), EngineError>)
        ensures
            match first_index(old(self)@.order, after@) {
                None => is_unknown_stage(r, stage_name(after@)) && final(self)@ == old(self)@,
                Some(i) => r is Ok && final(self)@ == (ScheduleState {
                    order: old(self)@.order.insert(i + 1, new_stage@),
                    systems: old(self)@.systems.insert(new_stage@, Seq::empty()),
                }),
            },
    {
        match self.position(after) {
            None => {
                let name = after.name().to_owned();
                Err(EngineError::UnknownStage(name))
            },
            Some(pos) => {
                proof {
                    lemma_first_index_props(self@.order, after@);
                    assert(self@.order.len() == self.stage_order@.len());
                    assert((pos as int) < self.stage_order@.len());
                }
                let _n = self.stage_order.len();
                let copy = new_stage.duplicate();
                let ghost old_order = self.stage_order@;
                self.stage_order.insert(pos + 1, copy);
                proof {
                    assert(stage_ids(self.stage_order@) =~= stage_ids(old_order).insert(pos + 1, new_stage@));
                }
                self.reset_stage(new_stage);
                Ok(())
            },
        }
    }

    /// Register a system in `stage`, after the systems already there. It
    /// starts active. Labels within a stage must be unique (a programmer
    /// contract).
    pub fn add_system(&mut self, stage: SystemStage, label: String, func: S) -> (r: Result<(), EngineError>)
        requires
            old(self)@.systems.contains_key(stage@) ==> label_index(old(self)@.systems[stage@], label@) is None,
        ensures
            if old(self)@.systems.contains_key(stage@) {
                r is Ok && final(self)@ == (ScheduleState {
                    order: old(self)@.order,
                    systems: old(self)@.systems.insert(
                        stage@,
                        old(self)@.systems[stage@].push(SystemInfo { label: label@, active: true, func }),
                    ),
                })
            } else {
                is_unknown_stage(r, stage_name(stage@)) && final(self)@ == old(self)@
            },
    {
        match self.find_stage(&stage) {
            None => Err(EngineError::UnknownStage(stage.name().to_owned())),
            Some(j) => {
                let ghost old_stages = self.stages@;
                proof { lemma_first_index_props(stage_keys(old_stages), stage@); }
                let (st, mut entries) = self.stages.remove(j);
                let ghost old_entries = entries@;
                entries.push(SystemEntry { label, active: true, func });
                self.stages.insert(j, (st, entries));
                proof {
                    assert(self.stages@ =~= old_stages.update(j as int, self.stages@[j as int]));
                    lemma_systems_map_update(old_stages, j as int, self.stages@[j as int]);
                    assert(entries_view(self.stages@[j as int].1@) =~= entries_view(old_entries).push(
                        SystemInfo { label: label@, active: true, func },
                    ));
                }
                Ok(())
            },
        }
    }

    /// Enable or disable the first system labelled `label` in `stage`; a
    /// disabled system is skipped when the stage runs.
    pub fn set_system_active(&mut self, stage: &SystemStage, label: &str, active: bool) -> (r: Result<(), EngineError>)
        ensures
            if !old(self)@.systems.contains_key(stage@) {
                is_unknown_stage(r, stage_name(stage@)) && final(self)@ == old(self)@
            } else {
                match label_index(old(self)@.systems[stage@], label@) {
                    None => is_unknown_stage(r, system_path(stage@, label@)) && final(self)@ == old(self)@,
                    Some(k) => r is Ok && final(self)@ == (ScheduleState {
                        order: old(self)@.order,
                        systems: old(self)@.systems.insert(
                            stage@,
                            old(self)@.systems[stage@].update(
                                k,
                                SystemInfo { active, ..old(self)@.systems[stage@][k] },
                            ),
                        ),
                    }),
                }
            },
    {
        match self.find_stage(stage) {
            None => Err(EngineError::UnknownStage(stage.name().to_owned())),
            Some(j) => {
                let ghost old_stages = self.stages@;
                proof { lemma_first_index_props(stage_keys(old_stages), stage@); }
                let wanted = label.to_owned();
                let ghost infos = entries_view(self.stages@[j as int].1@);
                match find_label(&self.stages[j].1, &wanted) {
                    Some(k) => {
                        proof { lemma_label_index_props(infos, label@); }
                        let (st, mut entries) = self.stages.remove(j);
                        let e = entries.remove(k);
                        entries.insert(k, SystemEntry { label: e.label, active, func: e.func });
                        self.stages.insert(j, (st, entries));
                        proof {
                            assert(stage_keys(old_stages)[j as int] == old_stages[j as int].0@);
                            assert(self.stages@ =~= old_stages.update(j as int, self.stages@[j as int]));
                            lemma_systems_map_update(old_stages, j as int, self.stages@[j as int]);
                            assert(entries_view(self.stages@[j as int].1@) =~= infos.update(
                                k as int,
                                SystemInfo { active, ..infos[k as int] },
                            ));
                        }
                        return Ok(());
                    },
                    None => {},
                }
                let mut msg = stage.name().to_owned();
                msg.append("::");
                msg.append(label);
                proof { reveal_strlit("::"); }
                Err(EngineError::UnknownStage(msg))
            },
        }
    }

    /// The systems that run when `stage` runs: its active systems, in
    /// registration order.
    pub fn active_systems(&self, stage: &SystemStage) -> (r: Result<Vec<S>, EngineError>)
        where S: Copy
        ensures
            if self@.systems.contains_key(stage@) {
                r matches Ok(v) && v@ == active_funcs(self@.systems[stage@])
            } else {
                is_unknown_stage(r, stage_name(stage@))
            },
    {
        match self.find_stage(stage) {
            None => Err(EngineError::UnknownStage(stage.name().to_owned())),
            Some(j) => {
                proof { lemma_first_index_props(stage_keys(self.stages@), stage@); }
                let entries = &self.stages[j].1;
                let ghost infos = entries_view(entries@);
                let mut out: Vec<S> = Vec::new();
                let mut k: usize = 0;
                while k < entries.len()
                    invariant
                        infos == entries_view(entries@),
                        k <= entries@.len(),
                        out@ == active_funcs(infos.subrange(0, k as int)),
                    decreases entries@.len() - k,
                {
                    proof {
                        assert(infos.subrange(0, k + 1).drop_last() =~= infos.subrange(0, k as int));
                    }
                    if entries[k].active {
                        out.push(entries[k].func);
                    }
                    k = k + 1;
                }
                proof { assert(infos.subrange(0, entries@.len() as int) =~= infos); }
                Ok(out)
            },
        }
    }

    /// All stages, in execution order (what a full frame runs).
    pub fn run_order(&self) -> (v: Vec<SystemStage>)
        ensures
            stage_ids(v@) == self@.order,
    {
        let mut v: Vec<SystemStage> = Vec::new();
        let mut i: usize = 0;
        while i < self.stage_order.len()
            invariant
                i <= self.stage_order@.len(),
                stage_ids(v@) == stage_ids(self.stage_order@).subrange(0, i as int),
            decreases self.stage_order@.len() - i,
        {
            let ghost prev = v@;
            v.push(self.stage_order[i].duplicate());
            proof {
                assert(stage_ids(v@) =~= stage_ids(prev).push(self.stage_order@[i as int]@));
                assert(stage_ids(v@) =~= stage_ids(self.stage_order@).subrange(0, i + 1));
            }
            i = i + 1;
        }
        proof { assert(stage_ids(self.stage_order@).subrange(0, i as int) =~= stage_ids(self.stage_order@)); }
        v
    }

    /// The stages that run in a headless, logic-only frame: every stage
    /// before the first `Render`.
    pub fn logic_order(&self) -> (v: Vec<SystemStage>)
        ensures
            stage_ids(v@) == logic_prefix(self@.order),
    {
        let ghost order = self@.order;
        let mut v: Vec<SystemStage> = Vec::new();
        let mut i: usize = 0;
        while i < self.stage_order.len()
            invariant
                order == stage_ids(self.stage_order@),
                i <= self.stage_order@.len(),
                stage_ids(v@) == order.subrange(0, i as int),
                forall|j: int| 0 <= j < i ==> order[j] != StageId::Render,
            decreases self.stage_order@.len() - i,
        {
            if let SystemStage::Render = self.stage_order[i] {
                proof { lemma_first_index_is(order, StageId::Render, i as int); }
                return v;
            }
            let ghost prev = v@;
            v.push(self.stage_order[i].duplicate());
            proof {
                assert(stage_ids(v@) =~= stage_ids(prev).push(self.stage_order@[i as int]@));
                assert(stage_ids(v@) =~= order.subrange(0, i + 1));
            }
            i = i + 1;
        }
        proof {
            lemma_first_index_none(order, StageId::Render);
            assert(order.subrange(0, i as int) =~= order);
        }
        v
    }

    /// The names of the stages, in execution order.
    pub fn stage_names(&self) -> (v: Vec<&str>)
        ensures
            v@.map_values(|n: &str| n@) == self@.order.map_values(|s: StageId| stage_name(s)),
    {
        let ghost names = self@.order.map_values(|s: StageId| stage_name(s));
        let mut v: Vec<&str> = Vec::new();
        let mut i: usize = 0;
        while i < self.stage_order.len()
            invariant
                names == stage_ids(self.stage_order@).map_values(|s: StageId| stage_name(s)),
                i <= self.stage_order@.len(),
                v@.map_values(|n: &str| n@) == names.subrange(0, i as int),
            decreases self.stage_order@.len() - i,
        {
            let ghost prev = v@;
            v.push(self.stage_order[i].name());
            proof {
                assert(v@.map_values(|n: &str| n@) =~= prev.map_values(|n: &str| n@).push(stage_name(self.stage_order@[i as int]@)));
                assert(v@.map_values(|n: &str| n@) =~= names.subrange(0, i + 1));
            }
            i = i + 1;
        }
        proof { assert(names.subrange(0, i as int) =~= names); }
        v
    }
}



/// A disabled system is skipped: as far as a stage's run is concerned,
/// disabling the system at `k` is the same as never having registered it.
pub proof fn lemma_disabled_system_is_skipped<S>(entries: Seq<SystemInfo<S>>, k: int)
    requires
        0 <= k < entries.len(),
    ensures
        active_funcs(entries.update(k, SystemInfo { active: false, ..entries[k] })) == active_funcs(
            entries.remove(k),
        ),
    decreases entries.len(),
{
    let d = SystemInfo { active: false, ..entries[k] };
    let up = entries.update(k, d);
    let rm = entries.remove(k);
    if k == entries.len() - 1 {
        assert(up.drop_last() =~= entries.drop_last());
        assert(rm =~= entries.drop_last());
    } else {
        lemma_disabled_system_is_skipped(entries.drop_last(), k);
        assert(up.drop_last() =~= entries.drop_last().update(k, d));
        assert(rm.drop_last() =~= entries.drop_last().remove(k));
        assert(up.last() == entries.last());
        assert(rm.last() == entries.last());
    }
}

/// Systems of a stage run in registration order: a newly added (active)
/// system runs after every system already there.
pub proof fn lemma_new_system_runs_last<S>(entries: Seq<SystemInfo<S>>, label: Seq<char>, func: S)
    ensures
        active_funcs(entries.push(SystemInfo { label, active: true, func })) == active_funcs(entries).push(func),
{
    assert(entries.push(SystemInfo { label, active: true, func }).drop_last() =~= entries);
}

/// A logic-only frame of a new schedule runs the five stages before Render.
pub proof fn lemma_standard_logic_stages()
    ensures
        logic_prefix(standard_order()) == seq![
            StageId::PreUpdate,
            StageId::Input,
            StageId::FixedUpdate,
            StageId::Update,
            StageId::PostUpdate,
        ],
{
    lemma_first_index_is(standard_order(), StageId::Render, 5);
    assert(standard_order().subrange(0, 5) =~= seq![
        StageId::PreUpdate,
        StageId::Input,
        StageId::FixedUpdate,
        StageId::Update,
        StageId::PostUpdate,
    ]);
}

/// How a run of `n` calls (of systems, or of plugin builds) ends, given the
/// outcomes `outs` of the calls it made, in order: either all `n` calls were
/// made, each succeeded, and the result is `Ok` (or, where the run met a
/// stage that is not in the schedule, the unknown-stage error for it); or the
/// run stopped right after the first call that failed, and the result is
/// that call's error.
pub open spec fn stops_at_first_error(
    n: int,
    outs: Seq<Result<(), EngineError>>,
    unknown: Option<StageId>,
    r: Result<(), EngineError>,
) -> bool {
    ||| outs.len() == n && (n == 0 || outs.last() is Ok) && match unknown {
        None => r is Ok,
        Some(id) => is_unknown_stage(r, stage_name(id)),
    }
    ||| 0 < outs.len() <= n && outs.last() is Err && r == outs.last()
}

/// `true` if each of the systems `fs` can be called on any world and bus.
pub open spec fn all_callable<W, B, F: Fn(&mut W, &mut B) -> Result<(), EngineError>>(fs: Seq<F>) -> bool {
    forall|k: int, w: &mut W, b: &mut B| 0 <= k < fs.len() ==> call_requires(fs[k], (w, b))
}

/// Call one system on the world and bus.
fn call_system<W, B, F: Fn(&mut W, &mut B) -> Result<(), EngineError>>(f: &F, world: &mut W, bus: &mut B) -> (r: Result<(), EngineError>)
    requires
        forall|w: &mut W, b: &mut B| call_requires(*f, (w, b)),
    ensures
        exists|w: &mut W, b: &mut B| *w == *old(world) && *b == *old(bus) && *final(w) == *final(world)
            && *final(b) == *final(bus) && call_ensures(*f, (w, b), r),
{
    f(world, bus)
}

/// Run systems in order, each once, on the world and bus, stopping right
/// after the first that fails and returning its error.
///
/// The world and bus pass from each call to the next: there are states
/// `ws[0] .. ws[m]` and `bs[0] .. bs[m]`, from the given ones to the final
/// ones, such that the `i`-th call turned `ws[i]`, `bs[i]` into
/// `ws[i + 1]`, `bs[i + 1]` with outcome `outs[i]`.
pub fn run_systems<W, B, F: Fn(&mut W, &mut B) -> Result<(), EngineError>>(systems: &Vec<F>, world: &mut W, bus: &mut B) -> (r: Result<(), EngineError>)
    requires
        all_callable::<W, B, F>(systems@),
    ensures
        exists|ws: Seq<W>, bs: Seq<B>, outs: Seq<Result<(), EngineError>>| {
            &&& ws.len() == outs.len() + 1 && bs.len() == outs.len() + 1
            &&& ws[0] == *old(world) && bs[0] == *old(bus)
            &&& ws.last() == *final(world) && bs.last() == *final(bus)
            &&& stops_at_first_error(systems@.len() as int, outs, None, r)
            &&& forall|i: int| 0 <= i < outs.len() ==> (i == outs.len() - 1 || #[trigger] outs[i] is Ok)
                && exists|wm: &mut W, bm: &mut B| *wm == ws[i] && *bm == bs[i] && *final(wm) == ws[i + 1]
                    && *final(bm) == bs[i + 1] && call_ensures(systems@[i], (wm, bm), outs[i])
        },
{
    run_systems_then(systems, Ok(()), Ghost(None), world, bus)
}

/// Run systems in order as [`run_systems`] does, giving `done` where every
/// system succeeded.
fn run_systems_then<W, B, F: Fn(&mut W, &mut B) -> Result<(), EngineError>>(
    systems: &Vec<F>,
    done: Result<(), EngineError>,
    Ghost(unknown): Ghost<Option<StageId>>,
    world: &mut W,
    bus: &mut B,
) -> (r: Result<(), EngineError>)
    requires
        all_callable::<W, B, F>(systems@),
        match unknown {
            None => done is Ok,
            Some(id) => is_unknown_stage(done, stage_name(id)),
        },
    ensures
        exists|ws: Seq<W>, bs: Seq<B>, outs: Seq<Result<(), EngineError>>| {
            &&& ws.len() == outs.len() + 1 && bs.len() == outs.len() + 1
            &&& ws[0] == *old(world) && bs[0] == *old(bus)
            &&& ws.last() == *final(world) && bs.last() == *final(bus)
            &&& stops_at_first_error(systems@.len() as int, outs, unknown, r)
            &&& forall|i: int| 0 <= i < outs.len() ==> (i == outs.len() - 1 || #[trigger] outs[i] is Ok)
                && exists|wm: &mut W, bm: &mut B| *wm == ws[i] && *bm == bs[i] && *final(wm) == ws[i + 1]
                    && *final(bm) == bs[i + 1] && call_ensures(systems@[i], (wm, bm), outs[i])
        },
{
    let ghost mut ws: Seq<W> = seq![*world];
    let ghost mut bs: Seq<B> = seq![*bus];
    let ghost mut outs: Seq<Result<(), EngineError>> = seq![];
    let mut i: usize = 0;
    while i < systems.len()
        invariant
            i <= systems.len(),
            all_callable::<W, B, F>(systems@),
            outs.len() == i,
            ws.len() == i + 1 && bs.len() == i + 1,
            ws[0] == *old(world) && bs[0] == *old(bus),
            ws.last() == *world && bs.last() == *bus,
            forall|k: int| 0 <= k < outs.len() ==> (#[trigger] outs[k] is Ok)
                && exists|wm: &mut W, bm: &mut B| *wm == ws[k] && *bm == bs[k] && *final(wm) == ws[k + 1]
                    && *final(bm) == bs[k + 1] && call_ensures(systems@[k], (wm, bm), outs[k]),
        decreases systems.len() - i,
    {
        let ghost w_pre = *world;
        let ghost b_pre = *bus;
        let res = call_system(&systems[i], world, bus);
        proof {
            let ghost ws0 = ws;
            let ghost bs0 = bs;
            let ghost outs0 = outs;
            ws = ws.push(*world);
            bs = bs.push(*bus);
            outs = outs.push(res);
            assert forall|k: int| 0 <= k < outs.len() implies (k == outs.len() - 1 || #[trigger] outs[k] is Ok)
                && exists|wm: &mut W, bm: &mut B| *wm == ws[k] && *bm == bs[k] && *final(wm) == ws[k + 1]
                    && *final(bm) == bs[k + 1] && call_ensures(systems@[k], (wm, bm), outs[k]) by {
                if k < i {
                    assert(outs0[k] == outs[k] && outs0[k] is Ok);
                    assert(ws0[k] == ws[k] && ws0[k + 1] == ws[k + 1]);
                    assert(bs0[k] == bs[k] && bs0[k + 1] == bs[k + 1]);
                } else {
                    assert(ws[k] == w_pre && bs[k] == b_pre && ws[k + 1] == *world && bs[k + 1] == *bus && outs[k] == res);
                }
            }
        }
        if res.is_err() {
            proof {
                assert(stops_at_first_error(systems@.len() as int, outs, unknown, res));
                let ghost shape = ({
                    &&& ws.len() == outs.len() + 1 && bs.len() == outs.len() + 1
                    &&& ws[0] == *old(world) && bs[0] == *old(bus)
                    &&& ws.last() == *world && bs.last() == *bus
                });
                assert(shape);
            }
            return res;
        }
        i = i + 1;
    }
    proof {
        assert(stops_at_first_error(systems@.len() as int, outs, unknown, done));
        assert forall|k: int| 0 <= k < outs.len() implies (k == outs.len() - 1 || #[trigger] outs[k] is Ok)
            && exists|wm: &mut W, bm: &mut B| *wm == ws[k] && *bm == bs[k] && *final(wm) == ws[k + 1]
                && *final(bm) == bs[k + 1] && call_ensures(systems@[k], (wm, bm), outs[k]) by {
            assert(outs[k] is Ok);
        }
    }
    done
}

/// The systems a frame over the stages `ids` runs, in order: the active
/// systems of each stage in turn, up to the first stage that is not in the
/// schedule.
pub open spec fn frame_systems<S>(st: ScheduleState<S>, ids: Seq<StageId>) -> Seq<S>
    decreases ids.len(),
{
    if ids.len() == 0 {
        Seq::empty()
    } else {
        let prev = frame_systems(st, ids.drop_last());
        if first_unknown(st, ids.drop_last()) is None && st.systems.contains_key(ids.last()) {
            prev + stage_systems(st, ids.last())
        } else {
            prev
        }
    }
}

/// The first of the stages `ids` that is not in the schedule, if any.
pub open spec fn first_unknown<S>(st: ScheduleState<S>, ids: Seq<StageId>) -> Option<StageId>
    decreases ids.len(),
{
    if ids.len() == 0 {
        None
    } else {
        match first_unknown(st, ids.drop_last()) {
            Some(id) => Some(id),
            None => if st.systems.contains_key(ids.last()) { None } else { Some(ids.last()) },
        }
    }
}

/// The systems that run when stage `id` runs: its active systems, in
/// registration order.
pub open spec fn stage_systems<S>(st: ScheduleState<S>, id: StageId) -> Seq<S> {
    active_funcs(st.systems[id])
}

/// A frame over stages that are all in the schedule runs each stage's
/// active systems in turn: over one more stage it runs what it ran before,
/// then that stage's systems.
pub proof fn lemma_frame_runs_stages_in_turn<S>(st: ScheduleState<S>, ids: Seq<StageId>, id: StageId)
    requires
        first_unknown(st, ids) is None,
        st.systems.contains_key(id),
    ensures
        frame_systems(st, ids.push(id)) == frame_systems(st, ids) + stage_systems(st, id),
        first_unknown(st, ids.push(id)) is None,
{
    assert(ids.push(id).drop_last() =~= ids);
}

/// A frame over a single stage runs that stage's active systems, or nothing
/// if the stage is not in the schedule.
pub proof fn lemma_single_stage_frame<S>(st: ScheduleState<S>, id: StageId)
    ensures
        frame_systems(st, seq![id]) == (if st.systems.contains_key(id) { stage_systems(st, id) } else { Seq::empty() }),
        first_unknown(st, seq![id]) == (if st.systems.contains_key(id) { None } else { Some(id) }),
{
    assert(seq![id].drop_last() =~= Seq::<StageId>::empty());
    assert(frame_systems(st, Seq::<StageId>::empty()) == Seq::<S>::empty());
    assert(first_unknown(st, Seq::<StageId>::empty()) is None);
    assert(Seq::<S>::empty() + stage_systems(st, id) =~= stage_systems(st, id));
}

/// Once a frame meets a stage that is not in the schedule, later stages add
/// nothing to it.
proof fn lemma_frame_stops_at_unknown<S>(st: ScheduleState<S>, ids: Seq<StageId>, k: int)
    requires
        0 <= k <= ids.len(),
        first_unknown(st, ids.take(k)) is Some,
    ensures
        frame_systems(st, ids) == frame_systems(st, ids.take(k)),
        first_unknown(st, ids) == first_unknown(st, ids.take(k)),
    decreases ids.len() - k,
{
    if k < ids.len() {
        assert(ids.take(k + 1).drop_last() =~= ids.take(k));
        lemma_frame_stops_at_unknown(st, ids, k + 1);
    } else {
        assert(ids.take(k) =~= ids);
    }
}

impl<S> Schedule<S> {
    /// Run the frame over `stages`: the active systems of each stage in
    /// turn, each once, stopping at the first failure; a stage that is not
    /// in the schedule ends the run with the unknown-stage error.
    #[verifier::rlimit(50)]
    fn run_stages<W, B>(&self, stages: &Vec<SystemStage>, world: &mut W, bus: &mut B) -> (r: Result<(), EngineError>)
        where S: Copy + Fn(&mut W, &mut B) -> Result<(), EngineError>
        requires
            all_callable::<W, B, S>(frame_systems(self@, stage_ids(stages@))),
        ensures
            exists|ws: Seq<W>, bs: Seq<B>, outs: Seq<Result<(), EngineError>>| {
                &&& ws.len() == outs.len() + 1 && bs.len() == outs.len() + 1
                &&& ws[0] == *old(world) && bs[0] == *old(bus)
                &&& ws.last() == *final(world) && bs.last() == *final(bus)
                &&& stops_at_first_error(frame_systems(self@, stage_ids(stages@)).len() as int, outs, first_unknown(self@, stage_ids(stages@)), r)
                &&& forall|i: int| 0 <= i < outs.len() ==> (i == outs.len() - 1 || #[trigger] outs[i] is Ok)
                    && exists|wm: &mut W, bm: &mut B| *wm == ws[i] && *bm == bs[i] && *final(wm) == ws[i + 1]
                        && *final(bm) == bs[i + 1] && call_ensures(frame_systems(self@, stage_ids(stages@))[i], (wm, bm), outs[i])
            },
    {
        let ghost ids = stage_ids(stages@);
        proof { lemma_stage_ids_index(stages@); }
        let mut all: Vec<S> = Vec::new();
        let mut unknown: Option<EngineError> = None;
        let mut k: usize = 0;
        while k < stages.len() && unknown.is_none()
            invariant
                ids == stage_ids(stages@),
                ids.len() == stages@.len(),
                k <= stages@.len(),
                unknown is None ==> all@ == frame_systems(self@, ids.take(k as int))
                    && first_unknown(self@, ids.take(k as int)) is None,
                unknown matches Some(e) ==> all@ == frame_systems(self@, ids)
                    && (first_unknown(self@, ids) matches Some(id) && is_unknown_stage(Err::<(), EngineError>(e), stage_name(id))),
            decreases stages@.len() - k,
        {
            proof { assert(ids.take(k + 1) =~= ids.take(k as int).push(ids[k as int])); }
            match self.active_systems(&stages[k]) {
                Ok(v) => {
                    proof { lemma_frame_runs_stages_in_turn(self@, ids.take(k as int), ids[k as int]); }
                    let mut v = v;
                    all.append(&mut v);
                },
                Err(e) => {
                    proof {
                        assert(ids.take(k + 1).drop_last() =~= ids.take(k as int));
                        lemma_frame_stops_at_unknown(self@, ids, k + 1);
                    }
                    unknown = Some(e);
                },
            }
            k = k + 1;
        }
        proof {
            if unknown is None {
                assert(ids.take(k as int) =~= ids);
            }
        }
        let done: Result<(), EngineError> = match unknown {
            Some(e) => Err(e),
            None => Ok(()),
        };
        run_systems_then(&all, done, Ghost(first_unknown(self@, ids)), world, bus)
    }

    /// Run the active systems of `stage`, each once, in registration order,
    /// stopping right after the first that fails and returning its error; a
    /// stage that is not in the schedule gives the unknown-stage error and
    /// runs nothing.
    pub fn run_stage<W, B>(&self, stage: &SystemStage, world: &mut W, bus: &mut B) -> (r: Result<(), EngineError>)
        where S: Copy + Fn(&mut W, &mut B) -> Result<(), EngineError>
        requires
            all_callable::<W, B, S>(frame_systems(self@, seq![stage@])),
        ensures
            exists|ws: Seq<W>, bs: Seq<B>, outs: Seq<Result<(), EngineError>>| {
                &&& ws.len() == outs.len() + 1 && bs.len() == outs.len() + 1
                &&& ws[0] == *old(world) && bs[0] == *old(bus)
                &&& ws.last() == *final(world) && bs.last() == *final(bus)
                &&& stops_at_first_error(frame_systems(self@, seq![stage@]).len() as int, outs, first_unknown(self@, seq![stage@]), r)
                &&& forall|i: int| 0 <= i < outs.len() ==> (i == outs.len() - 1 || #[trigger] outs[i] is Ok)
                    && exists|wm: &mut W, bm: &mut B| *wm == ws[i] && *bm == bs[i] && *final(wm) == ws[i + 1]
                        && *final(bm) == bs[i + 1] && call_ensures(frame_systems(self@, seq![stage@])[i], (wm, bm), outs[i])
            },
    {
        let mut stages: Vec<SystemStage> = Vec::new();
        stages.push(stage.duplicate());
        proof { assert(stage_ids(stages@) =~= seq![stage@]); }
        self.run_stages(&stages, world, bus)
    }

    /// Run every stage in execution order (a full frame): the active systems
    /// of each stage in turn, each once, stopping at the first failure.
    pub fn run_all<W, B>(&self, world: &mut W, bus: &mut B) -> (r: Result<(), EngineError>)
        where S: Copy + Fn(&mut W, &mut B) -> Result<(), EngineError>
        requires
            all_callable::<W, B, S>(frame_systems(self@, self@.order)),
        ensures
            exists|ws: Seq<W>, bs: Seq<B>, outs: Seq<Result<(), EngineError>>| {
                &&& ws.len() == outs.len() + 1 && bs.len() == outs.len() + 1
                &&& ws[0] == *old(world) && bs[0] == *old(bus)
                &&& ws.last() == *final(world) && bs.last() == *final(bus)
                &&& stops_at_first_error(frame_systems(self@, self@.order).len() as int, outs, first_unknown(self@, self@.order), r)
                &&& forall|i: int| 0 <= i < outs.len() ==> (i == outs.len() - 1 || #[trigger] outs[i] is Ok)
                    && exists|wm: &mut W, bm: &mut B| *wm == ws[i] && *bm == bs[i] && *final(wm) == ws[i + 1]
                        && *final(bm) == bs[i + 1] && call_ensures(frame_systems(self@, self@.order)[i], (wm, bm), outs[i])
            },
    {
        let stages = self.run_order();
        self.run_stages(&stages, world, bus)
    }

    /// Run the stages before the first `Render` (headless simulation): the
    /// active systems of each in turn, each once, stopping at the first
    /// failure.
    pub fn run_logic_only<W, B>(&self, world: &mut W, bus: &mut B) -> (r: Result<(), EngineError>)
        where S: Copy + Fn(&mut W, &mut B) -> Result<(), EngineError>
        requires
            all_callable::<W, B, S>(frame_systems(self@, logic_prefix(self@.order))),
        ensures
            exists|ws: Seq<W>, bs: Seq<B>, outs: Seq<Result<(), EngineError>>| {
                &&& ws.len() == outs.len() + 1 && bs.len() == outs.len() + 1
                &&& ws[0] == *old(world) && bs[0] == *old(bus)
                &&& ws.last() == *final(world) && bs.last() == *final(bus)
                &&& stops_at_first_error(frame_systems(self@, logic_prefix(self@.order)).len() as int, outs, first_unknown(self@, logic_prefix(self@.order)), r)
                &&& forall|i: int| 0 <= i < outs.len() ==> (i == outs.len() - 1 || #[trigger] outs[i] is Ok)
                    && exists|wm: &mut W, bm: &mut B| *wm == ws[i] && *bm == bs[i] && *final(wm) == ws[i + 1]
                        && *final(bm) == bs[i + 1] && call_ensures(frame_systems(self@, logic_prefix(self@.order))[i], (wm, bm), outs[i])
            },
    {
        let stages = self.logic_order();
        self.run_stages(&stages, world, bus)
    }
}

proof fn lemma_stage_ids_index(v: Seq<SystemStage>)
    ensures
        stage_ids(v).len() == v.len(),
        forall|k: int| 0 <= k < v.len() ==> #[trigger] stage_ids(v)[k] == v[k]@,
{
}

} // verus!
