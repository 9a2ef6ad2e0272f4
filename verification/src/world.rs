//! The world's zones (a registry of zone definitions by id, with the zone
//! the player is in) and the spatial grid for proximity queries.

use std::collections::HashMap;
use crate::plugin::Plugin;
use crate::table::NamedTable;
use vstd::prelude::*;

verus! {

broadcast use vstd::std_specs::hash::group_hash_axioms;

/// Registry of all zones in the game, by id, and the active zone's id. `Z`
/// is the zone definition type; the registry never looks inside it.
pub struct ZoneRegistry<Z> {
    zones: NamedTable<Z>,
    /// ID of the currently active zone.
    pub active: Option<String>,
}

/// The view of an optional id.
pub open spec fn opt_id(o: Option<String>) -> Option<Seq<char>> {
    match o {
        Some(s) => Some(s@),
        None => None,
    }
}

impl<Z> ZoneRegistry<Z> {
    /// The registered zones by id.
    pub closed spec fn zones(&self) -> Map<Seq<char>, Z> {
        self.zones.view()
    }

    /// The id of the active zone, if one is set.
    pub closed spec fn active_id(&self) -> Option<Seq<char>> {
        opt_id(self.active)
    }

    /// An empty registry with no active zone.
    pub fn new() -> (r: Self)
        ensures
            r.zones() == Map::<Seq<char>, Z>::empty(),
            r.active_id() is None,
    {
        ZoneRegistry { zones: NamedTable::new(), active: None }
    }

    /// Register a zone definition under its id, replacing an earlier one.
    pub fn register(&mut self, id: String, zone: Z) -> (r: &mut Self)
        ensures
            r.zones() == old(self).zones().insert(id@, zone),
            r.active_id() == old(self).active_id(),
            *final(self) == *final(r),
    {
        self.zones.insert(id, zone);
        self
    }

    /// The zone with the given id.
    pub fn get(&self, id: &str) -> (r: Option<&Z>)
        ensures
            r == (if self.zones().contains_key(id@) { Some(&self.zones()[id@]) } else { None }),
    {
        self.zones.get(id)
    }

    /// Make the zone with the given id the active one (whether or not it is
    /// registered).
    pub fn set_active(&mut self, id: String)
        ensures
            final(self).active_id() == Some(id@),
            final(self).zones() == old(self).zones(),
    {
        self.active = Some(id);
    }

    /// The active zone, if one is set and registered.
    pub fn active_zone(&self) -> (r: Option<&Z>)
        ensures
            r == (match self.active_id() {
                Some(id) => if self.zones().contains_key(id) { Some(&self.zones()[id]) } else { None },
                None => None,
            }),
    {
        match &self.active {
            Some(id) => self.zones.get(id.as_str()),
            None => None,
        }
    }

    /// The ids of all registered zones.
    pub fn zone_ids(&self) -> (v: Vec<&str>)
        ensures
            v@.map_values(|k: &str| k@).to_set() == self.zones().dom(),
            v@.len() == self.zones().len(),
    {
        self.zones.keys()
    }
}

/// A grid cell, by column and row.
pub type CellKey = (i32, i32);

/// The number a cell is kept under: its column times 2³², plus its row read
/// as an unsigned 32-bit number. Each cell has its own number.
pub open spec fn cell_code(k: CellKey) -> int {
    k.0 * 0x1_0000_0000 + (k.1 as u32)
}

/// No two cells share a number.
proof fn lemma_cell_code_unique(a: CellKey, b: CellKey)
    requires
        cell_code(a) == cell_code(b),
    ensures
        a == b,
{
    let ya = a.1 as u32 as int;
    let yb = b.1 as u32 as int;
    assert(0 <= ya < 0x1_0000_0000 && 0 <= yb < 0x1_0000_0000);
    assert((a.0 - b.0) * 0x1_0000_0000 == yb - ya);
    assert(a.0 == b.0) by (nonlinear_arith)
        requires
            (a.0 - b.0) * 0x1_0000_0000 == yb - ya,
            0 <= ya < 0x1_0000_0000,
            0 <= yb < 0x1_0000_0000,
    ;
    let p: i32 = a.1;
    let q: i32 = b.1;
    assert(p as u32 == q as u32);
    assert(p == q) by (bit_vector)
        requires
            p as u32 == q as u32,
    ;
}

/// The number of a cell, computed.
fn cell_number(k: CellKey) -> (c: i64)
    ensures
        c == cell_code(k),
{
    let row: u32 = k.1 as u32;
    assert(i32::MIN * 0x1_0000_0000 <= k.0 * 0x1_0000_0000 <= i32::MAX * 0x1_0000_0000) by (nonlinear_arith)
        requires
            i32::MIN <= k.0 <= i32::MAX,
    ;
    (k.0 as i64) * 0x1_0000_0000 + (row as i64)
}

/// A uniform grid of cells holding entities, for proximity queries. The
/// caller maps world positions to cells.
pub struct SpatialGrid {
    cells: HashMap<i64, Vec<hecs::Entity>>,
}

/// The entities of the cells `(cx, y0) .. (cx, y_end)`, cell by cell.
pub open spec fn column_entities(g: SpatialGrid, cx: int, y0: int, y_end: int) -> Seq<hecs::Entity>
    decreases y_end - y0,
{
    if y_end <= y0 { Seq::empty() } else { column_entities(g, cx, y0, y_end - 1) + g.entities_at((cx as i32, (y_end - 1) as i32)) }
}

/// The entities of the cells in columns `x0 .. x_end` and rows `y0 ..= y1`,
/// column by column.
pub open spec fn block_entities(g: SpatialGrid, x0: int, x_end: int, y0: int, y1: int) -> Seq<hecs::Entity>
    decreases x_end - x0,
{
    if x_end <= x0 { Seq::empty() } else { block_entities(g, x0, x_end - 1, y0, y1) + column_entities(g, x_end - 1, y0, y1 + 1) }
}

impl SpatialGrid {
    /// The entities in each cell (none for a cell never filled).
    pub closed spec fn entities_at(&self, k: CellKey) -> Seq<hecs::Entity> {
        if self.cells@.contains_key(cell_code(k) as i64) {
            self.cells@[cell_code(k) as i64]@
        } else {
            Seq::empty()
        }
    }

    /// An empty grid.
    pub fn new() -> (g: Self)
        ensures
            forall|k: CellKey| #[trigger] g.entities_at(k) == Seq::<hecs::Entity>::empty(),
    {
        SpatialGrid { cells: HashMap::new() }
    }

    /// Empty every cell. Call at the start of each physics step.
    pub fn clear(&mut self)
        ensures
            forall|k: CellKey| #[trigger] final(self).entities_at(k) == Seq::<hecs::Entity>::empty(),
    {
        self.cells.clear();
    }

    /// Put an entity in a cell, after the entities already there.
    pub fn insert(&mut self, key: CellKey, entity: hecs::Entity)
        ensures
            forall|k: CellKey| #[trigger] final(self).entities_at(k)
                == (if k == key { old(self).entities_at(key).push(entity) } else { old(self).entities_at(k) }),
    {
        let c = cell_number(key);
        let mut list: Vec<hecs::Entity> = match self.cells.remove(&c) {
            Some(l) => l,
            None => Vec::new(),
        };
        list.push(entity);
        self.cells.insert(c, list);
        proof {
            assert forall|k: CellKey| #[trigger] self.entities_at(k)
                == (if k == key { old(self).entities_at(key).push(entity) } else { old(self).entities_at(k) }) by {
                if k != key {
                    if cell_code(k) == cell_code(key) {
                        lemma_cell_code_unique(k, key);
                    }
                } else {
                    assert(self.cells@[c]@ =~= old(self).entities_at(key).push(entity));
                }
            }
        }
    }

    /// The entities of one cell.
    pub fn cell(&self, key: CellKey) -> (v: Vec<hecs::Entity>)
        ensures
            v@ == self.entities_at(key),
    {
        let mut out: Vec<hecs::Entity> = Vec::new();
        let c = cell_number(key);
        match self.cells.get(&c) {
            Some(list) => {
                let mut k: usize = 0;
                while k < list.len()
                    invariant
                        k <= list@.len(),
                        out@ == list@.subrange(0, k as int),
                    decreases list@.len() - k,
                {
                    out.push(list[k]);
                    proof { assert(out@ =~= list@.subrange(0, k + 1)); }
                    k = k + 1;
                }
                proof { assert(list@.subrange(0, list@.len() as int) =~= list@); }
            },
            None => {},
        }
        out
    }

    fn append_cell(&self, out: &mut Vec<hecs::Entity>, key: CellKey)
        ensures
            final(out)@ == old(out)@ + self.entities_at(key),
    {
        let here = self.cell(key);
        let ghost before = out@;
        let mut k: usize = 0;
        while k < here.len()
            invariant
                k <= here@.len(),
                out@ == before + here@.subrange(0, k as int),
            decreases here@.len() - k,
        {
            out.push(here[k]);
            proof { assert(out@ =~= before + here@.subrange(0, k + 1)); }
            k = k + 1;
        }
        proof { assert(here@.subrange(0, here@.len() as int) =~= here@); }
    }

    /// The entities of every cell within `cell_radius` cells of `center`
    /// along each axis, column by column from the left, each column from the
    /// top.
    #[verifier::spinoff_prover]
    pub fn query_cells(&self, center: CellKey, cell_radius: i32) -> (v: Vec<hecs::Entity>)
        requires
            cell_radius > i32::MIN,
            cell_radius >= 0 ==> i32::MIN <= center.0 - cell_radius && center.0 + cell_radius <= i32::MAX,
            cell_radius >= 0 ==> i32::MIN <= center.1 - cell_radius && center.1 + cell_radius <= i32::MAX,
        ensures
            v@ == block_entities(*self, center.0 - cell_radius, center.0 + cell_radius + 1,
                center.1 - cell_radius, center.1 + cell_radius),
    {
        let mut out: Vec<hecs::Entity> = Vec::new();
        if cell_radius < 0 {
            return out;
        }
        let x0: i32 = center.0 - cell_radius;
        let x1: i32 = center.0 + cell_radius;
        let y0: i32 = center.1 - cell_radius;
        let y1: i32 = center.1 + cell_radius;
        let ghost m = *self;
        let mut x: i64 = x0 as i64;
        while x <= x1 as i64
            invariant
                x0 <= x <= x1 + 1,
                x0 <= x1,
                y0 <= y1,
                m == *self,
                out@ == block_entities(m, x0 as int, x as int, y0 as int, y1 as int),
            decreases x1 + 1 - x,
        {
            let mut y: i64 = y0 as i64;
            while y <= y1 as i64
                invariant
                    x0 <= x <= x1,
                    y0 <= y <= y1 + 1,
                    m == *self,
                    out@ == block_entities(m, x0 as int, x as int, y0 as int, y1 as int)
                        + column_entities(m, x as int, y0 as int, y as int),
                decreases y1 + 1 - y,
            {
                self.append_cell(&mut out, (x as i32, y as i32));
                proof {
                    assert(column_entities(m, x as int, y0 as int, y + 1)
                        == column_entities(m, x as int, y0 as int, y as int) + m.entities_at((x as i32, y as i32)));
                    assert(out@ =~= block_entities(m, x0 as int, x as int, y0 as int, y1 as int)
                        + column_entities(m, x as int, y0 as int, y + 1));
                }
                y = y + 1;
            }
            proof {
                assert(out@ =~= block_entities(m, x0 as int, x + 1, y0 as int, y1 as int));
            }
            x = x + 1;
        }
        out
    }
}

proof fn lemma_column_covers(g: SpatialGrid, cx: int, y0: int, y_end: int, y: int, e: hecs::Entity)
    requires
        y0 <= y < y_end,
        i32::MIN <= cx <= i32::MAX,
        i32::MIN <= y <= i32::MAX,
        g.entities_at((cx as i32, y as i32)).contains(e),
    ensures
        column_entities(g, cx, y0, y_end).contains(e),
    decreases y_end - y0,
{
    let here = g.entities_at((cx as i32, (y_end - 1) as i32));
    let before = column_entities(g, cx, y0, y_end - 1);
    assert(column_entities(g, cx, y0, y_end) == before + here);
    if y == y_end - 1 {
        let i = choose|i: int| 0 <= i < here.len() && here[i] == e;
        assert((before + here)[before.len() + i] == e);
    } else {
        lemma_column_covers(g, cx, y0, y_end - 1, y, e);
        let i = choose|i: int| 0 <= i < before.len() && before[i] == e;
        assert((before + here)[i] == e);
    }
}

proof fn lemma_block_covers(g: SpatialGrid, x0: int, x_end: int, y0: int, y1: int, key: CellKey, e: hecs::Entity)
    requires
        x0 <= key.0 < x_end,
        y0 <= key.1 <= y1,
        g.entities_at(key).contains(e),
    ensures
        block_entities(g, x0, x_end, y0, y1).contains(e),
    decreases x_end - x0,
{
    let col = column_entities(g, x_end - 1, y0, y1 + 1);
    let before = block_entities(g, x0, x_end - 1, y0, y1);
    assert(block_entities(g, x0, x_end, y0, y1) == before + col);
    if key.0 == x_end - 1 {
        assert((key.0 as int as i32, key.1 as int as i32) == key);
        lemma_column_covers(g, x_end - 1, y0, y1 + 1, key.1 as int, e);
        let i = choose|i: int| 0 <= i < col.len() && col[i] == e;
        assert((before + col)[before.len() + i] == e);
    } else {
        lemma_block_covers(g, x0, x_end - 1, y0, y1, key, e);
        let i = choose|i: int| 0 <= i < before.len() && before[i] == e;
        assert((before + col)[i] == e);
    }
}

/// A radius query finds every entity in every cell within the radius of the
/// centre cell along both axes.
pub proof fn lemma_query_finds_nearby(g: SpatialGrid, center: CellKey, cell_radius: i32, key: CellKey, e: hecs::Entity)
    requires
        center.0 - cell_radius <= key.0 <= center.0 + cell_radius,
        center.1 - cell_radius <= key.1 <= center.1 + cell_radius,
        g.entities_at(key).contains(e),
    ensures
        block_entities(g, center.0 - cell_radius, center.0 + cell_radius + 1, center.1 - cell_radius, center.1 + cell_radius).contains(e),
{
    lemma_block_covers(g, center.0 - cell_radius, center.0 + cell_radius + 1, center.1 - cell_radius, center.1 + cell_radius, key, e);
}

/// Registers the zone registry and the spatial index.
pub struct WorldPlugin;

impl Plugin for WorldPlugin {
    /// The name this plugin reports.
    open spec fn spec_name(&self) -> Seq<char> {
        "gur_world"@
    }

    /// The plugin's unique name.
    fn name(&self) -> (n: &'static str)
        ensures
            n@ == "gur_world"@,
    {
        "gur_world"
    }
}

} // verus!
