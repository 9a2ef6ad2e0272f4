//! Asset handles, raw textures and the asset cache.
//!
//! Assets are referenced by typed handles. The cache keeps one texture per
//! path: requesting a path that is already cached gives the cached copy
//! instead of loading it again. Loading itself (reading and decoding the
//! file) is done by the caller between [`AssetServer::cached_texture`] and
//! [`AssetServer::store_texture`].

use std::marker::PhantomData;
use crate::plugin::Plugin;
use vstd::prelude::*;
use crate::error::EngineError;
use crate::save::{join_path, join_paths};

verus! {

/// A unique numeric identifier for a loaded asset.
pub type HandleId = u64;

/// A typed reference to an asset held by an [`AssetServer`].
pub struct Handle<T> {
    id: HandleId,
    _marker: PhantomData<T>,
}

impl<T> Handle<T> {
    /// The id this handle refers to.
    pub closed spec fn spec_id(&self) -> HandleId {
        self.id
    }

    /// Create a handle for the given id.
    pub(crate) fn new(id: HandleId) -> (h: Self)
        ensures
            h.spec_id() == id,
    {
        Handle { id, _marker: PhantomData }
    }

    /// The raw numeric id of this handle.
    pub fn id(&self) -> (id: HandleId)
        ensures
            id == self.spec_id(),
    {
        self.id
    }

    /// Another handle to the same asset.
    pub fn duplicate(&self) -> (h: Self)
        ensures
            h.spec_id() == self.spec_id(),
    {
        Handle { id: self.id, _marker: PhantomData }
    }

    /// `true` if both handles refer to the same asset.
    pub fn same_asset(&self, other: &Handle<T>) -> (b: bool)
        ensures
            b == (self.spec_id() == other.spec_id()),
    {
        self.id == other.id
    }
}

/// Hands out asset ids: 1, 2, 3, … (wrapping after `u64::MAX`).
pub struct IdAllocator {
    next: u64,
}

impl IdAllocator {
    /// The id the next call of [`IdAllocator::next_id`] returns.
    pub closed spec fn peek(&self) -> u64 {
        self.next
    }

    /// An allocator whose first id is 1.
    pub fn new() -> (a: Self)
        ensures
            a.peek() == 1,
    {
        IdAllocator { next: 1 }
    }

    /// Take the next id.
    pub fn next_id(&mut self) -> (id: HandleId)
        ensures
            id == old(self).peek(),
            final(self).peek() == (if old(self).peek() == u64::MAX { 0 } else { old(self).peek() + 1 }),
    {
        let id = self.next;
        self.next = self.next.wrapping_add(1);
        id
    }
}

/// Raw RGBA8 pixel data (CPU side).
pub struct Texture {
    /// Width in pixels.
    pub width: u32,
    /// Height in pixels.
    pub height: u32,
    /// Raw RGBA8 pixel data (width × height × 4 bytes).
    pub data: Vec<u8>,
}

impl Texture {
    /// A solid-color 1×1 texture (a placeholder / default).
    pub fn solid(r: u8, g: u8, b: u8, a: u8) -> (t: Self)
        ensures
            t.width == 1,
            t.height == 1,
            t.data@ == seq![r, g, b, a],
    {
        let mut data: Vec<u8> = Vec::new();
        data.push(r);
        data.push(g);
        data.push(b);
        data.push(a);
        Texture { width: 1, height: 1, data }
    }

    /// A texture from raw RGBA8 bytes; `data` must hold exactly
    /// `width × height × 4` bytes.
    pub fn from_rgba8(width: u32, height: u32, data: Vec<u8>) -> (t: Self)
        requires
            width * height * 4 <= u32::MAX,
            data@.len() == width * height * 4,
        ensures
            t.width == width,
            t.height == height,
            t.data@ == data@,
    {
        Texture { width, height, data }
    }
}

/// One cached texture.
pub struct CachedTexture {
    pub path: String,
    pub id: HandleId,
    pub texture: Texture,
}

/// Index of the first cache entry for `path`, if any.
pub open spec fn path_index(entries: Seq<CachedTexture>, path: Seq<char>) -> Option<int> {
    if exists|i: int| 0 <= i < entries.len() && entries[i].path@ == path {
        Some(choose|i: int| 0 <= i < entries.len() && entries[i].path@ == path
            && forall|j: int| 0 <= j < i ==> entries[j].path@ != path)
    } else {
        None
    }
}

/// Index of the first cache entry with id `id`, if any.
pub open spec fn id_index(entries: Seq<CachedTexture>, id: HandleId) -> Option<int> {
    if exists|i: int| 0 <= i < entries.len() && entries[i].id == id {
        Some(choose|i: int| 0 <= i < entries.len() && entries[i].id == id
            && forall|j: int| 0 <= j < i ==> entries[j].id != id)
    } else {
        None
    }
}

proof fn lemma_path_index_is(entries: Seq<CachedTexture>, path: Seq<char>, i: int)
    requires
        0 <= i < entries.len(),
        entries[i].path@ == path,
        forall|j: int| 0 <= j < i ==> entries[j].path@ != path,
    ensures
        path_index(entries, path) == Some(i),
{
    let c = choose|c: int| 0 <= c < entries.len() && entries[c].path@ == path
        && forall|j: int| 0 <= j < c ==> entries[j].path@ != path;
    assert(0 <= i < entries.len() && entries[i].path@ == path && forall|j: int| 0 <= j < i ==> entries[j].path@ != path);
    assert(c == i);
}

proof fn lemma_id_index_is(entries: Seq<CachedTexture>, id: HandleId, i: int)
    requires
        0 <= i < entries.len(),
        entries[i].id == id,
        forall|j: int| 0 <= j < i ==> entries[j].id != id,
    ensures
        id_index(entries, id) == Some(i),
{
    let c = choose|c: int| 0 <= c < entries.len() && entries[c].id == id
        && forall|j: int| 0 <= j < c ==> entries[j].id != id;
    assert(0 <= i < entries.len() && entries[i].id == id && forall|j: int| 0 <= j < i ==> entries[j].id != id);
    assert(c == i);
}

/// The id cached for `path`, if any.
pub open spec fn cached_id(entries: Seq<CachedTexture>, path: Seq<char>) -> Option<HandleId> {
    match path_index(entries, path) {
        Some(i) => Some(entries[i].id),
        None => None,
    }
}

/// The cache after storing `texture` for `path` under `id`: the entry for
/// the path is replaced, or a new one is added.
pub open spec fn stored(entries: Seq<CachedTexture>, entry: CachedTexture) -> Seq<CachedTexture> {
    match path_index(entries, entry.path@) {
        Some(i) => entries.update(i, entry),
        None => entries.push(entry),
    }
}

/// Loads (through the caller), caches, and provides access to textures.
pub struct AssetServer {
    root: String,
    cache: Vec<CachedTexture>,
    ids: IdAllocator,
}

impl AssetServer {
    /// The cache entries, oldest path first.
    pub closed spec fn entries(&self) -> Seq<CachedTexture> {
        self.cache@
    }

    /// The id the next stored texture gets.
    pub closed spec fn next_id(&self) -> HandleId {
        self.ids.peek()
    }

    /// Every cached id is below the next one to be handed out, and no two
    /// cache entries share an id: ids have not wrapped around.
    pub open spec fn fresh(&self) -> bool {
        ids_below(self.entries(), self.next_id()) && ids_distinct(self.entries())
    }

    /// The asset root directory.
    pub closed spec fn root_dir(&self) -> Seq<char> {
        self.root@
    }

    /// A server with the given asset root and an empty cache.
    pub fn new(root: String) -> (s: Self)
        ensures
            s.root_dir() == root@,
            s.entries() == Seq::<CachedTexture>::empty(),
            s.next_id() == 1,
            s.fresh(),
    {
        AssetServer { root, cache: Vec::new(), ids: IdAllocator::new() }
    }

    /// The asset root directory.
    pub fn root(&self) -> (r: &str)
        ensures
            r@ == self.root_dir(),
    {
        self.root.as_str()
    }

    /// Where the file of an asset path lives: the path under the asset root.
    pub fn resolve(&self, path: &str) -> (p: String)
        ensures
            p@ == join_path(self.root_dir(), path@),
    {
        join_paths(self.root.as_str(), path)
    }

    fn find_path(&self, path: &String) -> (r: Option<usize>)
        ensures
            match r {
                Some(i) => path_index(self.entries(), path@) == Some(i as int) && i < self.entries().len(),
                None => path_index(self.entries(), path@) is None,
            },
    {
        let mut i: usize = 0;
        while i < self.cache.len()
            invariant
                i <= self.cache@.len(),
                forall|j: int| 0 <= j < i ==> self.cache@[j].path@ != path@,
            decreases self.cache@.len() - i,
        {
            if self.cache[i].path == *path {
                proof { lemma_path_index_is(self.cache@, path@, i as int); }
                return Some(i);
            }
            i = i + 1;
        }
        None
    }

    /// The handle of the texture cached for `path`, if it is cached.
    pub fn cached_texture(&self, path: &str) -> (r: Option<Handle<Texture>>)
        ensures
            match cached_id(self.entries(), path@) {
                Some(id) => r matches Some(h) && h.spec_id() == id,
                None => r is None,
            },
    {
        let p = path.to_owned();
        match self.find_path(&p) {
            Some(i) => Some(Handle::new(self.cache[i].id)),
            None => None,
        }
    }

    /// Cache a texture that was loaded for `path`, under a fresh id, and
    /// return its handle.
    pub fn store_texture(&mut self, path: String, texture: Texture) -> (h: Handle<Texture>)
        ensures
            h.spec_id() == old(self).next_id(),
            final(self).entries() == stored(
                old(self).entries(),
                CachedTexture { path, id: old(self).next_id(), texture },
            ),
            final(self).next_id() == (if old(self).next_id() == u64::MAX { 0 } else { old(self).next_id() + 1 }),
            final(self).root_dir() == old(self).root_dir(),
            old(self).fresh() && old(self).next_id() < u64::MAX ==> final(self).fresh(),
    {
        proof {
            if old(self).fresh() && old(self).next_id() < u64::MAX {
                lemma_stored_keeps_fresh(self.cache@, CachedTexture { path, id: self.ids.peek(), texture });
            }
        }
        let id = self.ids.next_id();
        match self.find_path(&path) {
            Some(i) => {
                self.cache.set(i, CachedTexture { path, id, texture });
            },
            None => {
                self.cache.push(CachedTexture { path, id, texture });
            },
        }
        Handle::new(id)
    }

    /// Load a texture through the caller's loader result: a cached path
    /// gives its cached handle; otherwise a successfully loaded texture is
    /// cached, and a failed load is reported with its reason.
    pub fn finish_texture_load(&mut self, path: String, loaded: Result<Texture, String>) -> (r: Result<Handle<Texture>, EngineError>)
        ensures
            match cached_id(old(self).entries(), path@) {
                Some(id) => r matches Ok(h) && h.spec_id() == id && *final(self) == *old(self),
                None => match loaded {
                    Ok(t) => r matches Ok(h) && h.spec_id() == old(self).next_id()
                        && final(self).entries() == old(self).entries().push(
                            CachedTexture { path, id: old(self).next_id(), texture: t },
                        )
                        && final(self).next_id() == (if old(self).next_id() == u64::MAX { 0 } else { old(self).next_id() + 1 })
                        && final(self).root_dir() == old(self).root_dir(),
                    Err(reason) => (r matches Err(EngineError::AssetLoad { path: p, reason: why })
                        && p@ == path@ && why@ == reason@) && *final(self) == *old(self),
                },
            },
            old(self).fresh() && old(self).next_id() < u64::MAX ==> final(self).fresh(),
            texture_load(old(self).entries(), old(self).next_id(), path, loaded) == (
                final(self).entries(),
                final(self).next_id(),
                match r {
                    Ok(h) => Some(h.spec_id()),
                    Err(_) => None::<HandleId>,
                },
            ),
            final(self).root_dir() == old(self).root_dir(),
    {
        match self.find_path(&path) {
            Some(i) => Ok(Handle::new(self.cache[i].id)),
            None => match loaded {
                Ok(t) => Ok(self.store_texture(path, t)),
                Err(reason) => Err(EngineError::AssetLoad { path, reason }),
            },
        }
    }

    /// The texture a handle refers to, or `None` if it is not (or no longer)
    /// cached.
    pub fn get_texture(&self, handle: &Handle<Texture>) -> (r: Option<&Texture>)
        ensures
            r == (match id_index(self.entries(), handle.spec_id()) {
                Some(i) => Some(&self.entries()[i].texture),
                None => None,
            }),
    {
        let mut i: usize = 0;
        while i < self.cache.len()
            invariant
                i <= self.cache@.len(),
                forall|j: int| 0 <= j < i ==> self.cache@[j].id != handle.spec_id(),
            decreases self.cache@.len() - i,
        {
            if self.cache[i].id == handle.id {
                proof { lemma_id_index_is(self.cache@, handle.spec_id(), i as int); }
                return Some(&self.cache[i].texture);
            }
            i = i + 1;
        }
        None
    }
}

/// `true` if every cached id is below `next` (ids are handed out in
/// increasing order and have not wrapped).
pub open spec fn ids_below(entries: Seq<CachedTexture>, next: HandleId) -> bool {
    forall|j: int| 0 <= j < entries.len() ==> entries[j].id < next
}

/// The cache returns what was stored: after a texture is stored for a path,
/// requesting that path gives the new handle, and the handle gives back the
/// stored texture (as long as ids have not wrapped around).
pub proof fn lemma_store_then_lookup(entries: Seq<CachedTexture>, path: String, next: HandleId, texture: Texture)
    requires
        ids_below(entries, next),
    ensures
        ({
            let after = stored(entries, CachedTexture { path, id: next, texture });
            &&& cached_id(after, path@) == Some(next)
            &&& id_index(after, next) matches Some(i) && after[i].texture == texture
        }),
{
    let entry = CachedTexture { path, id: next, texture };
    let after = stored(entries, entry);
    if exists|i: int| 0 <= i < entries.len() && entries[i].path@ == path@ {
        let w = choose|i: int| 0 <= i < entries.len() && entries[i].path@ == path@;
        lemma_least_path(entries, path@, w);
        let i = path_index(entries, path@)->0;
        assert(after == entries.update(i, entry));
        assert forall|j: int| 0 <= j < i implies after[j].path@ != path@ by {}
        lemma_path_index_is(after, path@, i);
        assert forall|j: int| 0 <= j < i implies after[j].id != next by {}
        lemma_id_index_is(after, next, i);
    } else {
        let i = entries.len() as int;
        assert(after == entries.push(entry));
        assert forall|j: int| 0 <= j < i implies after[j].path@ != path@ by {
            assert(after[j] == entries[j]);
        }
        lemma_path_index_is(after, path@, i);
        assert forall|j: int| 0 <= j < i implies after[j].id != next by {
            assert(after[j] == entries[j]);
        }
        lemma_id_index_is(after, next, i);
    }
}

/// `true` if no two cache entries share an id.
pub open spec fn ids_distinct(entries: Seq<CachedTexture>) -> bool {
    forall|i: int, j: int| 0 <= i < entries.len() && 0 <= j < entries.len() && i != j ==> entries[i].id != entries[j].id
}

/// Storing a texture under a fresh id keeps ids fresh and distinct.
proof fn lemma_stored_keeps_fresh(entries: Seq<CachedTexture>, entry: CachedTexture)
    requires
        ids_below(entries, entry.id),
        ids_distinct(entries),
        entry.id < u64::MAX,
    ensures
        ids_below(stored(entries, entry), (entry.id + 1) as u64),
        ids_distinct(stored(entries, entry)),
{
    let after = stored(entries, entry);
    match path_index(entries, entry.path@) {
        Some(i) => {
            if exists|k: int| 0 <= k < entries.len() && entries[k].path@ == entry.path@ {
                let w = choose|k: int| 0 <= k < entries.len() && entries[k].path@ == entry.path@;
                lemma_least_path(entries, entry.path@, w);
            }
            assert(0 <= i < entries.len());
            assert(after == entries.update(i, entry));
            assert forall|a: int, b: int| 0 <= a < after.len() && 0 <= b < after.len() && a != b implies after[a].id != after[b].id by {
                if a != i && b != i {
                    assert(after[a] == entries[a] && after[b] == entries[b]);
                } else if a == i {
                    assert(after[b] == entries[b]);
                } else {
                    assert(after[a] == entries[a]);
                }
            }
        },
        None => {
            assert(after == entries.push(entry));
            assert forall|a: int, b: int| 0 <= a < after.len() && 0 <= b < after.len() && a != b implies after[a].id != after[b].id by {
                if a < entries.len() && b < entries.len() {
                    assert(after[a] == entries[a] && after[b] == entries[b]);
                } else if a == entries.len() {
                    assert(after[b] == entries[b]);
                } else {
                    assert(after[a] == entries[a]);
                }
            }
        },
    }
}

/// The id the next load hands out is not cached for any path, and two
/// different cached paths never share an id: a successful load of one path
/// never yields the id of another (as long as ids have not wrapped around).
pub proof fn lemma_loads_never_share_ids(entries: Seq<CachedTexture>, next: HandleId, p: Seq<char>, q: Seq<char>)
    requires
        ids_below(entries, next),
        ids_distinct(entries),
    ensures
        cached_id(entries, q) != Some(next),
        p != q && cached_id(entries, p) is Some ==> cached_id(entries, q) != cached_id(entries, p),
{
    if exists|k: int| 0 <= k < entries.len() && entries[k].path@ == q {
        let w = choose|k: int| 0 <= k < entries.len() && entries[k].path@ == q;
        lemma_least_path(entries, q, w);
    }
    if exists|k: int| 0 <= k < entries.len() && entries[k].path@ == p {
        let w = choose|k: int| 0 <= k < entries.len() && entries[k].path@ == p;
        lemma_least_path(entries, p, w);
    }
}

/// The id after `id` in the order ids are handed out (wrapping after
/// `u64::MAX`).
pub open spec fn id_after(id: HandleId) -> HandleId {
    if id == u64::MAX { 0 } else { (id + 1) as HandleId }
}

/// What loading `path` does, given the cache entries, the next id, and what
/// the loader would give for the file: the entries and next id afterwards,
/// and the id handed out (none for a failed load). A cached path gives its
/// id without a load; otherwise a loaded texture is cached under the next
/// id, and a failed load changes nothing.
pub open spec fn texture_load(
    entries: Seq<CachedTexture>,
    next: HandleId,
    path: String,
    loaded: Result<Texture, String>,
) -> (Seq<CachedTexture>, HandleId, Option<HandleId>) {
    match cached_id(entries, path@) {
        Some(id) => (entries, next, Some(id)),
        None => match loaded {
            Ok(t) => (entries.push(CachedTexture { path, id: next, texture: t }), id_after(next), Some(next)),
            Err(_) => (entries, next, None),
        },
    }
}

/// Appending an entry keeps every cached path's id, and caches the new
/// entry's path if it was not cached.
proof fn lemma_cached_id_push(entries: Seq<CachedTexture>, e: CachedTexture, q: Seq<char>)
    ensures
        cached_id(entries.push(e), q) == (match cached_id(entries, q) {
            Some(id) => Some(id),
            None => if e.path@ == q { Some(e.id) } else { None },
        }),
{
    let after = entries.push(e);
    if exists|k: int| 0 <= k < entries.len() && entries[k].path@ == q {
        let w = choose|k: int| 0 <= k < entries.len() && entries[k].path@ == q;
        lemma_least_path(entries, q, w);
        let i = path_index(entries, q)->0;
        assert forall|j: int| 0 <= j < i implies after[j].path@ != q by { assert(after[j] == entries[j]); }
        assert(after[i] == entries[i]);
        lemma_path_index_is(after, q, i);
    } else if e.path@ == q {
        assert forall|j: int| 0 <= j < entries.len() implies after[j].path@ != q by { assert(after[j] == entries[j]); }
        lemma_path_index_is(after, q, entries.len() as int);
    } else {
        assert forall|j: int| 0 <= j < after.len() implies after[j].path@ != q by {
            if j < entries.len() { assert(after[j] == entries[j]); }
        }
    }
}

/// What a load promises across calls (as long as ids have not wrapped
/// around): once a load of `p` has given an id, loading `p` again gives the
/// same id and changes nothing, whatever the file holds by then (it is not
/// read again); a successful load of another path never gives that id; and a
/// failed load changes nothing.
pub proof fn lemma_texture_loads(
    entries: Seq<CachedTexture>,
    next: HandleId,
    p: String,
    first: Result<Texture, String>,
    q: String,
    other: Result<Texture, String>,
    again: Result<Texture, String>,
)
    requires
        ids_below(entries, next),
        ids_distinct(entries),
        next < u64::MAX,
    ensures
        ({
            let (e1, n1, r1) = texture_load(entries, next, p, first);
            &&& r1 is None ==> e1 == entries && n1 == next
            &&& r1 matches Some(id1) ==> {
                &&& texture_load(e1, n1, p, again) == (e1, n1, Some(id1))
                &&& q@ != p@ ==> texture_load(e1, n1, q, other).2 != Some(id1)
            }
        }),
{
    let (e1, n1, r1) = texture_load(entries, next, p, first);
    lemma_loads_never_share_ids(entries, next, p@, q@);
    match cached_id(entries, p@) {
        Some(id1) => {
            lemma_loads_never_share_ids(entries, next, q@, p@);
        },
        None => {
            if let Ok(t) = first {
                let e = CachedTexture { path: p, id: next, texture: t };
                lemma_cached_id_push(entries, e, p@);
                lemma_cached_id_push(entries, e, q@);
                if let Some(x) = cached_id(entries, q@) {
                    if exists|k: int| 0 <= k < entries.len() && entries[k].path@ == q@ {
                        let w = choose|k: int| 0 <= k < entries.len() && entries[k].path@ == q@;
                        lemma_least_path(entries, q@, w);
                    }
                }
            }
        },
    }
}

proof fn lemma_least_path(entries: Seq<CachedTexture>, path: Seq<char>, w: int)
    requires
        0 <= w < entries.len(),
        entries[w].path@ == path,
    ensures
        path_index(entries, path) matches Some(i) && 0 <= i < entries.len() && entries[i].path@ == path
            && forall|j: int| 0 <= j < i ==> entries[j].path@ != path,
    decreases w,
{
    if exists|j: int| 0 <= j < w && entries[j].path@ == path {
        let j = choose|j: int| 0 <= j < w && entries[j].path@ == path;
        lemma_least_path(entries, path, j);
    } else {
        lemma_path_index_is(entries, path, w);
    }
}

/// Registers the asset server with a configurable root path.
pub struct AssetsPlugin {
    /// Root directory for all game assets (relative to the binary).
    pub root: String,
}

impl Default for AssetsPlugin {
    /// The default configuration: assets under `assets`.
    fn default() -> (p: Self)
        ensures
            p.root@ == "assets"@,
    {
        AssetsPlugin { root: "assets".to_owned() }
    }
}

impl Plugin for AssetsPlugin {
    /// The name this plugin reports.
    open spec fn spec_name(&self) -> Seq<char> {
        "gur_assets"@
    }

    /// The plugin's unique name.
    fn name(&self) -> (n: &'static str)
        ensures
            n@ == "gur_assets"@,
    {
        "gur_assets"
    }
}

} // verus!
