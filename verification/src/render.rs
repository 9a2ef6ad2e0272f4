//! Render configuration (the pixel-art canvas size, sprite flips) and the
//! cache of uploaded textures.

use crate::plugin::Plugin;
use std::collections::HashMap;
use vstd::prelude::*;

verus! {

broadcast use vstd::std_specs::hash::group_hash_axioms;

/// Internal canvas width (retro pixel-art target).
pub const CANVAS_WIDTH: u32 = 320;
/// Internal canvas height.
pub const CANVAS_HEIGHT: u32 = 180;

/// Which axes to flip a sprite on.
#[derive(Debug, Clone, Copy, PartialEq, Eq, Structural)]
pub enum SpriteFlip {
    /// No flip.
    NoFlip,
    /// Mirror horizontally.
    Horizontal,
    /// Mirror vertically.
    Vertical,
    /// Mirror both.
    Both,
}

/// The handle id the fallback texture is kept under.
pub const FALLBACK_TEXTURE: u64 = 0;

/// The uploaded textures by handle id, with the fallback texture kept apart
/// so that it is always there.
pub struct GpuTextureCache<T> {
    fallback: T,
    others: HashMap<u64, T>,
}

impl<T> GpuTextureCache<T> {
    /// The textures by handle id.
    pub closed spec fn textures(&self) -> Map<u64, T> {
        self.others@.insert(FALLBACK_TEXTURE, self.fallback)
    }

    /// A cache holding only the fallback texture.
    pub fn new(fallback: T) -> (c: Self)
        ensures
            c.textures() == map![FALLBACK_TEXTURE => fallback],
    {
        let c = GpuTextureCache { fallback, others: HashMap::new() };
        proof { assert(c.textures() =~= map![FALLBACK_TEXTURE => fallback]); }
        c
    }

    /// `true` if a texture is kept under `id`.
    pub fn contains(&self, id: u64) -> (b: bool)
        ensures
            b == self.textures().contains_key(id),
    {
        id == FALLBACK_TEXTURE || self.others.contains_key(&id)
    }

    /// Keep `texture` under `id`, replacing what was there.
    pub fn upload(&mut self, id: u64, texture: T)
        ensures
            final(self).textures() == old(self).textures().insert(id, texture),
    {
        if id == FALLBACK_TEXTURE {
            self.fallback = texture;
        } else {
            self.others.insert(id, texture);
        }
        proof { assert(self.textures() =~= old(self).textures().insert(id, texture)); }
    }

    /// The texture kept under `id`, or the fallback.
    pub fn get(&self, id: u64) -> (t: &T)
        ensures
            *t == (if self.textures().contains_key(id) { self.textures()[id] } else { self.textures()[FALLBACK_TEXTURE] }),
    {
        if id == FALLBACK_TEXTURE {
            return &self.fallback;
        }
        match self.others.get(&id) {
            Some(t) => t,
            None => &self.fallback,
        }
    }
}

/// The fallback is always there: an unknown id gives the fallback texture,
/// and uploading never removes it.
pub proof fn lemma_fallback_survives_uploads<T>(m: Map<u64, T>, id: u64, t: T)
    requires
        m.contains_key(FALLBACK_TEXTURE),
    ensures
        m.insert(id, t).contains_key(FALLBACK_TEXTURE),
        id != FALLBACK_TEXTURE ==> m.insert(id, t)[FALLBACK_TEXTURE] == m[FALLBACK_TEXTURE],
{
}

/// Most sprites drawn in one frame.
pub const MAX_SPRITES: usize = 4096;

/// One frame's queued sprite draws (of type `C`), in the order queued; draws
/// beyond [`MAX_SPRITES`] are dropped.
pub struct SpriteQueue<C> {
    calls: Vec<C>,
}

impl<C> SpriteQueue<C> {
    /// The queued draws.
    pub closed spec fn queued(&self) -> Seq<C> {
        self.calls@
    }

    /// An empty queue.
    pub fn new() -> (q: Self)
        ensures
            q.queued() == Seq::<C>::empty(),
    {
        SpriteQueue { calls: Vec::new() }
    }

    /// Start a new frame with nothing queued.
    pub fn begin_frame(&mut self)
        ensures
            final(self).queued() == Seq::<C>::empty(),
    {
        self.calls.clear();
    }

    /// Queue a draw, unless the frame already holds [`MAX_SPRITES`].
    pub fn draw(&mut self, call: C)
        ensures
            final(self).queued() == (if old(self).queued().len() < MAX_SPRITES { old(self).queued().push(call) } else { old(self).queued() }),
    {
        if self.calls.len() < MAX_SPRITES {
            self.calls.push(call);
        }
    }

    /// The queued draws, to sort and submit.
    pub fn calls_mut(&mut self) -> (v: &mut Vec<C>)
        ensures
            v@ == old(self).queued(),
            final(self).queued() == final(v)@,
    {
        &mut self.calls
    }

    /// The queued draws.
    pub fn calls(&self) -> (v: &[C])
        ensures
            v@ == self.queued(),
    {
        self.calls.as_slice()
    }
}

/// A frame never holds more than [`MAX_SPRITES`] draws.
pub proof fn lemma_queue_stays_bounded<C>(q: Seq<C>, call: C)
    requires
        q.len() <= MAX_SPRITES,
    ensures
        (if q.len() < MAX_SPRITES { q.push(call) } else { q }).len() <= MAX_SPRITES,
{
}

/// Window settings for the renderer; inserts the 2D camera resource.
pub struct RenderPlugin {
    /// Window title.
    pub title: String,
    /// Desired window width in screen pixels.
    pub window_width: u32,
    /// Desired window height in screen pixels.
    pub window_height: u32,
}

impl Default for RenderPlugin {
    /// A 1280×720 window titled "GUR".
    fn default() -> (p: Self)
        ensures
            p.title@ == "GUR"@,
            p.window_width == 1280,
            p.window_height == 720,
    {
        RenderPlugin { title: "GUR".to_owned(), window_width: 1280, window_height: 720 }
    }
}

impl Plugin for RenderPlugin {
    /// The name this plugin reports.
    open spec fn spec_name(&self) -> Seq<char> {
        "gur_render"@
    }

    /// The plugin's unique name.
    fn name(&self) -> (n: &'static str)
        ensures
            n@ == "gur_render"@,
    {
        "gur_render"
    }
}

} // verus!
