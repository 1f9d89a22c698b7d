//! The per-session render cache: decoded rasters keyed by object
//! identifier, each guarded by a content hash for change detection.
//!
//! The cache belongs to the drawing-surface session and outlives individual
//! render passes.  A stored raster is reused as long as the owning object's
//! content hash is unchanged; a mismatch triggers a re-decode and replaces
//! the entry.  Handles are issued in order and identify uploaded rasters in
//! [`crate::commands::DrawCommand::Image`] commands.

use vstd::prelude::*;

use crate::pool::Colour;

verus! {

/// A decoded raster: a dense row-major grid of pixels, `None` standing for
/// a fully transparent pixel.
#[derive(Clone, Debug, PartialEq)]
pub struct Raster {
    pub width: u16,
    pub height: u16,
    pub pixels: Vec<Option<Colour>>,
}

/// The mathematical image of a raster.
pub struct RasterView {
    pub width: int,
    pub height: int,
    pub pixels: Seq<Option<Colour>>,
}

impl View for Raster {
    type V = RasterView;

    open spec fn view(&self) -> RasterView {
        RasterView { width: self.width as int, height: self.height as int, pixels: self.pixels@ }
    }
}

/// One cache slot: the content hash the raster was decoded from, the handle
/// issued at upload, and the raster itself.
#[derive(Clone, Debug, PartialEq)]
pub struct CacheEntry {
    pub hash: u64,
    pub handle: u64,
    pub raster: Raster,
}

/// The mathematical image of a cache slot.
pub struct EntryView {
    pub hash: u64,
    pub handle: u64,
    pub raster: RasterView,
}

impl View for CacheEntry {
    type V = EntryView;

    open spec fn view(&self) -> EntryView {
        EntryView { hash: self.hash, handle: self.handle, raster: self.raster@ }
    }
}

/// The session cache: identifier-keyed entries plus the next handle to
/// issue.
pub struct SessionCache {
    entries: Vec<(u16, CacheEntry)>,
    next_handle: u64,
}

/// The mathematical image of the session cache.
pub struct CacheView {
    pub entries: Seq<(u16, EntryView)>,
    pub next_handle: u64,
}

impl View for SessionCache {
    type V = CacheView;

    closed spec fn view(&self) -> CacheView {
        CacheView {
            entries: self.entries@.map_values(|p: (u16, CacheEntry)| (p.0, p.1@)),
            next_handle: self.next_handle,
        }
    }
}

/// First entry stored under `id`, if any.
pub open spec fn spec_cache_lookup(entries: Seq<(u16, EntryView)>, id: u16) -> Option<EntryView>
    decreases entries.len(),
{
    if entries.len() == 0 {
        None
    } else if entries[0].0 == id {
        Some(entries[0].1)
    } else {
        spec_cache_lookup(entries.drop_first(), id)
    }
}

/// The entry list after storing `e` under `id`: the first entry under `id`
/// is replaced, or the pair is appended when `id` is not present.
pub open spec fn spec_cache_store(
    entries: Seq<(u16, EntryView)>,
    id: u16,
    e: EntryView,
) -> Seq<(u16, EntryView)>
    decreases entries.len(),
{
    if entries.len() == 0 {
        seq![(id, e)]
    } else if entries[0].0 == id {
        seq![(id, e)] + entries.drop_first()
    } else {
        seq![entries[0]] + spec_cache_store(entries.drop_first(), id, e)
    }
}

/// The handle issued after `h`: the successor, wrapping at the top of the
/// handle space.
pub open spec fn spec_next_handle(h: u64) -> u64 {
    if h == u64::MAX {
        0
    } else {
        (h + 1) as u64
    }
}

/// Lookup finds the first entry stored under its identifier.
proof fn lemma_cache_lookup_at(s: Seq<(u16, EntryView)>, id: u16, i: int)
    requires
        0 <= i < s.len(),
        s[i].0 == id,
        forall|j: int| 0 <= j < i ==> s[j].0 != id,
    ensures
        spec_cache_lookup(s, id) == Some(s[i].1),
    decreases i,
{
    if i > 0 {
        lemma_cache_lookup_at(s.drop_first(), id, i - 1);
    }
}

/// Lookup misses when no entry carries the identifier.
proof fn lemma_cache_lookup_none(s: Seq<(u16, EntryView)>, id: u16)
    requires
        forall|j: int| 0 <= j < s.len() ==> s[j].0 != id,
    ensures
        spec_cache_lookup(s, id) is None,
    decreases s.len(),
{
    if s.len() > 0 {
        lemma_cache_lookup_none(s.drop_first(), id);
    }
}

/// Storing over the first entry under an identifier replaces it in place.
proof fn lemma_cache_store_at(s: Seq<(u16, EntryView)>, id: u16, e: EntryView, i: int)
    requires
        0 <= i < s.len(),
        s[i].0 == id,
        forall|j: int| 0 <= j < i ==> s[j].0 != id,
    ensures
        spec_cache_store(s, id, e) == s.update(i, (id, e)),
    decreases i,
{
    if i == 0 {
        assert(spec_cache_store(s, id, e) == seq![(id, e)] + s.drop_first());
        assert(seq![(id, e)] + s.drop_first() =~= s.update(0, (id, e)));
    } else {
        lemma_cache_store_at(s.drop_first(), id, e, i - 1);
        assert(spec_cache_store(s, id, e) == seq![s[0]] + spec_cache_store(s.drop_first(), id, e));
        assert(seq![s[0]] + s.drop_first().update(i - 1, (id, e)) =~= s.update(i, (id, e)));
    }
}

/// Storing under a fresh identifier appends the pair.
proof fn lemma_cache_store_append(s: Seq<(u16, EntryView)>, id: u16, e: EntryView)
    requires
        forall|j: int| 0 <= j < s.len() ==> s[j].0 != id,
    ensures
        spec_cache_store(s, id, e) == s.push((id, e)),
    decreases s.len(),
{
    if s.len() == 0 {
        assert(spec_cache_store(s, id, e) =~= s.push((id, e)));
    } else {
        lemma_cache_store_append(s.drop_first(), id, e);
        assert(spec_cache_store(s, id, e) == seq![s[0]] + s.drop_first().push((id, e)));
        assert(seq![s[0]] + s.drop_first().push((id, e)) =~= s.push((id, e)));
    }
}

impl SessionCache {
    /// A fresh session: no entries, handles issued from zero.
    pub fn new() -> (c: SessionCache)
        ensures
            c@.entries.len() == 0,
            c@.next_handle == 0,
    {
        SessionCache { entries: Vec::new(), next_handle: 0 }
    }

    /// The position of the first entry stored under `id`, if any.
    fn find_index(&self, id: u16) -> (r: Option<usize>)
        ensures
            match r {
                Some(i) => i < self@.entries.len() && self@.entries[i as int].0 == id && (forall|
                    j: int,
                |
                    0 <= j < i ==> self@.entries[j].0 != id),
                None => forall|j: int| 0 <= j < self@.entries.len() ==> self@.entries[j].0 != id,
            },
    {
        let n = self.entries.len();
        let mut i: usize = 0;
        while i < n
            invariant
                i <= n,
                n == self.entries@.len(),
                self@.entries.len() == n,
                forall|j: int| 0 <= j < i ==> self@.entries[j].0 != id,
            decreases n - i,
        {
            proof {
                assert(self@.entries[i as int] == (self.entries@[i as int].0,
                    self.entries@[i as int].1@));
            }
            if self.entries[i].0 == id {
                return Some(i);
            }
            i = i + 1;
        }
        None
    }

    /// The entry stored under `id`, if any.
    pub fn get(&self, id: u16) -> (r: Option<&CacheEntry>)
        ensures
            match r {
                Some(e) => spec_cache_lookup(self@.entries, id) == Some(e@),
                None => spec_cache_lookup(self@.entries, id) is None,
            },
    {
        match self.find_index(id) {
            Some(i) => {
                proof {
                    lemma_cache_lookup_at(self@.entries, id, i as int);
                    assert(self@.entries[i as int] == (self.entries@[i as int].0,
                        self.entries@[i as int].1@));
                }
                Some(&self.entries[i].1)
            },
            None => {
                proof {
                    lemma_cache_lookup_none(self@.entries, id);
                }
                None
            },
        }
    }

    /// Stores `raster` under `id`, guarded by `hash`, replacing any prior
    /// entry for `id`.  Returns the handle issued for the upload.
    pub fn put(&mut self, id: u16, hash: u64, raster: Raster) -> (handle: u64)
        ensures
            handle == old(self)@.next_handle,
            final(self)@.next_handle == spec_next_handle(old(self)@.next_handle),
            final(self)@.entries == spec_cache_store(
                old(self)@.entries,
                id,
                EntryView { hash, handle, raster: raster@ },
            ),
    {
        let handle = self.next_handle;
        let entry = CacheEntry { hash, handle, raster };
        let ghost e = entry@;
        let ghost entries0 = self@.entries;
        match self.find_index(id) {
            Some(i) => {
                proof {
                    lemma_cache_store_at(entries0, id, e, i as int);
                }
                self.entries.set(i, (id, entry));
                proof {
                    assert(self@.entries =~= entries0.update(i as int, (id, e)));
                }
            },
            None => {
                proof {
                    lemma_cache_store_append(entries0, id, e);
                }
                self.entries.push((id, entry));
                proof {
                    assert(self@.entries =~= entries0.push((id, e)));
                }
            },
        }
        if self.next_handle == u64::MAX {
            self.next_handle = 0;
        } else {
            self.next_handle = self.next_handle + 1;
        }
        handle
    }

    /// The raster uploaded under `handle`, if any entry still carries it;
    /// the host uses this to materialise textures for image commands.
    pub fn raster_by_handle(&self, handle: u64) -> (r: Option<&Raster>)
        ensures
            match r {
                Some(ra) => exists|j: int|
                    0 <= j < self@.entries.len() && self@.entries[j].1.handle == handle
                        && self@.entries[j].1.raster == ra@,
                None => forall|j: int|
                    0 <= j < self@.entries.len() ==> self@.entries[j].1.handle != handle,
            },
    {
        let n = self.entries.len();
        let mut i: usize = 0;
        while i < n
            invariant
                i <= n,
                n == self.entries@.len(),
                forall|j: int| 0 <= j < i ==> self@.entries[j].1.handle != handle,
            decreases n - i,
        {
            proof {
                assert(self@.entries[i as int] == (self.entries@[i as int].0,
                    self.entries@[i as int].1@));
            }
            if self.entries[i].1.handle == handle {
                return Some(&self.entries[i].1.raster);
            }
            i = i + 1;
        }
        None
    }
}

} // verus!
