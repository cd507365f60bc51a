//! The glyph-atlas cache: a map from `(highlight id, character)` to a
//! rectangle of a shared horizontal glyph strip.
//!
//! Entries are append-only: a glyph is rasterized once, at the strip's
//! append cursor, and its rectangle never moves and is never evicted. The
//! whole strip is abandoned and rebuilt when its owning surface is resized,
//! not on cache growth. The cache's invariant keeps the rectangles of
//! distinct keys disjoint; [`lemma_atlas_slots_disjoint`] states that as a
//! law.

use vstd::prelude::*;
use crate::table::assoc_find;
use crate::table::assoc_map;
use crate::table::has_key;
use crate::table::keys_unique;
use crate::table::lemma_assoc_map_dom;
use crate::table::lemma_assoc_map_index;
use crate::table::lemma_assoc_map_push;

verus! {

/// The single integer a `(highlight id, character)` pair is packed into:
/// the attribute id in the high 32 bits, the character in the low 32.
pub open spec fn spec_atlas_key(attr_id: u64, char_id: u64) -> u64 {
    ((attr_id & 0xffff_ffff) << 32) | (char_id & 0xffff_ffff)
}

/// Packs a cell's highlight id and character code into one cache key.
pub fn atlas_key(attr_id: u64, char_id: u64) -> (r: u64)
    ensures
        r == spec_atlas_key(attr_id, char_id),
{
    ((attr_id & 0xffff_ffff) << 32) | (char_id & 0xffff_ffff)
}

/// Within their 32-bit ranges — highlight ids are small and characters fit —
/// distinct `(highlight id, character)` pairs pack to distinct keys, so
/// [`lemma_atlas_slots_disjoint`] speaks of every pair of distinct cells.
pub proof fn lemma_atlas_key_injective(a1: u64, c1: u64, a2: u64, c2: u64)
    requires
        a1 < 0x1_0000_0000,
        c1 < 0x1_0000_0000,
        a2 < 0x1_0000_0000,
        c2 < 0x1_0000_0000,
        (a1, c1) != (a2, c2),
    ensures
        spec_atlas_key(a1, c1) != spec_atlas_key(a2, c2),
{
    assert((a1 != a2 || c1 != c2) && a1 < 0x1_0000_0000 && c1 < 0x1_0000_0000 && a2
        < 0x1_0000_0000 && c2 < 0x1_0000_0000 ==> ((a1 & 0xffff_ffff) << 32) | (c1 & 0xffff_ffff)
        != ((a2 & 0xffff_ffff) << 32) | (c2 & 0xffff_ffff)) by (bit_vector);
}

/// One cached glyph's rectangle: its x offset into the strip and its width.
/// The strip's height is the font height, shared by every entry.
#[derive(Clone, Copy, Debug, PartialEq, Eq, Structural)]
pub struct AtlasSlot {
    pub x: i32,
    pub width: u32,
}

/// Where a slot ends within the strip.
pub open spec fn slot_end(s: AtlasSlot) -> int {
    s.x + s.width
}

/// Two slots occupy disjoint column ranges of the strip.
pub open spec fn slots_disjoint(a: AtlasSlot, b: AtlasSlot) -> bool {
    slot_end(a) <= b.x || slot_end(b) <= a.x
}

/// The mathematical model of the cache: the slot map and the append cursor.
#[verifier::ext_equal]
pub struct AtlasView {
    pub slots: Map<u64, AtlasSlot>,
    pub next_slot: int,
}

/// The glyph-atlas cache of one rendering surface.
pub struct AtlasCache {
    entries: Vec<(u64, AtlasSlot)>,
    next_slot: i32,
}

impl View for AtlasCache {
    type V = AtlasView;

    closed spec fn view(&self) -> AtlasView {
        AtlasView { slots: assoc_map(self.entries@), next_slot: self.next_slot as int }
    }
}

impl AtlasCache {
    /// Distinct keys, and entries laid left to right: each slot starts at or
    /// after zero and ends at or before the next entry's start — the append
    /// cursor after the last.
    pub closed spec fn wf(self) -> bool {
        &&& 0 <= self.next_slot
        &&& keys_unique(self.entries@)
        &&& forall|i: int|
            0 <= i < self.entries@.len() ==> 0 <= (#[trigger] self.entries@[i]).1.x
        &&& forall|i: int|
            0 <= i < self.entries@.len() ==> slot_end((#[trigger] self.entries@[i]).1) <= (
            if i + 1 < self.entries@.len() {
                self.entries@[i + 1].1.x as int
            } else {
                self.next_slot as int
            })
    }

    /// An empty cache with the append cursor at the strip's left edge.
    pub fn new() -> (c: AtlasCache)
        ensures
            c@.slots == Map::<u64, AtlasSlot>::empty(),
            c@.next_slot == 0,
            c.wf(),
    {
        let c = AtlasCache { entries: Vec::new(), next_slot: 0 };
        proof {
            assert(c@.slots =~= Map::<u64, AtlasSlot>::empty());
        }
        c
    }

    /// The cached rectangle for a key: on a hit the stored rectangle comes
    /// back, identical on every later request; a miss means the caller must
    /// rasterize and insert.
    pub fn get(&self, key: u64) -> (r: Option<AtlasSlot>)
        requires
            self.wf(),
        ensures
            match r {
                Some(s) => self@.slots.dom().contains(key) && s == self@.slots[key],
                None => !self@.slots.dom().contains(key),
            },
    {
        proof {
            lemma_assoc_map_dom(self.entries@);
        }
        match assoc_find(&self.entries, key) {
            Some(i) => {
                proof {
                    lemma_assoc_map_index(self.entries@, i as int);
                }
                Some(self.entries[i].1)
            },
            None => None,
        }
    }

    /// The append cursor: where the next glyph will land in the strip.
    pub fn next_slot(&self) -> (r: i32)
        ensures
            r as int == self@.next_slot,
    {
        self.next_slot
    }

    /// The number of cached glyphs.
    pub fn len(&self) -> (r: usize)
        requires
            self.wf(),
        ensures
            r as nat == self@.slots.dom().len(),
    {
        proof {
            lemma_atlas_dom_len(self.entries@);
        }
        self.entries.len()
    }

    /// Caches a freshly rasterized glyph of the given width: it lands at the
    /// append cursor, which advances past it. Nothing already cached moves.
    pub fn insert(&mut self, key: u64, width: u32) -> (x: i32)
        requires
            old(self).wf(),
            !old(self)@.slots.dom().contains(key),
            old(self)@.next_slot + width <= i32::MAX,
        ensures
            x as int == old(self)@.next_slot,
            final(self)@.slots == old(self)@.slots.insert(key, AtlasSlot { x, width }),
            final(self)@.next_slot == old(self)@.next_slot + width,
            final(self).wf(),
    {
        let ghost e0 = self.entries@;
        proof {
            lemma_assoc_map_dom(e0);
        }
        let x = self.next_slot;
        let slot = AtlasSlot { x, width };
        self.entries.push((key, slot));
        self.next_slot = x + width as i32;
        proof {
            lemma_assoc_map_push(e0, key, slot);
            assert(final(self)@.slots =~= old(self)@.slots.insert(key, slot));
            assert forall|i: int|
                0 <= i < self.entries@.len() implies slot_end((#[trigger] self.entries@[i]).1) <= (
            if i + 1 < self.entries@.len() {
                self.entries@[i + 1].1.x as int
            } else {
                self.next_slot as int
            }) by {
                if i + 1 < self.entries@.len() {
                    assert(self.entries@[i] == e0[i]);
                }
            }
        }
        x
    }

}

/// In a table with distinct keys, the denoted map has one entry per row.
proof fn lemma_atlas_dom_len(s: Seq<(u64, AtlasSlot)>)
    ensures
        assoc_map(s).dom().finite(),
        keys_unique(s) ==> assoc_map(s).dom().len() == s.len(),
    decreases s.len(),
{
    if s.len() > 0 && !keys_unique(s) {
        lemma_atlas_dom_len(s.drop_last());
        vstd::set::axiom_set_insert_finite(assoc_map(s.drop_last()).dom(), s.last().0);
        assert(assoc_map(s).dom() =~= assoc_map(s.drop_last()).dom().insert(s.last().0));
    }
    if s.len() > 0 && keys_unique(s) {
        lemma_atlas_dom_len(s.drop_last());
        lemma_assoc_map_dom(s.drop_last());
        assert forall|i: int, j: int|
            0 <= i < j < s.drop_last().len() implies (#[trigger] s.drop_last()[i]).0 != (
        #[trigger] s.drop_last()[j]).0 by {
            assert(s.drop_last()[i] == s[i] && s.drop_last()[j] == s[j]);
        }
        assert(!has_key(s.drop_last(), s.last().0)) by {
            if has_key(s.drop_last(), s.last().0) {
                let i = choose|i: int|
                    0 <= i < s.drop_last().len() && (#[trigger] s.drop_last()[i]).0 == s.last().0;
                assert(s[i].0 == s[s.len() - 1].0);
            }
        }
        assert(!assoc_map(s.drop_last()).dom().contains(s.last().0));
        vstd::set::axiom_set_insert_finite(assoc_map(s.drop_last()).dom(), s.last().0);
        vstd::set::axiom_set_insert_len(assoc_map(s.drop_last()).dom(), s.last().0);
        assert(assoc_map(s).dom() =~= assoc_map(s.drop_last()).dom().insert(s.last().0));
    }
}

/// Entries left of others in the table end before they start.
proof fn lemma_atlas_ordered(c: &AtlasCache, i: int, j: int)
    requires
        c.wf(),
        0 <= i < j < atlas_entries(c).len(),
    ensures
        slot_end(atlas_entries(c)[i].1) <= atlas_entries(c)[j].1.x,
    decreases j - i,
{
    let e = atlas_entries(c);
    assert(slot_end(e[i].1) <= (if i + 1 < e.len() {
        e[i + 1].1.x as int
    } else {
        atlas_next(c)
    }));
    if i + 1 < j {
        assert(e[i + 1].1.x as int <= slot_end(e[i + 1].1));
        lemma_atlas_ordered(c, i + 1, j);
    }
}

/// The cache's append cursor, for this module's own proofs.
pub(crate) closed spec fn atlas_next(c: &AtlasCache) -> int {
    c.next_slot as int
}

/// The cache's entry table, for this module's own proofs.
pub(crate) closed spec fn atlas_entries(c: &AtlasCache) -> Seq<(u64, AtlasSlot)> {
    c.entries@
}

/// The rectangles the cache hands out for two different keys never overlap
/// within one strip.
pub proof fn lemma_atlas_slots_disjoint(c: &AtlasCache, k1: u64, k2: u64)
    requires
        c.wf(),
        k1 != k2,
        c@.slots.dom().contains(k1),
        c@.slots.dom().contains(k2),
    ensures
        slots_disjoint(c@.slots[k1], c@.slots[k2]),
{
    let e = atlas_entries(c);
    lemma_assoc_map_dom(e);
    let i = choose|i: int| 0 <= i < e.len() && (#[trigger] e[i]).0 == k1;
    let j = choose|j: int| 0 <= j < e.len() && (#[trigger] e[j]).0 == k2;
    lemma_assoc_map_index(e, i);
    lemma_assoc_map_index(e, j);
    if i < j {
        lemma_atlas_ordered(c, i, j);
    } else {
        lemma_atlas_ordered(c, j, i);
    }
}

} // verus!
