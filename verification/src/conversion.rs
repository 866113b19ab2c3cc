//! The pending-conversion registry and the per-tick scheduler pass.

use vstd::prelude::*;

use crate::assets::AssetTable;
use crate::assets::spec_converted_slot;
use crate::assets::spec_is_loaded;
use crate::texture::Texture;
use crate::texture::TextureHandle;
use crate::texture::spec_convert;

verus! {

/// The worklist left after one scheduler pass over `entries` against the
/// table contents `slots`: every entry whose handle resolves to a present
/// texture is removed, every other entry stays, in its original order.
pub open spec fn spec_pending(
    entries: Seq<TextureHandle>,
    slots: Seq<Option<Texture>>,
) -> Seq<TextureHandle>
    decreases entries.len(),
{
    if entries.len() == 0 {
        Seq::empty()
    } else {
        let prefix = spec_pending(entries.drop_last(), slots);
        if spec_is_loaded(slots, entries.last()) {
            prefix
        } else {
            prefix.push(entries.last())
        }
    }
}

/// How many entries of `entries` resolve to a present texture in `slots`:
/// the number a single scheduler pass converts.
pub open spec fn spec_ready_count(entries: Seq<TextureHandle>, slots: Seq<Option<Texture>>) -> nat
    decreases entries.len(),
{
    if entries.len() == 0 {
        0
    } else {
        spec_ready_count(entries.drop_last(), slots) + if spec_is_loaded(slots, entries.last()) {
            1nat
        } else {
            0nat
        }
    }
}

/// Whether some entry of `entries` points at slot `j`.
pub open spec fn spec_mentions_id(entries: Seq<TextureHandle>, j: int) -> bool {
    exists|k: int| 0 <= k < entries.len() && (#[trigger] entries[k]).id == j
}

/// What slot `j` holds after one scheduler pass over `entries`: a present
/// texture pointed at by some entry has been converted; every other slot is
/// untouched.
pub open spec fn spec_slot_after(
    entries: Seq<TextureHandle>,
    slots: Seq<Option<Texture>>,
    j: int,
) -> Option<Texture>
    recommends
        0 <= j < slots.len(),
{
    if spec_mentions_id(entries, j) {
        spec_converted_slot(slots[j])
    } else {
        slots[j]
    }
}

/// The ordered worklist of texture handles submitted for skybox conversion.
///
/// Submission is independent of load state; entries wait here until the
/// scheduler observes their texture loaded. The list is private: nothing
/// outside the scheduler may touch it except through
/// [`SkyboxTextureConversion::make_array`]. A handle submitted twice makes
/// two independent entries; the conversion guard makes the second attempt a
/// refused no-op.
pub struct SkyboxTextureConversion {
    /// List of texture handles that should become skyboxes.
    handles: Vec<TextureHandle>,
}

impl View for SkyboxTextureConversion {
    type V = Seq<TextureHandle>;

    closed spec fn view(&self) -> Seq<TextureHandle> {
        self.handles@
    }
}

impl SkyboxTextureConversion {
    /// An empty registry.
    pub fn new() -> (registry: SkyboxTextureConversion)
        ensures
            registry@ == Seq::<TextureHandle>::empty(),
    {
        SkyboxTextureConversion { handles: Vec::new() }
    }

    /// Submits a handle to a texture whose dimensions are `N` wide by `6*N`
    /// high. The scheduler waits for it to load and then reinterprets it as
    /// six square layers viewed as a cube. Appends unconditionally, in
    /// constant time, with no deduplication.
    pub fn make_array(&mut self, handle: TextureHandle)
        ensures
            final(self)@ == old(self)@.push(handle),
    {
        self.handles.push(handle);
    }

    /// The number of entries still waiting.
    pub fn len(&self) -> (n: usize)
        ensures
            n == self@.len(),
    {
        self.handles.len()
    }

    /// The `i`-th waiting entry, in submission order, if there is one.
    pub fn get(&self, i: usize) -> (entry: Option<TextureHandle>)
        ensures
            i < self@.len() ==> entry == Some(self@[i as int]),
            i >= self@.len() ==> entry is None,
    {
        if i < self.handles.len() {
            Some(self.handles[i])
        } else {
            None
        }
    }
}

impl Default for SkyboxTextureConversion {
    /// An empty registry.
    fn default() -> (registry: SkyboxTextureConversion)
        ensures
            registry@ == Seq::<TextureHandle>::empty(),
    {
        SkyboxTextureConversion::new()
    }
}

/// One scheduler pass, run once per host tick: walks the registry in order,
/// converts every entry whose texture has finished loading, and leaves the
/// rest pending for a later tick. The pass never blocks on an unfinished
/// load and one unconvertible texture never stops the others.
///
/// Afterwards the registry holds exactly the entries that were not loaded,
/// in their original order, and each slot some entry pointed at holds the
/// converted form of the texture it held before; no other slot changes.
///
/// Known limitation: an entry is only removed once it resolves to a present
/// texture, so a handle whose load never completes stays pending forever,
/// costing one constant-time check per tick. Deliberately, nothing here
/// times such an entry out.
pub fn convert_skyboxes(conversions: &mut SkyboxTextureConversion, textures: &mut AssetTable)
    ensures
        final(conversions)@ == spec_pending(old(conversions)@, old(textures)@),
        final(textures)@.len() == old(textures)@.len(),
        forall|j: int|
            0 <= j < old(textures)@.len() ==> final(textures)@[j] == spec_slot_after(
                old(conversions)@,
                old(textures)@,
                j,
            ),
        final(conversions)@.len() + spec_ready_count(old(conversions)@, old(textures)@) == old(
            conversions,
        )@.len(),
        forall|h: TextureHandle|
            #[trigger] final(conversions)@.contains(h) ==> old(conversions)@.contains(h)
                && !spec_is_loaded(old(textures)@, h),
{
    let ghost entries0 = conversions.handles@;
    let ghost slots0 = textures@;
    let mut i: usize = 0;
    let ghost mut processed: int = 0;
    while i < conversions.handles.len()
        invariant
            0 <= processed <= entries0.len(),
            i as int == spec_pending(entries0.take(processed), slots0).len(),
            conversions.handles@ == spec_pending(entries0.take(processed), slots0) + entries0.skip(
                processed,
            ),
            textures@.len() == slots0.len(),
            forall|j: int|
                0 <= j < slots0.len() ==> textures@[j] == spec_slot_after(
                    entries0.take(processed),
                    slots0,
                    j,
                ),
        decreases entries0.len() - processed,
    {
        proof {
            lemma_pending_len(entries0.take(processed), slots0);
            if processed >= entries0.len() {
                assert(entries0.take(processed) =~= entries0);
                assert(entries0.skip(processed) =~= Seq::<TextureHandle>::empty());
                assert(false);
            }
        }
        let h = conversions.handles[i];
        proof {
            assert(conversions.handles@[i as int] == entries0.skip(processed)[0]);
            assert(entries0.skip(processed)[0] == entries0[processed]);
            assert(entries0.take(processed + 1).drop_last() =~= entries0.take(processed));
            assert(entries0.take(processed + 1).last() == h);
        }
        if textures.is_loaded(h) {
            proof {
                lemma_loadedness_preserved(entries0.take(processed), slots0, textures@, h);
                assert(spec_is_loaded(slots0, h));
            }
            conversions.handles.remove(i);
            let ghost slots_mid = textures@;
            let _ = textures.convert_slot(h);
            proof {
                assert(spec_pending(entries0.take(processed + 1), slots0) == spec_pending(
                    entries0.take(processed),
                    slots0,
                ));
                assert(conversions.handles@ =~= spec_pending(
                    entries0.take(processed + 1),
                    slots0,
                ) + entries0.skip(processed + 1));
                assert forall|j: int| 0 <= j < slots0.len() implies textures@[j] == spec_slot_after(
                    entries0.take(processed + 1),
                    slots0,
                    j,
                ) by {
                    lemma_mentions_take_step(entries0, processed, j);
                    if j == h.id {
                        assert(spec_mentions_id(entries0.take(processed + 1), j)) by {
                            assert(entries0.take(processed + 1)[processed].id == j);
                        }
                        if spec_mentions_id(entries0.take(processed), j) {
                            assert(slots_mid[j] == spec_converted_slot(slots0[j]));
                            lemma_converted_slot_idempotent(slots0[j]);
                        } else {
                            assert(slots_mid[j] == slots0[j]);
                        }
                    } else {
                        assert(textures@[j] == slots_mid[j]);
                    }
                }
            }
        } else {
            proof {
                lemma_loadedness_preserved(entries0.take(processed), slots0, textures@, h);
                assert(!spec_is_loaded(slots0, h));
            }
            i = i + 1;
            proof {
                assert(spec_pending(entries0.take(processed + 1), slots0) == spec_pending(
                    entries0.take(processed),
                    slots0,
                ).push(h));
                assert(conversions.handles@ =~= spec_pending(
                    entries0.take(processed + 1),
                    slots0,
                ) + entries0.skip(processed + 1));
                assert forall|j: int| 0 <= j < slots0.len() implies textures@[j] == spec_slot_after(
                    entries0.take(processed + 1),
                    slots0,
                    j,
                ) by {
                    lemma_mentions_take_step(entries0, processed, j);
                    if j == h.id {
                        assert(slots0[j] is None);
                        assert(spec_converted_slot(slots0[j]) == slots0[j]);
                    }
                }
            }
        }
        proof {
            processed = processed + 1;
        }
    }
    proof {
        lemma_pending_len(entries0.take(processed), slots0);
        assert(entries0.skip(processed).len() == 0);
        assert(processed == entries0.len());
        assert(entries0.take(processed) =~= entries0);
        assert(conversions.handles@ =~= spec_pending(entries0, slots0));
        lemma_single_pass_no_starvation(entries0, slots0);
    }
}

/// A pass never grows the worklist: what is left is at most what was there.
proof fn lemma_pending_len(entries: Seq<TextureHandle>, slots: Seq<Option<Texture>>)
    ensures
        spec_pending(entries, slots).len() <= entries.len(),
    decreases entries.len(),
{
    if entries.len() > 0 {
        lemma_pending_len(entries.drop_last(), slots);
    }
}

/// A pass changes what a slot holds, never whether it holds something, so an
/// entry resolves to a present texture mid-pass exactly when it did at the
/// start of the pass.
proof fn lemma_loadedness_preserved(
    entries: Seq<TextureHandle>,
    slots: Seq<Option<Texture>>,
    current: Seq<Option<Texture>>,
    h: TextureHandle,
)
    requires
        current.len() == slots.len(),
        forall|j: int| 0 <= j < slots.len() ==> current[j] == spec_slot_after(entries, slots, j),
    ensures
        spec_is_loaded(current, h) == spec_is_loaded(slots, h),
{
    if h.id < slots.len() {
        assert(current[h.id as int] == spec_slot_after(entries, slots, h.id as int));
    }
}

/// Extending a prefix of the worklist by its next entry mentions a slot
/// exactly when the prefix does or the next entry points at it.
proof fn lemma_mentions_take_step(entries: Seq<TextureHandle>, n: int, j: int)
    requires
        0 <= n < entries.len(),
    ensures
        spec_mentions_id(entries.take(n + 1), j) == (spec_mentions_id(entries.take(n), j)
            || entries[n].id == j),
{
    if spec_mentions_id(entries.take(n + 1), j) {
        let k = choose|k: int|
            0 <= k < entries.take(n + 1).len() && (#[trigger] entries.take(n + 1)[k]).id == j;
        if k < n {
            assert(entries.take(n)[k].id == j);
        }
    }
    if spec_mentions_id(entries.take(n), j) {
        let k = choose|k: int|
            0 <= k < entries.take(n).len() && (#[trigger] entries.take(n)[k]).id == j;
        assert(entries.take(n + 1)[k].id == j);
    }
    if entries[n].id == j {
        assert(entries.take(n + 1)[n].id == j);
    }
}

/// Converting what a pass already converted changes nothing further.
proof fn lemma_converted_slot_idempotent(slot: Option<Texture>)
    ensures
        spec_converted_slot(spec_converted_slot(slot)) == spec_converted_slot(slot),
{
    match slot {
        Some(t) => {
            crate::texture::lemma_convert_idempotent(t);
        },
        None => {},
    }
}

/// Termination per entry: an entry whose handle resolves to a present
/// texture never survives the pass it became ready in; it is converted
/// within exactly one scheduler pass of loading.
pub proof fn lemma_ready_entry_leaves(
    entries: Seq<TextureHandle>,
    slots: Seq<Option<Texture>>,
    h: TextureHandle,
)
    requires
        spec_is_loaded(slots, h),
    ensures
        !spec_pending(entries, slots).contains(h),
    decreases entries.len(),
{
    if entries.len() > 0 {
        lemma_ready_entry_leaves(entries.drop_last(), slots, h);
        let prefix = spec_pending(entries.drop_last(), slots);
        if !spec_is_loaded(slots, entries.last()) {
            assert forall|k: int|
                0 <= k < prefix.push(entries.last()).len() implies prefix.push(entries.last())[k]
                != h by {
                if k < prefix.len() {
                    assert(prefix.push(entries.last())[k] == prefix[k]);
                    assert(!prefix.contains(h));
                }
            }
        }
    }
}

/// No starvation, and nothing dropped early: a single pass removes exactly
/// the entries that resolve to a present texture, so what remains pending
/// are precisely the submitted handles still waiting on their load.
pub proof fn lemma_single_pass_no_starvation(
    entries: Seq<TextureHandle>,
    slots: Seq<Option<Texture>>,
)
    ensures
        spec_pending(entries, slots).len() + spec_ready_count(entries, slots) == entries.len(),
        forall|h: TextureHandle|
            #[trigger] spec_pending(entries, slots).contains(h) ==> entries.contains(h)
                && !spec_is_loaded(slots, h),
        forall|h: TextureHandle|
            entries.contains(h) && !spec_is_loaded(slots, h) ==> spec_pending(
                entries,
                slots,
            ).contains(h),
    decreases entries.len(),
{
    if entries.len() > 0 {
        lemma_single_pass_no_starvation(entries.drop_last(), slots);
        let sub = entries.drop_last();
        let prefix = spec_pending(sub, slots);
        let pend = spec_pending(entries, slots);
        assert forall|h: TextureHandle| #[trigger] pend.contains(h) implies entries.contains(h)
            && !spec_is_loaded(slots, h) by {
            let k = choose|k: int| 0 <= k < pend.len() && pend[k] == h;
            if k < prefix.len() {
                assert(prefix.contains(h));
                let k2 = choose|k2: int| 0 <= k2 < sub.len() && sub[k2] == h;
                assert(entries[k2] == h);
            } else {
                assert(h == entries.last());
            }
        }
        assert forall|h: TextureHandle|
            entries.contains(h) && !spec_is_loaded(slots, h) implies pend.contains(h) by {
            let k = choose|k: int| 0 <= k < entries.len() && entries[k] == h;
            if k < sub.len() {
                assert(sub[k] == h);
                assert(sub.contains(h));
                assert(prefix.contains(h));
                let k2 = choose|k2: int| 0 <= k2 < prefix.len() && prefix[k2] == h;
                if !spec_is_loaded(slots, entries.last()) {
                    assert(pend[k2] == h);
                } else {
                    assert(pend == prefix);
                }
            } else {
                assert(h == entries.last());
                assert(pend[pend.len() - 1] == h);
            }
        }
    }
}

} // verus!
