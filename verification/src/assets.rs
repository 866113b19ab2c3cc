//! The asset table: slot-addressed storage for texture resources.

use vstd::prelude::*;

use crate::texture::ConversionError;
use crate::texture::Texture;
use crate::texture::TextureHandle;
use crate::texture::TextureViewDimension;
use crate::texture::spec_convert;

verus! {

/// The texture a handle resolves to in `slots`, or `None` while its load is
/// still in flight (or the handle points past the table).
pub open spec fn spec_slot(slots: Seq<Option<Texture>>, h: TextureHandle) -> Option<Texture> {
    if h.id < slots.len() {
        slots[h.id as int]
    } else {
        None
    }
}

/// Whether `h` resolves to a present texture: its load has completed and the
/// resource is in the table.
pub open spec fn spec_is_loaded(slots: Seq<Option<Texture>>, h: TextureHandle) -> bool {
    spec_slot(slots, h) is Some
}

/// What one conversion pass leaves in a slot: a present texture goes through
/// [`spec_convert`]; an absent one stays absent.
pub open spec fn spec_converted_slot(slot: Option<Texture>) -> Option<Texture> {
    match slot {
        Some(t) => Some(spec_convert(t)),
        None => None,
    }
}

/// Owns every texture resource and resolves handles to them.
///
/// Each slot is reserved when a load begins and filled when it completes, so
/// a handle submitted for conversion can be polled until its bytes arrive.
/// Handles index slots directly; a slot, once reserved, is never reused for
/// a different resource.
pub struct AssetTable {
    slots: Vec<Option<Texture>>,
}

impl View for AssetTable {
    type V = Seq<Option<Texture>>;

    closed spec fn view(&self) -> Seq<Option<Texture>> {
        self.slots@
    }
}

impl AssetTable {
    /// An empty table with no resources.
    pub fn new() -> (table: AssetTable)
        ensures
            table@ == Seq::<Option<Texture>>::empty(),
    {
        AssetTable { slots: Vec::new() }
    }

    /// The number of slots, reserved or filled.
    pub fn len(&self) -> (n: usize)
        ensures
            n == self@.len(),
    {
        self.slots.len()
    }

    /// Reserves a slot for a load that has just been requested and hands
    /// back the handle that will resolve to it. The slot stays empty until
    /// [`AssetTable::finish_load`] delivers the bytes.
    pub fn begin_load(&mut self) -> (h: TextureHandle)
        ensures
            final(self)@ == old(self)@.push(None),
            h.id == old(self)@.len(),
    {
        let id = self.slots.len();
        self.slots.push(None);
        TextureHandle { id }
    }

    /// Delivers a finished load into its reserved slot. The asset loader
    /// resolves handles on its own schedule; this is the moment a handle
    /// turns from pending to loaded.
    pub fn finish_load(&mut self, h: TextureHandle, t: Texture)
        requires
            h.id < old(self)@.len(),
        ensures
            final(self)@ == old(self)@.update(h.id as int, Some(t)),
    {
        self.slots[h.id] = Some(t);
    }

    /// Whether `h` currently resolves to a present texture.
    pub fn is_loaded(&self, h: TextureHandle) -> (b: bool)
        ensures
            b == spec_is_loaded(self@, h),
    {
        h.id < self.slots.len() && self.slots[h.id].is_some()
    }

    /// Borrows the texture `h` resolves to, if its load has completed.
    pub fn get(&self, h: TextureHandle) -> (t: Option<&Texture>)
        ensures
            match t {
                Some(tex) => spec_slot(self@, h) == Some(*tex),
                None => spec_slot(self@, h) is None,
            },
    {
        if h.id < self.slots.len() {
            self.slots[h.id].as_ref()
        } else {
            None
        }
    }

    /// Applies the one-shot cube-array conversion to the texture in slot
    /// `h`, in place: reinterpret the flat stack as six square layers, then
    /// view them as a cube. A texture that is already converted, or whose
    /// height is not six times its width, is left bit-identical and the
    /// error says why.
    pub fn convert_slot(&mut self, h: TextureHandle) -> (r: Result<(), ConversionError>)
        requires
            spec_is_loaded(old(self)@, h),
        ensures
            final(self)@ == old(self)@.update(
                h.id as int,
                spec_converted_slot(old(self)@[h.id as int]),
            ),
            ({
                let t = old(self)@[h.id as int]->0;
                &&& (r == Ok::<(), ConversionError>(()) <==> t.spec_is_flat() && t.spec_can_stack(
                    6,
                ))
                &&& (r == Err::<(), ConversionError>(ConversionError::AlreadyConverted)
                    <==> !t.spec_is_flat())
                &&& (r == Err::<(), ConversionError>(ConversionError::InvalidDimensions)
                    <==> t.spec_is_flat() && !t.spec_can_stack(6))
            }),
    {
        let slot = self.slots.remove(h.id);
        let mut t = slot.unwrap();
        let r = t.reinterpret_stacked_2d_as_array(6);
        if r.is_ok() {
            t.set_view_dimension(TextureViewDimension::Cube);
        }
        self.slots.insert(h.id, Some(t));
        proof {
            assert(self.slots@ =~= old(self)@.update(
                h.id as int,
                spec_converted_slot(old(self)@[h.id as int]),
            ));
        }
        r
    }
}

} // verus!
