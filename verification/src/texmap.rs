//! Identifiers for renderer textures.
//!
//! Where native texture names cannot be handed to the interface as they
//! are, textures live in a table of slots and the identifier is the slot's
//! position; a freed slot is used again by the next texture.
use vstd::prelude::*;

verus! {

/// A table of texture slots, each empty or holding a texture.
pub struct TextureMap<T> {
    slots: Vec<Option<T>>,
}

impl<T> View for TextureMap<T> {
    type V = Seq<Option<T>>;

    closed spec fn view(&self) -> Seq<Option<T>> {
        self.slots@
    }
}

/// `i` is the first empty slot of `s`, or its length where every slot is
/// taken.
pub open spec fn is_first_free<T>(s: Seq<Option<T>>, i: int) -> bool {
    &&& 0 <= i <= s.len()
    &&& i < s.len() ==> s[i] is None
    &&& forall|j: int| 0 <= j < i ==> #[trigger] s[j] is Some
}

/// The table `s` once `t` is put in slot `i`, the first free one.
pub open spec fn with_texture<T>(s: Seq<Option<T>>, i: int, t: T) -> Seq<Option<T>> {
    if i < s.len() {
        s.update(i, Some(t))
    } else {
        s.push(Some(t))
    }
}

/// What the slot `id` of `s` holds; nothing where there is no such slot.
pub open spec fn slot<T>(s: Seq<Option<T>>, id: u64) -> Option<T> {
    if id < s.len() {
        s[id as int]
    } else {
        None
    }
}

impl<T: Copy> TextureMap<T> {
    /// An empty table.
    pub fn new() -> (r: TextureMap<T>)
        ensures
            r@ == Seq::<Option<T>>::empty(),
    {
        TextureMap { slots: Vec::new() }
    }

    /// Puts the texture `t` in the first free slot and returns its
    /// identifier.
    pub fn map_tex(&mut self, t: T) -> (id: u64)
        requires
            old(self)@.len() < u64::MAX,
        ensures
            is_first_free(old(self)@, id as int),
            final(self)@ == with_texture(old(self)@, id as int, t),
    {
        let mut i: usize = 0;
        while i < self.slots.len()
            invariant
                self.slots@ == old(self).slots@,
                i <= self.slots@.len(),
                self.slots@.len() < u64::MAX,
                forall|j: int| 0 <= j < i ==> #[trigger] self.slots@[j] is Some,
            decreases self.slots@.len() - i,
        {
            if self.slots[i].is_none() {
                self.slots.set(i, Some(t));
                return i as u64;
            }
            i = i + 1;
        }
        self.slots.push(Some(t));
        i as u64
    }

    /// The texture with identifier `id`, if there is one.
    pub fn unmap_tex(&self, id: u64) -> (r: Option<T>)
        ensures
            r == slot(self@, id),
    {
        if id < self.slots.len() as u64 {
            self.slots[id as usize]
        } else {
            None
        }
    }

    /// Takes the texture with identifier `id` out of the table, freeing its
    /// slot, and returns it, if there was one.
    pub fn delete_tex(&mut self, id: u64) -> (r: Option<T>)
        ensures
            r == slot(old(self)@, id),
            final(self)@ == if id < old(self)@.len() {
                old(self)@.update(id as int, None)
            } else {
                old(self)@
            },
    {
        if id < self.slots.len() as u64 {
            let r = self.slots[id as usize];
            self.slots.set(id as usize, None);
            r
        } else {
            None
        }
    }
}

/// A texture that was just put in the table is found under the identifier
/// it was given, and the other slots keep what they held.
pub proof fn lemma_map_then_unmap<T>(s: Seq<Option<T>>, id: u64, t: T, other: u64)
    requires
        is_first_free(s, id as int),
    ensures
        slot(with_texture(s, id as int, t), id) == Some(t),
        other != id ==> slot(with_texture(s, id as int, t), other) == slot(s, other),
{
}

/// After a texture is deleted, its identifier finds nothing, and the next
/// texture goes in that slot or an earlier one.
pub proof fn lemma_delete_frees_slot<T>(s: Seq<Option<T>>, id: u64, next: int)
    requires
        id < s.len(),
        is_first_free(s.update(id as int, None), next),
    ensures
        slot(s.update(id as int, None), id) is None,
        next <= id,
{
    if next > id {
        assert(s.update(id as int, None)[id as int] is None);
    }
}

/// The identifier of a native texture name, where names are handed to the
/// interface as they are: the name itself, which [`native_tex_name`] turns
/// back into the name, where it is one (not zero).
pub fn native_tex_id(name: u32) -> (r: u64)
    ensures
        r == name,
        name != 0 ==> native_name_of(r) == Some(name),
{
    proof {
        if name != 0 {
            lemma_native_round_trip(name);
        }
    }
    name as u64
}

/// The native texture name that the identifier `id` stands for: its low 32
/// bits, where they are not zero (zero names no texture).
pub open spec fn native_name_of(id: u64) -> Option<u32> {
    if id as u32 == 0 {
        None
    } else {
        Some(id as u32)
    }
}

/// The native texture name of an identifier, as [`native_name_of`] says.
pub fn native_tex_name(id: u64) -> (r: Option<u32>)
    ensures
        r == native_name_of(id),
{
    let n = id as u32;
    if n == 0 {
        None
    } else {
        Some(n)
    }
}

/// The identifier of a texture name gives the name back, and the
/// identifier `0` gives no texture.
pub proof fn lemma_native_round_trip(name: u32)
    requires
        name != 0,
    ensures
        native_name_of(name as u64) == Some(name),
        native_name_of(0) is None,
{
    assert(0u64 as u32 == 0) by (bit_vector);
    assert((name as u64) as u32 == name) by (bit_vector);
}

/// Status of a texture of the interface, as the renderer reads and sets it.
#[derive(Clone, Copy, PartialEq, Eq, Structural, Debug)]
pub enum TexStatus {
    /// Uploaded and current.
    Ready,
    /// Destroyed.
    Destroyed,
    /// To be created and uploaded.
    WantCreate,
    /// Parts of it to be uploaded again.
    WantUpdates,
    /// To be destroyed.
    WantDestroy,
}

/// What the renderer does to the graphics texture for a texture of the
/// interface.
#[derive(Clone, Copy, PartialEq, Eq, Structural, Debug)]
pub enum TexAction {
    Nothing,
    /// Create a texture, upload the pixels, and report its name with
    /// [`texture_created`].
    Create,
    /// Upload the update rectangles into the texture of this name.
    Update(u32),
    /// Delete the texture of this name.
    Destroy(u32),
}

/// One step of the renderer on a texture of the interface with status
/// `status` and identifier `tex_id`: the new status and identifier, and what
/// to do to the graphics texture. A texture to update must be in the table.
pub fn texture_step(status: TexStatus, tex_id: u64, map: &mut TextureMap<u32>) -> (r: (
    TexStatus,
    u64,
    TexAction,
))
    requires
        status == TexStatus::WantUpdates ==> slot(old(map)@, tex_id) is Some,
    ensures
        match status {
            TexStatus::WantCreate => r == (TexStatus::WantCreate, tex_id, TexAction::Create)
                && final(map)@ == old(map)@,
            TexStatus::WantUpdates => r == (
                TexStatus::Ready,
                tex_id,
                TexAction::Update(slot(old(map)@, tex_id)->0),
            ) && final(map)@ == old(map)@,
            TexStatus::WantDestroy => match slot(old(map)@, tex_id) {
                Some(n) => r == (TexStatus::Destroyed, 0u64, TexAction::Destroy(n)) && final(map)@
                    == old(map)@.update(tex_id as int, None),
                None => r == (TexStatus::Destroyed, tex_id, TexAction::Nothing) && final(map)@
                    == old(map)@,
            },
            _ => r == (status, tex_id, TexAction::Nothing) && final(map)@ == old(map)@,
        },
{
    match status {
        TexStatus::WantCreate => (status, tex_id, TexAction::Create),
        TexStatus::WantUpdates => {
            let n = map.unmap_tex(tex_id);
            match n {
                Some(n) => (TexStatus::Ready, tex_id, TexAction::Update(n)),
                None => (TexStatus::Ready, tex_id, TexAction::Nothing),
            }
        },
        TexStatus::WantDestroy => match map.delete_tex(tex_id) {
            Some(n) => (TexStatus::Destroyed, 0, TexAction::Destroy(n)),
            None => (TexStatus::Destroyed, tex_id, TexAction::Nothing),
        },
        _ => (status, tex_id, TexAction::Nothing),
    }
}

/// The texture of name `name` was created and uploaded for a texture of the
/// interface: it goes in the table, and the texture is ready under the
/// identifier it got.
pub fn texture_created(map: &mut TextureMap<u32>, name: u32) -> (r: (TexStatus, u64))
    requires
        old(map)@.len() < u64::MAX,
    ensures
        r.0 == TexStatus::Ready,
        is_first_free(old(map)@, r.1 as int),
        final(map)@ == with_texture(old(map)@, r.1 as int, name),
{
    let id = map.map_tex(name);
    (TexStatus::Ready, id)
}

/// Where the pixels of an update rectangle at `x`, `y`, `h` rows high,
/// start in the pixel buffer of a texture `width` pixels wide with
/// `bytes_per_pixel` bytes each, and how many bytes of 4-byte pixels its
/// rows take: each step of the arithmetic must fit in an `i32`.
pub fn update_region(x: u16, y: u16, h: u16, width: i32, bytes_per_pixel: i32) -> (r: (i32, i32))
    requires
        i32::MIN <= y * width <= i32::MAX,
        i32::MIN <= x + y * width <= i32::MAX,
        i32::MIN <= (x + y * width) * bytes_per_pixel <= i32::MAX,
        i32::MIN <= 4 * h * width <= i32::MAX,
    ensures
        r.0 == (x + y * width) * bytes_per_pixel,
        r.1 == 4 * h * width,
{
    let row = (y as i32) * width;
    let start = (x as i32 + row) * bytes_per_pixel;
    let len = (4 * (h as i32)) * width;
    (start, len)
}

/// The texture size limit that the renderer sets, given the one the
/// interface asks for (`0` for none) and the largest size the graphics
/// driver takes: the driver's, where none is asked or the one asked is too
/// large, for both width and height.
pub fn clamp_texture_limit(width: i32, height: i32, max_size: i32) -> (r: (i32, i32))
    ensures
        r == (if width == 0 || width > max_size {
            (max_size, max_size)
        } else {
            (width, height)
        }),
{
    if width == 0 || width > max_size {
        (max_size, max_size)
    } else {
        (width, height)
    }
}

/// One step of the renderer on a texture of the interface with status
/// `status` and identifier `tex_id`, where identifiers are the graphics
/// driver's texture names: the new status and identifier, and what to do to
/// the graphics texture. A texture to update must have a name.
pub fn native_texture_step(status: TexStatus, tex_id: u64) -> (r: (TexStatus, u64, TexAction))
    requires
        status == TexStatus::WantUpdates ==> native_name_of(tex_id) is Some,
    ensures
        match status {
            TexStatus::WantCreate => r == (TexStatus::WantCreate, tex_id, TexAction::Create),
            TexStatus::WantUpdates => r == (
                TexStatus::Ready,
                tex_id,
                TexAction::Update(native_name_of(tex_id)->0),
            ),
            TexStatus::WantDestroy => match native_name_of(tex_id) {
                Some(n) => r == (TexStatus::Destroyed, 0u64, TexAction::Destroy(n)),
                None => r == (TexStatus::Destroyed, tex_id, TexAction::Nothing),
            },
            _ => r == (status, tex_id, TexAction::Nothing),
        },
{
    match status {
        TexStatus::WantCreate => (status, tex_id, TexAction::Create),
        TexStatus::WantUpdates => match native_tex_name(tex_id) {
            Some(n) => (TexStatus::Ready, tex_id, TexAction::Update(n)),
            None => (TexStatus::Ready, tex_id, TexAction::Nothing),
        },
        TexStatus::WantDestroy => match native_tex_name(tex_id) {
            Some(n) => (TexStatus::Destroyed, 0, TexAction::Destroy(n)),
            None => (TexStatus::Destroyed, tex_id, TexAction::Nothing),
        },
        _ => (status, tex_id, TexAction::Nothing),
    }
}

/// The texture of name `name` (never zero) was created and uploaded for a
/// texture of the interface, where identifiers are the driver's names: the
/// texture is ready under its name, which is not zero.
pub fn native_texture_created(name: u32) -> (r: (TexStatus, u64))
    requires
        name != 0,
    ensures
        r == (TexStatus::Ready, name as u64),
        r.1 != 0,
        native_name_of(r.1) == Some(name),
{
    proof {
        lemma_native_round_trip(name);
    }
    (TexStatus::Ready, native_tex_id(name))
}

} // verus!
