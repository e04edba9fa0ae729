//! The texture registry: an append-only table from handles to textures.
//!
//! A handle is a 1-based index in registration order. Handle 0 is reserved
//! as invalid. The registry only grows, so a handle never changes what it
//! refers to.

use vstd::prelude::*;

verus! {

/// The largest number of textures a registry can hold: handles are `i32`.
pub const MAX_TEXTURES: usize = 0x7fff_ffff;

/// An opaque name for a registered texture, handed to the toolkit and found
/// again in its draw commands.
#[derive(Clone, Copy, Debug, PartialEq, Eq)]
pub struct TextureHandle {
    pub id: i32,
}

/// What the registry records of a texture: the dimensions of its image.
#[derive(Clone, Copy, Debug, PartialEq, Eq)]
pub struct Texture {
    pub width: u32,
    pub height: u32,
}

/// The slot that `handle` refers to in a table of `count` textures, if any.
pub open spec fn slot_of(handle: TextureHandle, count: nat) -> Option<nat> {
    if 1 <= handle.id <= count {
        Some((handle.id - 1) as nat)
    } else {
        None
    }
}

/// The texture that `handle` refers to in `textures`, if any.
pub open spec fn resolve_spec(textures: Seq<Texture>, handle: TextureHandle) -> Option<Texture> {
    match slot_of(handle, textures.len()) {
        Some(slot) => Some(textures[slot as int]),
        None => None,
    }
}

/// What registering `texture` in `textures` gives: the table with the texture
/// appended, and a handle one greater than the number of textures before.
pub open spec fn register_spec(textures: Seq<Texture>, texture: Texture) -> (
    Seq<Texture>,
    TextureHandle,
) {
    (textures.push(texture), TextureHandle { id: (textures.len() + 1) as i32 })
}

/// The table after `added` have been registered in `start`, one after the
/// other.
pub open spec fn register_all(start: Seq<Texture>, added: Seq<Texture>) -> Seq<Texture>
    decreases added.len(),
{
    if added.len() == 0 {
        start
    } else {
        register_spec(register_all(start, added.drop_last()), added.last()).0
    }
}

/// The handle that the registration of `added[k]` returns, when `added` are
/// registered in `start` one after the other.
pub open spec fn handle_issued(start: Seq<Texture>, added: Seq<Texture>, k: int) -> TextureHandle {
    register_spec(register_all(start, added.take(k)), added[k]).1
}

impl TextureHandle {
    /// The handle that refers to no texture.
    pub fn invalid() -> (handle: TextureHandle)
        ensures
            handle.id == 0,
            forall|count: nat| slot_of(handle, count) is None,
    {
        TextureHandle { id: 0 }
    }

    /// The handle with the given number.
    pub fn from_id(id: i32) -> (handle: TextureHandle)
        ensures
            handle.id == id,
    {
        TextureHandle { id }
    }

    /// The handle's number.
    pub fn id(&self) -> (id: i32)
        ensures
            id == self.id,
    {
        self.id
    }
}

/// An append-only table of textures, addressed by handle.
pub struct TextureRegistry {
    textures: Vec<Texture>,
}

impl View for TextureRegistry {
    type V = Seq<Texture>;

    closed spec fn view(&self) -> Seq<Texture> {
        self.textures@
    }
}

impl TextureRegistry {
    /// An empty registry, with room for `capacity` textures before it
    /// reallocates where that much memory can be had. The capacity is a hint:
    /// the registry takes any number of textures.
    pub fn with_capacity(capacity: usize) -> (registry: TextureRegistry)
        ensures
            registry@ == Seq::<Texture>::empty(),
    {
        let mut textures: Vec<Texture> = Vec::new();
        // The room is a hint: where it cannot be had, the registry grows as
        // it is filled.
        let _ = textures.try_reserve(capacity);
        TextureRegistry { textures }
    }

    /// The number of textures registered so far.
    pub fn len(&self) -> (n: usize)
        ensures
            n == self@.len(),
    {
        self.textures.len()
    }

    /// Appends `texture` and returns its handle: one more than the number of
    /// textures registered before.
    pub fn register(&mut self, texture: Texture) -> (handle: TextureHandle)
        requires
            old(self)@.len() < MAX_TEXTURES,
        ensures
            (final(self)@, handle) == register_spec(old(self)@, texture),
            final(self)@ == old(self)@.push(texture),
            handle.id == old(self)@.len() + 1,
            resolve_spec(final(self)@, handle) == Some(texture),
    {
        let n: usize = self.textures.len();
        self.textures.push(texture);
        TextureHandle { id: (n + 1) as i32 }
    }

    /// The slot of the texture that `handle` refers to, counted from zero, or
    /// `None` where the handle was never issued.
    pub fn slot(&self, handle: TextureHandle) -> (slot: Option<usize>)
        ensures
            slot matches Some(s) ==> slot_of(handle, self@.len()) == Some(s as nat),
            slot is None ==> slot_of(handle, self@.len()) is None,
    {
        resolve_slot(handle, self.textures.len())
    }

    /// The texture that `handle` refers to, or `None` where the handle was
    /// never issued.
    pub fn resolve(&self, handle: TextureHandle) -> (texture: Option<&Texture>)
        ensures
            texture matches Some(t) ==> resolve_spec(self@, handle) == Some(*t),
            texture is None ==> resolve_spec(self@, handle) is None,
    {
        match resolve_slot(handle, self.textures.len()) {
            Some(slot) => Some(&self.textures[slot]),
            None => None,
        }
    }
}

/// The slot that `handle` refers to in a table of `count` textures, counted
/// from zero.
pub fn resolve_slot(handle: TextureHandle, count: usize) -> (slot: Option<usize>)
    ensures
        slot matches Some(s) ==> slot_of(handle, count as nat) == Some(s as nat),
        slot is None ==> slot_of(handle, count as nat) is None,
{
    if handle.id > 0 && handle.id as usize <= count {
        Some((handle.id - 1) as usize)
    } else {
        None
    }
}

/// A handle resolves exactly when it is one of the first `count` positive
/// numbers, and then to the slot one below it.
pub proof fn lemma_slot_of(handle: TextureHandle, count: nat)
    ensures
        slot_of(handle, count) is Some <==> 1 <= handle.id <= count,
        slot_of(handle, count) matches Some(slot) ==> slot + 1 == handle.id && slot < count,
{
}

/// A texture that has just been registered is found again under the handle
/// that was issued for it, with the dimensions it was registered with.
pub proof fn lemma_resolve_registered(textures: Seq<Texture>, texture: Texture)
    requires
        textures.len() < MAX_TEXTURES,
    ensures
        resolve_spec(register_spec(textures, texture).0, register_spec(textures, texture).1)
            == Some(texture),
{
}

/// Registration never changes what an earlier handle refers to.
pub proof fn lemma_register_keeps_handles(
    textures: Seq<Texture>,
    texture: Texture,
    handle: TextureHandle,
)
    requires
        resolve_spec(textures, handle) is Some,
    ensures
        resolve_spec(register_spec(textures, texture).0, handle) == resolve_spec(textures, handle),
{
}

/// Registering a batch appends it to the table, in order.
pub proof fn lemma_register_all(start: Seq<Texture>, added: Seq<Texture>)
    ensures
        register_all(start, added) == start + added,
    decreases added.len(),
{
    if added.len() == 0 {
        assert(start + added =~= start);
    } else {
        lemma_register_all(start, added.drop_last());
        assert((start + added.drop_last()).push(added.last()) =~= start + added);
    }
}

/// Handles count up from one: of the textures registered in an empty table,
/// the first gets handle 1, the next handle 2, and so on, so each handle is
/// greater than those issued before it.
pub proof fn lemma_handles_count_up(added: Seq<Texture>, k: int)
    requires
        added.len() <= MAX_TEXTURES,
        0 <= k < added.len(),
    ensures
        handle_issued(Seq::empty(), added, k).id == k + 1,
        forall|j: int| 0 <= j < k ==> handle_issued(Seq::empty(), added, j).id < handle_issued(
            Seq::empty(),
            added,
            k,
        ).id,
        resolve_spec(register_all(Seq::empty(), added), handle_issued(Seq::empty(), added, k))
            == Some(added[k]),
{
    let empty = Seq::<Texture>::empty();
    lemma_register_all(empty, added);
    assert(empty + added =~= added);
    assert forall|j: int| 0 <= j <= k implies #[trigger] handle_issued(empty, added, j).id == j
        + 1 by {
        lemma_register_all(empty, added.take(j));
        assert(empty + added.take(j) =~= added.take(j));
    }
}

} // verus!
