//! The drawer: what a frame needs besides the GPU.
//!
//! A drawer owns the texture registry, the toolkit's command buffer and the
//! two staging buffers that the converter fills each frame: one for vertex
//! records, one for indices. Both are allocated once and keep their size.
//! Each frame it has the toolkit convert its geometry into the staging
//! buffers, reads the toolkit's draw commands, and turns them into the draw
//! calls that the caller submits to the GPU.

use vstd::prelude::*;
use nuklear::{Buffer, Context, ConvertConfig, DrawVertexLayoutElements};
use crate::dispatch::{
    dispatch, dispatch_spec, elements_before, lemma_fitting_commands, textures_resolve,
    total_elements, within_limits, DispatchError, DrawCall, DrawCommand, Limits,
};
use crate::ranges::is_chain;
use crate::layout::{
    lemma_vertex_layout, vertex_layout, vertex_layout_spec, LayoutElement, INDEX_SIZE,
    VERTEX_SIZE,
};
use crate::scissor::{ClipRect, Viewport};
use crate::texture::{
    resolve_spec, Texture, TextureHandle, TextureRegistry, MAX_TEXTURES,
};
use crate::toolkit::{
    buffer_grows, convert_frame, growing_buffer, layout_elements, new_layout,
    raw_elements_before, RawCommand,
};

verus! {

/// The largest number of vertices that the converter may fill: indices are
/// 16 bits wide, and the converter stops at 65535 vertices.
pub const MAX_VERTICES: usize = 0xfffe;

/// What a drawer is to its callers: the textures registered so far, and the
/// capacities it was made with.
pub struct DrawerView {
    pub textures: Seq<Texture>,
    pub vertex_capacity: nat,
    pub index_capacity: nat,
}

/// What one frame came to: the commands that the toolkit produced, in paint
/// order, and the draw calls for them, or the error of the first command
/// that cannot be drawn.
#[derive(Debug, PartialEq, Eq)]
pub struct FramePlan {
    pub commands: Vec<DrawCommand>,
    pub outcome: Result<Vec<DrawCall>, DispatchError>,
}

/// The registry, the command buffer and the staging buffers of a renderer.
pub struct Drawer {
    cmd: Buffer,
    tex: TextureRegistry,
    vbf: Vec<u8>,
    ebf: Vec<u8>,
    vle: DrawVertexLayoutElements,
    vertex_capacity: usize,
    index_capacity: usize,
}

/// The command that the toolkit's parts stand for. A handle without a number
/// becomes the invalid handle, which no registry resolves.
pub open spec fn command_spec(raw: RawCommand) -> DrawCommand {
    DrawCommand {
        texture: TextureHandle {
            id: match raw.0 {
                Some(id) => id,
                None => 0,
            },
        },
        elem_count: raw.1,
        clip_rect: raw.2,
    }
}

/// The number of bytes in an RGBA8 image of `width` by `height` pixels: four
/// for each pixel.
pub open spec fn rgba8_len(width: u32, height: u32) -> nat {
    (width * height * 4) as nat
}

/// The number of bytes of a vertex staging buffer for `vertex_capacity`
/// vertices that the converter is given to fill: all of it, up to the
/// `MAX_VERTICES` records that 16-bit indices can reach.
pub open spec fn vertex_sink_len_spec(vertex_capacity: nat) -> nat {
    if vertex_capacity <= MAX_VERTICES {
        vertex_capacity * VERTEX_SIZE as nat
    } else {
        MAX_VERTICES as nat * VERTEX_SIZE as nat
    }
}

/// Computes the number of bytes of a vertex staging buffer for
/// `vertex_capacity` vertices that the converter is given to fill.
pub fn vertex_sink_len(vertex_capacity: usize) -> (len: usize)
    ensures
        len == vertex_sink_len_spec(vertex_capacity as nat),
        len <= vertex_capacity * VERTEX_SIZE,
        len < 0xffff * VERTEX_SIZE,
        len > 0 <==> vertex_capacity > 0,
{
    if vertex_capacity <= MAX_VERTICES {
        vertex_capacity * VERTEX_SIZE
    } else {
        MAX_VERTICES * VERTEX_SIZE
    }
}

/// Makes a command buffer for a drawer: one of `size` bytes that the toolkit
/// enlarges when it is full. A buffer must have a size: there is none of
/// zero bytes.
pub fn new_command_buffer(size: usize) -> (buffer: Option<Buffer>)
    ensures
        buffer is Some <==> 0 < size,
        buffer matches Some(b) ==> buffer_grows(b),
{
    if size == 0 {
        None
    } else {
        Some(growing_buffer(size))
    }
}

/// Builds the command that the toolkit's parts stand for.
pub fn command_from_parts(texture: Option<i32>, elem_count: u32, clip_rect: ClipRect) -> (command:
    DrawCommand)
    ensures
        command == command_spec((texture, elem_count, clip_rect)),
{
    let handle = match texture {
        Some(id) => TextureHandle::from_id(id),
        None => TextureHandle::invalid(),
    };
    DrawCommand { texture: handle, elem_count, clip_rect }
}

/// Tells whether `len` bytes are an RGBA8 image of `width` by `height`
/// pixels.
pub fn is_rgba8_image(len: usize, width: u32, height: u32) -> (ok: bool)
    ensures
        ok == (len == rgba8_len(width, height)),
{
    assert(width * height <= 0xffff_ffff * 0xffff_ffff) by (nonlinear_arith)
        requires
            0 <= width <= 0xffff_ffff,
            0 <= height <= 0xffff_ffff,
    ;
    let pixels: u64 = (width as u64) * (height as u64);
    (len as u128) == (pixels as u128) * 4
}

impl View for Drawer {
    type V = DrawerView;

    closed spec fn view(&self) -> DrawerView {
        DrawerView {
            textures: self.tex@,
            vertex_capacity: self.vertex_capacity as nat,
            index_capacity: self.index_capacity as nat,
        }
    }
}

impl Drawer {
    /// The staging buffers have the size that the capacities ask for, the
    /// layout is that of the vertex record, and the command buffer grows.
    pub closed spec fn inv(&self) -> bool {
        &&& self.vbf@.len() == self.vertex_capacity * VERTEX_SIZE
        &&& self.ebf@.len() == self.index_capacity * INDEX_SIZE
        &&& layout_elements(self.vle) == vertex_layout_spec()
        &&& buffer_grows(self.cmd)
    }

    /// The layout that the drawer hands to the converter.
    pub closed spec fn layout(&self) -> Seq<LayoutElement> {
        layout_elements(self.vle)
    }

    /// The bytes of the vertex staging buffer.
    pub closed spec fn vertex_bytes(&self) -> Seq<u8> {
        self.vbf@
    }

    /// The bytes of the index staging buffer.
    pub closed spec fn index_bytes(&self) -> Seq<u8> {
        self.ebf@
    }

    /// What the registry and the index buffer of this drawer offer to a
    /// frame.
    pub open spec fn limits_spec(&self) -> Limits {
        Limits {
            texture_count: self@.textures.len() as usize,
            index_capacity: self@.index_capacity as usize,
        }
    }

    /// Makes a drawer with an empty registry that has room for
    /// `texture_count` textures, and staging buffers for `vbo_size` vertices
    /// and `ebo_size` indices, which it keeps for its lifetime.
    /// `command_buffer` is the buffer that the toolkit fills with its draw
    /// commands, and must be one that grows, as `new_command_buffer` makes
    /// them. The texture count is a hint and no limit: any number of
    /// textures can be registered.
    pub fn new(texture_count: usize, vbo_size: usize, ebo_size: usize, command_buffer: Buffer) -> (drawer:
        Drawer)
        requires
            vbo_size * VERTEX_SIZE <= usize::MAX,
            ebo_size * INDEX_SIZE <= usize::MAX,
            buffer_grows(command_buffer),
        ensures
            drawer.inv(),
            drawer.layout() == vertex_layout_spec(),
            drawer@.textures == Seq::<Texture>::empty(),
            drawer@.vertex_capacity == vbo_size,
            drawer@.index_capacity == ebo_size,
            drawer.vertex_bytes() == Seq::new((vbo_size * VERTEX_SIZE) as nat, |i: int| 0u8),
            drawer.index_bytes() == Seq::new((ebo_size * INDEX_SIZE) as nat, |i: int| 0u8),
    {
        let room: usize = if texture_count < usize::MAX {
            texture_count + 1
        } else {
            texture_count
        };
        let elements = vertex_layout();
        Drawer {
            cmd: command_buffer,
            tex: TextureRegistry::with_capacity(room),
            vbf: vec![0u8; vbo_size * VERTEX_SIZE],
            ebf: vec![0u8; ebo_size * INDEX_SIZE],
            vle: new_layout(&elements),
            vertex_capacity: vbo_size,
            index_capacity: ebo_size,
        }
    }

    /// Registers a texture for an RGBA8 image of `width` by `height` pixels
    /// and returns its handle: one more than the number of textures
    /// registered before. Every call registers a new texture. The registry
    /// records the dimensions; the pixels are the caller's to upload.
    #[allow(unused_variables)]
    pub fn add_texture(&mut self, image: &[u8], width: u32, height: u32) -> (handle: TextureHandle)
        requires
            old(self).inv(),
            image@.len() == rgba8_len(width, height),
            old(self)@.textures.len() < MAX_TEXTURES,
        ensures
            final(self).inv(),
            final(self)@.textures == old(self)@.textures.push(Texture { width, height }),
            final(self)@.vertex_capacity == old(self)@.vertex_capacity,
            final(self)@.index_capacity == old(self)@.index_capacity,
            final(self).vertex_bytes() == old(self).vertex_bytes(),
            final(self).index_bytes() == old(self).index_bytes(),
            final(self).layout() == old(self).layout(),
            handle.id == old(self)@.textures.len() + 1,
            resolve_spec(final(self)@.textures, handle) == Some(Texture { width, height }),
    {
        self.tex.register(Texture { width, height })
    }

    /// The texture registered under the handle with number `id`, or `None`
    /// where no such handle was issued.
    pub fn find_res(&self, id: i32) -> (texture: Option<&Texture>)
        ensures
            texture matches Some(t) ==> resolve_spec(self@.textures, TextureHandle { id }) == Some(
                *t,
            ),
            texture is None ==> resolve_spec(self@.textures, TextureHandle { id }) is None,
    {
        self.tex.resolve(TextureHandle::from_id(id))
    }

    /// The number of textures registered so far.
    pub fn texture_count(&self) -> (n: usize)
        ensures
            n == self@.textures.len(),
    {
        self.tex.len()
    }

    /// The number of vertices that the vertex staging buffer holds.
    pub fn vertex_capacity(&self) -> (n: usize)
        ensures
            n == self@.vertex_capacity,
    {
        self.vertex_capacity
    }

    /// The number of indices that the index staging buffer holds.
    pub fn index_capacity(&self) -> (n: usize)
        ensures
            n == self@.index_capacity,
    {
        self.index_capacity
    }

    /// The vertex staging buffer, all of it: `VERTEX_SIZE` bytes for each
    /// vertex of the capacity, whether this frame wrote them or not.
    pub fn vertices(&self) -> (bytes: &Vec<u8>)
        requires
            self.inv(),
        ensures
            bytes@ == self.vertex_bytes(),
            bytes@.len() == self@.vertex_capacity * VERTEX_SIZE,
    {
        &self.vbf
    }

    /// The index staging buffer, all of it: `INDEX_SIZE` bytes for each index
    /// of the capacity, whether this frame wrote them or not.
    pub fn indices(&self) -> (bytes: &Vec<u8>)
        requires
            self.inv(),
        ensures
            bytes@ == self.index_bytes(),
            bytes@.len() == self@.index_capacity * INDEX_SIZE,
    {
        &self.ebf
    }

    /// What the registry and the index buffer offer to a frame.
    pub fn limits(&self) -> (limits: Limits)
        ensures
            limits == self.limits_spec(),
            limits.texture_count == self@.textures.len(),
            limits.index_capacity == self@.index_capacity,
    {
        Limits { texture_count: self.tex.len(), index_capacity: self.index_capacity }
    }

    /// Has the toolkit convert the geometry of the frame into the staging
    /// buffers, and returns the frame's draw commands in paint order.
    ///
    /// The conversion is given the layout and the size of the vertex record,
    /// and the first `vertex_sink_len` bytes of the vertex staging buffer.
    /// It never resizes a staging buffer and never writes past its end:
    /// geometry that does not fit is dropped by the toolkit, so the commands
    /// together have no more elements than the index staging buffer holds
    /// indices. The registry is left as it is. The toolkit cannot convert
    /// into a staging buffer without room, so neither capacity may be zero.
    pub fn convert(&mut self, ctx: &mut Context, cfg: &mut ConvertConfig) -> (commands: Vec<
        DrawCommand,
    >)
        requires
            old(self).inv(),
            0 < old(self)@.vertex_capacity,
            0 < old(self)@.index_capacity,
        ensures
            final(self).inv(),
            final(self)@ == old(self)@,
            final(self).layout() == old(self).layout(),
            final(self).vertex_bytes().len() == old(self).vertex_bytes().len(),
            final(self).index_bytes().len() == old(self).index_bytes().len(),
            total_elements(commands@) <= old(self)@.index_capacity,
    {
        let sink_len: usize = vertex_sink_len(self.vertex_capacity);
        proof {
            lemma_vertex_layout();
        }
        let raw = convert_frame(
            ctx,
            cfg,
            &self.vle,
            VERTEX_SIZE,
            &mut self.cmd,
            &mut self.vbf,
            sink_len,
            &mut self.ebf,
        );
        proof {
            lemma_elements_from_parts(raw@, raw@.len() as int);
        }
        commands_from_parts(&raw)
    }

    /// Turns the commands of a frame into its draw calls for a target of the
    /// given dimensions, against this drawer's registry and index capacity.
    pub fn dispatch(&self, commands: &Vec<DrawCommand>, viewport: &Viewport) -> (outcome: Result<
        Vec<DrawCall>,
        DispatchError,
    >)
        ensures
            outcome matches Ok(calls) ==> {
                &&& within_limits(calls@, self.limits_spec())
                &&& is_chain(calls@, total_elements(commands@))
            },
            match outcome {
                Ok(calls) => dispatch_spec(commands@, self.limits_spec(), *viewport) == Ok::<
                    Seq<DrawCall>,
                    DispatchError,
                >(calls@),
                Err(error) => dispatch_spec(commands@, self.limits_spec(), *viewport) == Err::<
                    Seq<DrawCall>,
                    DispatchError,
                >(error),
            },
    {
        let limits = self.limits();
        dispatch(commands, &limits, viewport)
    }

    /// Prepares one frame for a target of `width` by `height` pixels:
    /// converts the toolkit's geometry into the staging buffers, reads the
    /// draw commands and turns them into draw calls.
    ///
    /// The caller then uploads the staging buffers and submits the calls in
    /// order. Where a command cannot be drawn the frame has no calls at all.
    /// The commands never ask for more indices than the index staging
    /// buffer holds, so a frame fails only over a texture: it has a call for
    /// each command with elements exactly when each of these names a
    /// registered texture. Neither capacity may be zero.
    pub fn draw(&mut self, ctx: &mut Context, cfg: &mut ConvertConfig, width: u32, height: u32) -> (frame:
        FramePlan)
        requires
            old(self).inv(),
            0 < old(self)@.vertex_capacity,
            0 < old(self)@.index_capacity,
        ensures
            final(self).inv(),
            final(self)@ == old(self)@,
            final(self).layout() == old(self).layout(),
            final(self).vertex_bytes().len() == old(self).vertex_bytes().len(),
            final(self).index_bytes().len() == old(self).index_bytes().len(),
            total_elements(frame.commands@) <= old(self)@.index_capacity,
            frame.outcome is Ok <==> textures_resolve(
                frame.commands@,
                old(self)@.textures.len(),
            ),
            frame.outcome matches Err(error) ==> error is UnknownTexture,
            frame.outcome matches Ok(calls) ==> {
                &&& within_limits(calls@, old(self).limits_spec())
                &&& is_chain(calls@, total_elements(frame.commands@))
            },
            match frame.outcome {
                Ok(calls) => dispatch_spec(
                    frame.commands@,
                    old(self).limits_spec(),
                    Viewport { width, height },
                ) == Ok::<Seq<DrawCall>, DispatchError>(calls@),
                Err(error) => dispatch_spec(
                    frame.commands@,
                    old(self).limits_spec(),
                    Viewport { width, height },
                ) == Err::<Seq<DrawCall>, DispatchError>(error),
            },
    {
        let viewport = Viewport { width, height };
        let commands = self.convert(ctx, cfg);
        let limits = self.limits();
        let outcome = dispatch(&commands, &limits, &viewport);
        proof {
            lemma_fitting_commands(commands@, limits, viewport);
        }
        FramePlan { commands, outcome }
    }
}

/// Builds the commands that the parts read from the toolkit stand for, in
/// their order.
pub fn commands_from_parts(raw: &Vec<RawCommand>) -> (commands: Vec<DrawCommand>)
    ensures
        commands@ == raw@.map_values(|r: RawCommand| command_spec(r)),
{
    let mut commands: Vec<DrawCommand> = Vec::with_capacity(raw.len());
    let mut i: usize = 0;
    while i < raw.len()
        invariant
            i <= raw@.len(),
            commands@ == raw@.take(i as int).map_values(|r: RawCommand| command_spec(r)),
        decreases raw@.len() - i,
    {
        let parts = raw[i];
        commands.push(command_from_parts(parts.0, parts.1, parts.2));
        proof {
            assert(raw@.take(i + 1) == raw@.take(i as int).push(raw@[i as int]));
            assert(commands@ == raw@.take(i + 1).map_values(|r: RawCommand| command_spec(r)));
        }
        i += 1;
    }
    proof {
        assert(raw@.take(raw@.len() as int) == raw@);
    }
    commands
}

/// The commands built from the toolkit's parts have the elements that the
/// parts have.
pub proof fn lemma_elements_from_parts(raw: Seq<RawCommand>, n: int)
    requires
        0 <= n <= raw.len(),
    ensures
        elements_before(raw.map_values(|r: RawCommand| command_spec(r)), n) == raw_elements_before(
            raw,
            n,
        ),
    decreases n,
{
    if n > 0 {
        lemma_elements_from_parts(raw, n - 1);
    }
}

} // verus!
