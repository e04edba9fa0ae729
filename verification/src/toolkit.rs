//! The calls into the toolkit.
//!
//! Nothing in this module is proved. Each function states what the toolkit's
//! source shows of the call it makes, and the rest of the crate is verified
//! against these statements.

use vstd::prelude::*;
use nuklear::{
    Allocator, Buffer, Context, ConvertConfig, DrawVertexLayoutAttribute,
    DrawVertexLayoutElements, DrawVertexLayoutFormat,
};
use crate::layout::{fields_fit, is_terminated, LayoutElement, INDEX_SIZE};
use crate::scissor::ClipRect;

verus! {

/// `nuklear::DrawVertexLayoutAttribute`: what a field of a vertex holds.
/// Declared with its variants, so that verified code builds and compares
/// them.
#[verifier::external_type_specification]
pub struct ExDrawVertexLayoutAttribute(DrawVertexLayoutAttribute);

/// `nuklear::DrawVertexLayoutFormat`: how a field of a vertex is written.
/// Declared with its variants, as the attribute is.
#[verifier::external_type_specification]
pub struct ExDrawVertexLayoutFormat(DrawVertexLayoutFormat);

/// `nuklear::DrawVertexLayoutElements`: a list of layout elements in the
/// toolkit's own representation.
#[verifier::external_type_specification]
#[verifier::external_body]
pub struct ExDrawVertexLayoutElements(DrawVertexLayoutElements);

/// `nuklear::Context`: the state of the toolkit.
#[verifier::external_type_specification]
#[verifier::external_body]
pub struct ExContext(Context);

/// `nuklear::ConvertConfig`: the settings of a conversion.
#[verifier::external_type_specification]
#[verifier::external_body]
pub struct ExConvertConfig(ConvertConfig);

/// `nuklear::Buffer`: memory that the toolkit manages.
#[verifier::external_type_specification]
#[verifier::external_body]
pub struct ExBuffer(Buffer);

/// What a command of the toolkit holds, as it is read from the toolkit: the
/// number of its texture, where the handle has one, the number of its
/// elements, and its clip rectangle.
pub type RawCommand = (Option<i32>, u32, ClipRect);

/// The elements that a `DrawVertexLayoutElements` holds, in order.
pub uninterp spec fn layout_elements(layout: DrawVertexLayoutElements) -> Seq<LayoutElement>;

/// Calls `DrawVertexLayoutElements::new`, which stores one element for each
/// triple of the slice it is given, in the same order, with the triple's
/// attribute, format and offset.
#[verifier::external_body]
pub(crate) fn new_layout(elements: &Vec<LayoutElement>) -> (layout: DrawVertexLayoutElements)
    ensures
        layout_elements(layout) == elements@,
{
    DrawVertexLayoutElements::new(elements.as_slice())
}

/// The buffer was made with an allocator, so the toolkit enlarges it when it
/// is full. A buffer over fixed memory, or one that was never set up, does
/// not grow.
pub uninterp spec fn buffer_grows(buffer: Buffer) -> bool;

/// Calls `Allocator::new_vec` and `Buffer::with_size`, which sets the buffer
/// up as one that grows, with `size` bytes to start with and a copy of the
/// allocator to enlarge it. The set-up stops with an assertion where the
/// size is zero, which the requirement leaves out.
#[verifier::external_body]
pub(crate) fn growing_buffer(size: usize) -> (buffer: Buffer)
    requires
        0 < size,
    ensures
        buffer_grows(buffer),
{
    let mut allocator = Allocator::new_vec();
    Buffer::with_size(&mut allocator, size)
}

/// The number of elements that the first `n` of the commands read from the
/// toolkit hold together.
pub open spec fn raw_elements_before(raw: Seq<RawCommand>, n: int) -> nat
    decreases n,
{
    if n <= 0 {
        0
    } else {
        raw_elements_before(raw, n - 1) + raw[n - 1].1 as nat
    }
}

/// Calls `Context::convert`, after `ConvertConfig::set_vertex_layout` and
/// `ConvertConfig::set_vertex_size` have put `layout` and `vertex_size` into
/// `config`, with `Buffer::with_fixed` over the first `vertex_bytes` bytes of
/// `vertices` and over all of `elements` as the sinks for vertices and
/// indices. Then calls `Context::draw_command_iterator` and reads each
/// command that it yields, in its order, with `DrawCommand::texture` and
/// `Handle::id`, `DrawCommand::elem_count` and `DrawCommand::clip_rect`. The
/// coordinates of the clip rectangle are floats there and are cut to whole
/// pixels here.
///
/// All of it stands in one function because the conversion reads the layout
/// through a pointer that the setter stores, the sinks hold pointers into
/// the two vectors, and the commands that the iterator yields are those of
/// the last conversion: none of the three may outlive this call.
///
/// The conversion stops with an assertion where a sink is empty, where the
/// vertex size is zero, where a field has a format that does not suit its
/// attribute, where the vertex sink holds 65535 vertices or more, and where
/// it finds no room for its first command in `commands`, which happens to a
/// full buffer that does not grow. It reads the layout up to its first end
/// marker, and writes each field at its offset in a record of `vertex_size`
/// bytes. The requirements leave all of these out. A buffer that grows
/// still does so afterwards.
///
/// The conversion writes within the sinks and never resizes them, so the two
/// vectors keep their lengths. It starts every command with no elements, and
/// adds to the last command the number of indices it has just been given
/// room for in the index sink, two bytes each; where the sink is full it
/// adds nothing and drops the geometry. So the elements of the commands it
/// leaves, which are the commands read here, fit the index sink together.
/// Which commands these are depends on the state of the toolkit, and
/// nothing else is claimed of them.
#[verifier::external_body]
pub(crate) fn convert_frame(
    context: &mut Context,
    config: &mut ConvertConfig,
    layout: &DrawVertexLayoutElements,
    vertex_size: usize,
    commands: &mut Buffer,
    vertices: &mut Vec<u8>,
    vertex_bytes: usize,
    elements: &mut Vec<u8>,
) -> (raw: Vec<RawCommand>)
    requires
        is_terminated(layout_elements(*layout)),
        fields_fit(layout_elements(*layout), vertex_size as nat),
        0 < vertex_size,
        0 < vertex_bytes <= old(vertices)@.len(),
        vertex_bytes < 0xffff * vertex_size,
        0 < old(elements)@.len(),
        buffer_grows(*old(commands)),
    ensures
        buffer_grows(*final(commands)),
        final(vertices)@.len() == old(vertices)@.len(),
        final(elements)@.len() == old(elements)@.len(),
        raw_elements_before(raw@, raw@.len() as int) * INDEX_SIZE <= old(elements)@.len(),
{
    config.set_vertex_layout(layout);
    config.set_vertex_size(vertex_size);
    let mut vertex_sink = Buffer::with_fixed(&mut vertices[..vertex_bytes]);
    let mut element_sink = Buffer::with_fixed(elements.as_mut_slice());
    context.convert(commands, &mut vertex_sink, &mut element_sink, config);
    context.draw_command_iterator(commands).into_iter().map(
        |c| {
            let r = c.clip_rect();
            let clip = ClipRect { x: r.x as i32, y: r.y as i32, w: r.w as i32, h: r.h as i32 };
            (c.texture().id(), c.elem_count(), clip)
        },
    ).collect()
}

} // verus!
