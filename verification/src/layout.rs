//! The vertex record and its description.
//!
//! The converter writes one record of `VERTEX_SIZE` bytes for each vertex: a
//! position and a texture coordinate of two floats each, and a colour of four
//! bytes. It learns where to write each field from a list of layout elements,
//! which must end in an end marker.

use vstd::prelude::*;
use nuklear::{DrawVertexLayoutAttribute, DrawVertexLayoutFormat};

verus! {

/// Number of bytes in one vertex record.
pub const VERTEX_SIZE: usize = 20;

/// Number of bytes in one index.
pub const INDEX_SIZE: usize = 2;

/// Byte offset of the position in a vertex record.
pub const POSITION_OFFSET: usize = 0;

/// Byte offset of the texture coordinate in a vertex record.
pub const TEXCOORD_OFFSET: usize = 8;

/// Byte offset of the colour in a vertex record.
pub const COLOR_OFFSET: usize = 16;

/// One element of a layout: the attribute, the format in which it is
/// written, and its byte offset in the record.
pub type LayoutElement = (DrawVertexLayoutAttribute, DrawVertexLayoutFormat, usize);

/// The element is an end marker: the converter reads a layout up to the first
/// element with the attribute `AttributeCount` or the format `Count`.
pub open spec fn is_end(element: LayoutElement) -> bool {
    element.0 == DrawVertexLayoutAttribute::AttributeCount || element.1
        == DrawVertexLayoutFormat::Count
}

/// The number of bytes that the converter writes for a field: eight for a
/// position or a texture coordinate of two floats, four for a colour of four
/// bytes. Zero for any other field, which this crate does not use.
pub open spec fn field_size(element: LayoutElement) -> nat {
    if element.1 == DrawVertexLayoutFormat::Float && (element.0
        == DrawVertexLayoutAttribute::Position || element.0
        == DrawVertexLayoutAttribute::TexCoord) {
        8
    } else if element.1 == DrawVertexLayoutFormat::R8G8B8A8 && element.0
        == DrawVertexLayoutAttribute::Color {
        4
    } else {
        0
    }
}

/// The last element of the layout is an end marker, and no other is.
pub open spec fn is_terminated(layout: Seq<LayoutElement>) -> bool {
    &&& layout.len() > 0
    &&& is_end(layout.last())
    &&& forall|i: int| 0 <= i < layout.len() - 1 ==> !is_end(#[trigger] layout[i])
}

/// Every field of the layout is one that this crate uses, and lies within a
/// record of `vertex_size` bytes.
pub open spec fn fields_fit(layout: Seq<LayoutElement>, vertex_size: nat) -> bool {
    forall|i: int|
        0 <= i < layout.len() - 1 ==> field_size(#[trigger] layout[i]) > 0 && layout[i].2
            + field_size(layout[i]) <= vertex_size
}

/// No two fields of the layout share a byte.
pub open spec fn fields_disjoint(layout: Seq<LayoutElement>) -> bool {
    forall|i: int, j: int|
        0 <= i < j < layout.len() - 1 ==> (#[trigger] layout[i]).2 + field_size(layout[i])
            <= (#[trigger] layout[j]).2 || layout[j].2 + field_size(layout[j]) <= layout[i].2
}

/// The layout of the vertex record: position, texture coordinate, colour,
/// end marker.
pub open spec fn vertex_layout_spec() -> Seq<LayoutElement> {
    seq![
        (DrawVertexLayoutAttribute::Position, DrawVertexLayoutFormat::Float, POSITION_OFFSET),
        (DrawVertexLayoutAttribute::TexCoord, DrawVertexLayoutFormat::Float, TEXCOORD_OFFSET),
        (DrawVertexLayoutAttribute::Color, DrawVertexLayoutFormat::R8G8B8A8, COLOR_OFFSET),
        (DrawVertexLayoutAttribute::AttributeCount, DrawVertexLayoutFormat::Count, 0usize),
    ]
}

/// Builds the layout of the vertex record.
pub fn vertex_layout() -> (layout: Vec<LayoutElement>)
    ensures
        layout@ == vertex_layout_spec(),
        is_terminated(layout@),
        fields_fit(layout@, VERTEX_SIZE as nat),
        fields_disjoint(layout@),
{
    let mut layout: Vec<LayoutElement> = Vec::with_capacity(4);
    layout.push(
        (DrawVertexLayoutAttribute::Position, DrawVertexLayoutFormat::Float, POSITION_OFFSET),
    );
    layout.push(
        (DrawVertexLayoutAttribute::TexCoord, DrawVertexLayoutFormat::Float, TEXCOORD_OFFSET),
    );
    layout.push((DrawVertexLayoutAttribute::Color, DrawVertexLayoutFormat::R8G8B8A8, COLOR_OFFSET));
    layout.push((DrawVertexLayoutAttribute::AttributeCount, DrawVertexLayoutFormat::Count, 0));
    proof {
        assert(layout@ =~= vertex_layout_spec());
        lemma_vertex_layout();
    }
    layout
}

/// The layout of the vertex record ends in its only end marker, and its
/// fields fill the record from the first byte to the last without sharing
/// one.
pub proof fn lemma_vertex_layout()
    ensures
        is_terminated(vertex_layout_spec()),
        fields_fit(vertex_layout_spec(), VERTEX_SIZE as nat),
        fields_disjoint(vertex_layout_spec()),
        field_size(vertex_layout_spec()[0]) + field_size(vertex_layout_spec()[1]) + field_size(
            vertex_layout_spec()[2],
        ) == VERTEX_SIZE,
{
}

} // verus!
