//! Vertex buffer data paired with its attribute layout.
//!
//! Buffer elements are four-byte words, stored as their raw bit patterns;
//! the GPU layer interprets them according to `data_type`.

use vstd::prelude::*;

verus! {

/// One vertex attribute: `index` is the shader location, `size` the number
/// of components, `offset` the component offset of the first element.
#[derive(Clone, Copy, PartialEq, Eq, Structural, Debug)]
pub struct VertexAttribute {
    pub id: u32,
    pub index: u32,
    pub size: i32,
    pub offset: u32,
}

impl VertexAttribute {
    /// An attribute from its parts.
    fn init(id: u32, index: u32, size: i32, offset: u32) -> (a: VertexAttribute)
        ensures
            a == (VertexAttribute { id, index, size, offset }),
    {
        VertexAttribute { id, index, size, offset }
    }
}

/// One vertex buffer's data together with the attributes laid out in it.
pub struct VerticesAttributesPair {
    pub buffer_data: Vec<u32>,
    pub attributes: Vec<VertexAttribute>,
    pub data_type: u32,
}

impl VerticesAttributesPair {
    /// A pair holding the given buffer data and no attributes yet.
    pub fn init(buffer_data: Vec<u32>, data_type: u32) -> (p: VerticesAttributesPair)
        ensures
            p.buffer_data@ == buffer_data@,
            p.attributes@.len() == 0,
            p.data_type == data_type,
    {
        VerticesAttributesPair { buffer_data, attributes: Vec::new(), data_type }
    }

    /// The pair with one more attribute appended.
    #[must_use]
    pub fn add_attribute(self, id: u32, index: u32, size: i32, offset: u32) -> (p: VerticesAttributesPair)
        ensures
            p.buffer_data@ == self.buffer_data@,
            p.data_type == self.data_type,
            p.attributes@ == self.attributes@.push(VertexAttribute { id, index, size, offset }),
    {
        let mut attributes = self.attributes;
        attributes.push(VertexAttribute::init(id, index, size, offset));
        VerticesAttributesPair { buffer_data: self.buffer_data, attributes, data_type: self.data_type }
    }
}

} // verus!
