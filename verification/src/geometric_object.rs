//! The instanced geometry store and its per-instance handles.
//!
//! A store owns one mesh shape's buffers and a fixed number of instance
//! slots, each holding one transform.  The store itself is pure bookkeeping:
//! it validates inputs, mirrors the instance transforms, and hands the GPU
//! layer exact descriptors (attribute pointers, buffer updates, draw calls)
//! to execute.

use crate::vecmat::Mat4;
use crate::vertex_attributes::{VertexAttribute, VerticesAttributesPair};
use vstd::prelude::*;

verus! {

/// Why a store operation was refused.
#[derive(Clone, Copy, PartialEq, Eq, Structural, Debug)]
pub enum GeometryError {
    /// No vertex buffer, or an empty one, was supplied.
    EmptyVertexData,
    /// The index list was empty.
    EmptyIndexData,
    /// The store would have no instance slots.
    ZeroInstanceCapacity,
    /// The number of buffer ids does not match the buffers to set up.
    BufferCountMismatch,
    /// An instance slot index at or past the capacity.
    IndexOutOfRange,
    /// A handle used with a store it does not belong to.
    StoreMismatch,
}

/// One vertex attribute pointer for the GPU layer to install: which buffer
/// slot it reads, the shader location, component count and type, the byte
/// stride and offset, and the instancing divisor.
#[derive(Clone, Copy, PartialEq, Eq, Structural, Debug)]
pub struct AttribPointer {
    pub buffer_slot: usize,
    pub index: u32,
    pub size: i32,
    pub data_type: u32,
    pub stride: i32,
    pub offset_bytes: u64,
    pub divisor: u32,
}

/// A partial update of the instance buffer: one slot's transform and the
/// exact byte offset to write it at.
#[derive(Clone, Copy, Debug)]
pub struct InstanceUpdate {
    pub buffer_id: u32,
    pub byte_offset: u64,
    pub transform: Mat4,
}

/// One instanced draw call: all `instance_count` copies of the shape.
#[derive(Clone, Copy, PartialEq, Eq, Structural, Debug)]
pub struct DrawCall {
    pub vao_id: u32,
    pub elem_id: u32,
    pub program_id: u32,
    pub indices_count: i32,
    pub instance_count: i32,
}

/// The GL enumerant for 32-bit floats, the instance matrix component type.
pub const GL_FLOAT_ENUM: u32 = 5126;

/// The byte size of one instance transform: sixteen four-byte components.
pub const MAT4_BYTES: u64 = 64;

/// The vertex buffer slot of the element (index) buffer.
pub const ELEM_INDEX: usize = 0;

/// The vertex buffer slot of the instance transform buffer.
pub const INST_INDEX: usize = 1;

/// The number of components over a pair's first `k` attributes.
pub open spec fn comp_sum_to(attrs: Seq<VertexAttribute>, k: int) -> int
    decreases k,
{
    if k <= 0 {
        0
    } else {
        comp_sum_to(attrs, k - 1) + attrs[k - 1].size
    }
}

/// The number of components over all of a pair's attributes.
pub open spec fn comp_sum(p: VerticesAttributesPair) -> int {
    comp_sum_to(p.attributes@, p.attributes@.len() as int)
}

/// The number of attributes over the first `j` pairs.
pub open spec fn n_attrs(pairs: Seq<VerticesAttributesPair>, j: int) -> int
    decreases j,
{
    if j <= 0 {
        0
    } else {
        n_attrs(pairs, j - 1) + pairs[j - 1].attributes@.len()
    }
}

/// The running first free shader location after the first `k` attributes of
/// a list, starting from `loc`.
pub open spec fn loc_after(attrs: Seq<VertexAttribute>, k: int, loc: int) -> int
    decreases k,
{
    if k <= 0 {
        loc
    } else {
        let prev = loc_after(attrs, k - 1, loc);
        if prev <= attrs[k - 1].index {
            attrs[k - 1].index + 1
        } else {
            prev
        }
    }
}

/// The first free shader location after the first `j` pairs, starting at 1.
pub open spec fn loc_pairs(pairs: Seq<VerticesAttributesPair>, j: int) -> int
    decreases j,
{
    if j <= 0 {
        1
    } else {
        loc_after(
            pairs[j - 1].attributes@,
            pairs[j - 1].attributes@.len() as int,
            loc_pairs(pairs, j - 1),
        )
    }
}

/// A pair whose layout arithmetic stays in machine range.
pub open spec fn wf_pair(p: VerticesAttributesPair) -> bool {
    &&& forall|k: int|
        0 <= k < p.attributes@.len() ==> 0 <= (#[trigger] p.attributes@[k]).size
    &&& comp_sum(p) * 4 <= i32::MAX
    &&& forall|k: int|
        0 <= k < p.attributes@.len() ==> (#[trigger] p.attributes@[k]).index <= u32::MAX - 4
}

/// All pairs in machine range.
pub open spec fn wf_pairs(pairs: Seq<VerticesAttributesPair>) -> bool {
    forall|j: int| 0 <= j < pairs.len() ==> wf_pair(#[trigger] pairs[j])
}

/// The attribute pointer the GPU layer installs for attribute `k` of pair
/// `j`: byte stride from the pair's component total, byte offset from the
/// attribute's component offset.
pub open spec fn pair_attrib(pairs: Seq<VerticesAttributesPair>, j: int, k: int) -> AttribPointer {
    AttribPointer {
        buffer_slot: (j + 2) as usize,
        index: pairs[j].attributes@[k].index,
        size: pairs[j].attributes@[k].size,
        data_type: pairs[j].data_type,
        stride: (comp_sum(pairs[j]) * 4) as i32,
        offset_bytes: (pairs[j].attributes@[k].offset * 4) as u64,
        divisor: 0,
    }
}

/// The attribute pointer of column `i` of the per-instance matrix: four
/// consecutive vec4 attributes in the instance buffer, divisor one.
pub open spec fn instance_attrib(pairs: Seq<VerticesAttributesPair>, i: int) -> AttribPointer {
    AttribPointer {
        buffer_slot: INST_INDEX,
        index: (loc_pairs(pairs, pairs.len() as int) + i) as u32,
        size: 4,
        data_type: GL_FLOAT_ENUM,
        stride: MAT4_BYTES as i32,
        offset_bytes: (i * 16) as u64,
        divisor: 1,
    }
}

/// Which error, if any, the store constructor reports for these inputs, in
/// the order the checks are made.
pub open spec fn init_error(
    pairs: Seq<VerticesAttributesPair>,
    n_idx: int,
    n_inst: int,
    n_vbo: int,
) -> Option<GeometryError> {
    if pairs.len() == 0 || exists|j: int|
        0 <= j < pairs.len() && (#[trigger] pairs[j]).buffer_data@.len() == 0 {
        Some(GeometryError::EmptyVertexData)
    } else if n_idx == 0 {
        Some(GeometryError::EmptyIndexData)
    } else if n_inst == 0 {
        Some(GeometryError::ZeroInstanceCapacity)
    } else if n_vbo != pairs.len() + 2 {
        Some(GeometryError::BufferCountMismatch)
    } else {
        None
    }
}

/// A lightweight handle to one instance slot of a store.
#[derive(Clone, Copy, PartialEq, Eq, Structural, Debug)]
pub struct GeometricInstance {
    pub vao_id: u32,
    pub program_id: u32,
    pub elem_id: u32,
    pub instances_id: u32,
    pub indices_count: i32,
    pub instance_count: i32,
    pub instance_index: usize,
}

/// One mesh shape's buffers and instance slots.
#[derive(Debug)]
pub struct GeometricObject {
    pub id: u32,
    pub program_id: u32,
    pub vbo_ids: Vec<u32>,
    pub instance_count: i32,
    pub indices_count: i32,
    pub buffer_count: i32,
    pub transforms: Vec<Mat4>,
}

impl GeometricObject {
    /// A well-formed store: as many mirrored transforms as instance slots,
    /// and the element and instance buffer ids present.
    pub open spec fn wf(self) -> bool {
        &&& self.transforms@.len() == self.instance_count
        &&& 0 < self.instance_count
        &&& self.vbo_ids@.len() >= 2
    }

    /// Builds a store over buffers the GPU layer has already named: checks
    /// the inputs, mirrors the instance transforms, and returns the exact
    /// attribute layout to install.  `vbo_ids` lists the element buffer,
    /// the instance buffer, then one buffer per attribute pair.
    #[verifier::loop_isolation(false)]
    pub fn init(
        program_id: u32,
        buffer_attrib_pairs: &Vec<VerticesAttributesPair>,
        indices: &Vec<u32>,
        instance_transforms: Vec<Mat4>,
        vao_id: u32,
        vbo_ids: Vec<u32>,
    ) -> (r: Result<(GeometricObject, Vec<AttribPointer>), GeometryError>)
        requires
            indices@.len() <= i32::MAX,
            instance_transforms@.len() <= i32::MAX,
            buffer_attrib_pairs@.len() + 2 <= i32::MAX,
            wf_pairs(buffer_attrib_pairs@),
        ensures
            ({
                let pairs = buffer_attrib_pairs@;
                let err = init_error(
                    pairs,
                    indices@.len() as int,
                    instance_transforms@.len() as int,
                    vbo_ids@.len() as int,
                );
                match r {
                    Err(e) => err == Some(e),
                    Ok((go, plan)) => {
                        &&& err is None
                        &&& go.id == vao_id
                        &&& go.program_id == program_id
                        &&& go.vbo_ids@ == vbo_ids@
                        &&& go.indices_count == indices@.len()
                        &&& go.instance_count == instance_transforms@.len()
                        &&& go.buffer_count == pairs.len() + 2
                        &&& go.transforms@ == instance_transforms@
                        &&& go.wf()
                        &&& plan@.len() == n_attrs(pairs, pairs.len() as int) + 4
                        &&& forall|j: int, k: int|
                            0 <= j < pairs.len() && 0 <= k < pairs[j].attributes@.len()
                                ==> plan@[n_attrs(pairs, j) + k] == pair_attrib(pairs, j, k)
                        &&& forall|i: int|
                            0 <= i < 4 ==> plan@[n_attrs(pairs, pairs.len() as int) + i]
                                == instance_attrib(pairs, i)
                    },
                }
            }),
    {
        let pairs_len = buffer_attrib_pairs.len();
        let mut j: usize = 0;
        let mut any_empty = false;
        while j < pairs_len
            invariant
                j <= pairs_len,
                pairs_len == buffer_attrib_pairs@.len(),
                any_empty <==> exists|t: int|
                    0 <= t < j && (#[trigger] buffer_attrib_pairs@[t]).buffer_data@.len() == 0,
            decreases pairs_len - j,
        {
            if buffer_attrib_pairs[j].buffer_data.len() == 0 {
                any_empty = true;
            }
            j += 1;
        }
        if pairs_len == 0 || any_empty {
            return Err(GeometryError::EmptyVertexData);
        }
        if indices.len() == 0 {
            return Err(GeometryError::EmptyIndexData);
        }
        if instance_transforms.len() == 0 {
            return Err(GeometryError::ZeroInstanceCapacity);
        }
        if vbo_ids.len() != pairs_len + 2 {
            return Err(GeometryError::BufferCountMismatch);
        }

        let ghost pairs = buffer_attrib_pairs@;
        let mut plan: Vec<AttribPointer> = Vec::new();
        let mut instance_location: u32 = 1;
        let mut pj: usize = 0;
        while pj < pairs_len
            invariant
                pj <= pairs_len,
                pairs_len == pairs.len(),
                pairs == buffer_attrib_pairs@,
                wf_pairs(pairs),
                plan@.len() == n_attrs(pairs, pj as int),
                instance_location == loc_pairs(pairs, pj as int),
                forall|j2: int, k: int|
                    0 <= j2 < pj && 0 <= k < pairs[j2].attributes@.len() ==> plan@[n_attrs(
                        pairs,
                        j2,
                    ) + k] == pair_attrib(pairs, j2, k),
            decreases pairs_len - pj,
        {
            let pair = &buffer_attrib_pairs[pj];
            let n_attr_pair = pair.attributes.len();

            let mut comp: i32 = 0;
            let mut k: usize = 0;
            while k < n_attr_pair
                invariant
                    k <= n_attr_pair,
                    n_attr_pair == pair.attributes@.len(),
                    pair == &buffer_attrib_pairs@[pj as int],
                    pj < pairs.len(),
                    pairs == buffer_attrib_pairs@,
                    wf_pair(pairs[pj as int]),
                    comp == comp_sum_to(pair.attributes@, k as int),
                    0 <= comp,
                decreases n_attr_pair - k,
            {
                proof {
                    lemma_comp_sum_mono(pair.attributes@, k as int + 1, n_attr_pair as int);
                }
                comp = comp + pair.attributes[k].size;
                k += 1;
            }
            proof {
                lemma_comp_sum_mono(pair.attributes@, n_attr_pair as int, n_attr_pair as int);
            }
            let stride: i32 = comp * 4;

            let mut k2: usize = 0;
            while k2 < n_attr_pair
                invariant
                    k2 <= n_attr_pair,
                    n_attr_pair == pair.attributes@.len(),
                    pair == &buffer_attrib_pairs@[pj as int],
                    pj < pairs.len(),
                    pairs == buffer_attrib_pairs@,
                    wf_pairs(pairs),
                    stride == comp_sum(pairs[pj as int]) * 4,
                    plan@.len() == n_attrs(pairs, pj as int) + k2,
                    instance_location == loc_after(
                        pair.attributes@,
                        k2 as int,
                        loc_pairs(pairs, pj as int),
                    ),
                    forall|j2: int, k: int|
                        0 <= j2 < pj && 0 <= k < pairs[j2].attributes@.len() ==> plan@[n_attrs(
                            pairs,
                            j2,
                        ) + k] == pair_attrib(pairs, j2, k),
                    forall|k: int|
                        0 <= k < k2 ==> plan@[n_attrs(pairs, pj as int) + k] == pair_attrib(
                            pairs,
                            pj as int,
                            k,
                        ),
                decreases n_attr_pair - k2,
            {
                let a = &pair.attributes[k2];
                proof {
                    assert(wf_pair(pairs[pj as int]));
                    lemma_loc_pairs_bounds(pairs, pj as int);
                    lemma_loc_bound(
                        pair.attributes@,
                        k2 as int + 1,
                        loc_pairs(pairs, pj as int),
                        (u32::MAX - 4) as int,
                    );
                    lemma_loc_lower(
                        pair.attributes@,
                        k2 as int,
                        loc_pairs(pairs, pj as int),
                    );
                }
                if instance_location <= a.index {
                    instance_location = a.index + 1;
                }
                plan.push(
                    AttribPointer {
                        buffer_slot: pj + 2,
                        index: a.index,
                        size: a.size,
                        data_type: pair.data_type,
                        stride,
                        offset_bytes: (a.offset as u64) * 4,
                        divisor: 0,
                    },
                );
                proof {
                    assert forall|j2: int, k: int|
                        0 <= j2 < pj && 0 <= k < pairs[j2].attributes@.len() implies plan@[n_attrs(
                        pairs,
                        j2,
                    ) + k] == pair_attrib(pairs, j2, k) by {
                        lemma_n_attrs_between(pairs, j2, pj as int);
                    }
                    lemma_n_attrs_between(pairs, pj as int, pj as int);
                }
                k2 += 1;
            }
            proof {
                lemma_n_attrs_between(pairs, pj as int, pj as int);
            }
            pj += 1;
        }

        proof {
            lemma_loc_pairs_bounds(pairs, pairs.len() as int);
        }
        let mut i: usize = 0;
        while i < 4
            invariant
                i <= 4,
                pairs == buffer_attrib_pairs@,
                wf_pairs(pairs),
                instance_location == loc_pairs(pairs, pairs.len() as int),
                instance_location + 3 <= u32::MAX,
                plan@.len() == n_attrs(pairs, pairs.len() as int) + i,
                forall|j2: int, k: int|
                    0 <= j2 < pairs.len() && 0 <= k < pairs[j2].attributes@.len() ==> plan@[n_attrs(
                        pairs,
                        j2,
                    ) + k] == pair_attrib(pairs, j2, k),
                forall|t: int|
                    0 <= t < i ==> plan@[n_attrs(pairs, pairs.len() as int) + t] == instance_attrib(
                        pairs,
                        t,
                    ),
            decreases 4 - i,
        {
            plan.push(
                AttribPointer {
                    buffer_slot: INST_INDEX,
                    index: instance_location + (i as u32),
                    size: 4,
                    data_type: GL_FLOAT_ENUM,
                    stride: MAT4_BYTES as i32,
                    offset_bytes: (i as u64) * 16,
                    divisor: 1,
                },
            );
            proof {
                assert forall|j2: int, k: int|
                    0 <= j2 < pairs.len() && 0 <= k < pairs[j2].attributes@.len() implies plan@[
                    n_attrs(pairs, j2) + k] == pair_attrib(pairs, j2, k) by {
                    lemma_n_attrs_between(pairs, j2, pairs.len() as int);
                }
            }
            i += 1;
        }

        let indices_count = indices.len() as i32;
        let instance_count = instance_transforms.len() as i32;
        let buffer_count = (pairs_len + 2) as i32;
        Ok(
            (
                GeometricObject {
                    id: vao_id,
                    program_id,
                    vbo_ids,
                    instance_count,
                    indices_count,
                    buffer_count,
                    transforms: instance_transforms,
                },
                plan,
            ),
        )
    }

    /// Replaces one instance slot's transform, giving back the exact buffer
    /// write for the GPU layer.  Every other slot is untouched; an index at
    /// or past the capacity is refused and changes nothing.
    pub fn update_transform(&mut self, index: usize, new_transform: &Mat4) -> (r: Result<
        InstanceUpdate,
        GeometryError,
    >)
        requires
            old(self).wf(),
        ensures
            final(self).wf(),
            index < old(self).transforms@.len() ==> {
                &&& r matches Ok(u)
                &&& u.buffer_id == old(self).vbo_ids@[INST_INDEX as int]
                &&& u.byte_offset == index * MAT4_BYTES
                &&& u.transform == *new_transform
                &&& final(self).transforms@ == old(self).transforms@.update(
                    index as int,
                    *new_transform,
                )
                &&& forall|j: int|
                    0 <= j < old(self).transforms@.len() && j != index ==> final(self).transforms@[j] == old(self).transforms@[j]
            },
            index >= old(self).transforms@.len() ==> r == Err::<
                InstanceUpdate,
                GeometryError,
            >(GeometryError::IndexOutOfRange) && *final(self) == *old(self),
            final(self).id == old(self).id && final(self).vbo_ids@ == old(self).vbo_ids@ && final(self).instance_count == old(self).instance_count && final(self).indices_count == old(self).indices_count && final(self).program_id == old(self).program_id && final(self).buffer_count == old(self).buffer_count,
    {
        if index >= self.transforms.len() {
            return Err(GeometryError::IndexOutOfRange);
        }
        self.transforms.set(index, *new_transform);
        Ok(
            InstanceUpdate {
                buffer_id: self.vbo_ids[1],
                byte_offset: (index as u64) * MAT4_BYTES,
                transform: *new_transform,
            },
        )
    }

    /// The draw call rendering every instance of this shape.
    pub fn draw_all(&self) -> (d: DrawCall)
        requires
            self.wf(),
        ensures
            d == (DrawCall {
                vao_id: self.id,
                elem_id: self.vbo_ids@[ELEM_INDEX as int],
                program_id: self.program_id,
                indices_count: self.indices_count,
                instance_count: self.instance_count,
            }),
    {
        DrawCall {
            vao_id: self.id,
            elem_id: self.vbo_ids[0],
            program_id: self.program_id,
            indices_count: self.indices_count,
            instance_count: self.instance_count,
        }
    }

    /// A handle to slot `index`: refused exactly when the index is at or
    /// past the capacity, so a handle always refers to a real slot.
    pub fn create_geometric_instance(&self, index: usize) -> (r: Result<
        GeometricInstance,
        GeometryError,
    >)
        requires
            self.wf(),
        ensures
            index < self.instance_count ==> r == Ok::<GeometricInstance, GeometryError>(
                GeometricInstance {
                    vao_id: self.id,
                    program_id: self.program_id,
                    elem_id: self.vbo_ids@[ELEM_INDEX as int],
                    instances_id: self.vbo_ids@[INST_INDEX as int],
                    indices_count: self.indices_count,
                    instance_count: self.instance_count,
                    instance_index: index,
                },
            ),
            index >= self.instance_count ==> r == Err::<GeometricInstance, GeometryError>(
                GeometryError::IndexOutOfRange,
            ),
    {
        if index >= self.transforms.len() {
            return Err(GeometryError::IndexOutOfRange);
        }
        Ok(
            GeometricInstance {
                vao_id: self.id,
                program_id: self.program_id,
                elem_id: self.vbo_ids[0],
                instances_id: self.vbo_ids[1],
                indices_count: self.indices_count,
                instance_count: self.instance_count,
                instance_index: index,
            },
        )
    }
}

impl GeometricInstance {
    /// Replaces this instance's transform in its owning store; a handle for
    /// another store is refused.
    pub fn update_transform(&self, store: &mut GeometricObject, new_transform: &Mat4) -> (r:
        Result<InstanceUpdate, GeometryError>)
        requires
            old(store).wf(),
        ensures
            final(store).wf(),
            self.vao_id != old(store).id ==> r == Err::<InstanceUpdate, GeometryError>(
                GeometryError::StoreMismatch,
            ) && *final(store) == *old(store),
            self.vao_id == old(store).id && self.instance_index < old(store).transforms@.len()
                ==> (r matches Ok(u) && u.byte_offset == self.instance_index * MAT4_BYTES
                && u.transform == *new_transform && final(store).transforms@ == old(store).transforms@.update(self.instance_index as int, *new_transform)),
            self.vao_id == old(store).id && self.instance_index >= old(store).transforms@.len()
                ==> r == Err::<InstanceUpdate, GeometryError>(GeometryError::IndexOutOfRange)
                && *final(store) == *old(store),
    {
        if self.vao_id != store.id {
            return Err(GeometryError::StoreMismatch);
        }
        store.update_transform(self.instance_index, new_transform)
    }

    /// The draw call rendering this instance's whole group.
    pub fn draw_all(&self) -> (d: DrawCall)
        ensures
            d == (DrawCall {
                vao_id: self.vao_id,
                elem_id: self.elem_id,
                program_id: self.program_id,
                indices_count: self.indices_count,
                instance_count: self.instance_count,
            }),
    {
        DrawCall {
            vao_id: self.vao_id,
            elem_id: self.elem_id,
            program_id: self.program_id,
            indices_count: self.indices_count,
            instance_count: self.instance_count,
        }
    }
}

/// Attribute counts over pair prefixes are nonnegative and leave room for
/// every attribute of a pair before a later prefix point.
proof fn lemma_n_attrs_between(pairs: Seq<VerticesAttributesPair>, a: int, b: int)
    requires
        0 <= a <= b <= pairs.len(),
    ensures
        0 <= n_attrs(pairs, a),
        a < b ==> n_attrs(pairs, a) + pairs[a].attributes@.len() <= n_attrs(pairs, b),
    decreases b,
{
    if a < b {
        if a == b - 1 {
            lemma_n_attrs_between(pairs, a, a);
        } else {
            lemma_n_attrs_between(pairs, a, b - 1);
        }
    } else if b > 0 {
        lemma_n_attrs_between(pairs, a - 1, b - 1);
    }
}

/// Partial component sums are bounded by the total when sizes are
/// nonnegative.
proof fn lemma_comp_sum_mono(attrs: Seq<VertexAttribute>, k: int, n: int)
    requires
        0 <= k <= n <= attrs.len(),
        forall|t: int| 0 <= t < attrs.len() ==> 0 <= (#[trigger] attrs[t]).size,
    ensures
        comp_sum_to(attrs, k) <= comp_sum_to(attrs, n),
        0 <= comp_sum_to(attrs, k),
    decreases n,
{
    if n > 0 {
        if k == n {
            lemma_comp_sum_mono(attrs, k - 1, n - 1);
        } else {
            lemma_comp_sum_mono(attrs, k, n - 1);
        }
    }
}

/// The running location never exceeds the largest attribute index plus one,
/// or its starting point.
proof fn lemma_loc_bound(attrs: Seq<VertexAttribute>, k: int, loc: int, maxi: int)
    requires
        0 <= k <= attrs.len(),
        loc <= maxi + 1,
        forall|t: int| 0 <= t < attrs.len() ==> (#[trigger] attrs[t]).index <= maxi,
    ensures
        loc_after(attrs, k, loc) <= maxi + 1,
    decreases k,
{
    if k > 0 {
        lemma_loc_bound(attrs, k - 1, loc, maxi);
    }
}

/// The running location never decreases.
proof fn lemma_loc_lower(attrs: Seq<VertexAttribute>, k: int, loc: int)
    requires
        0 <= k <= attrs.len(),
    ensures
        loc <= loc_after(attrs, k, loc),
    decreases k,
{
    if k > 0 {
        lemma_loc_lower(attrs, k - 1, loc);
    }
}

/// The first free location over whole pairs stays in range.
proof fn lemma_loc_pairs_bounds(pairs: Seq<VerticesAttributesPair>, j: int)
    requires
        0 <= j <= pairs.len(),
        wf_pairs(pairs),
    ensures
        1 <= loc_pairs(pairs, j) <= u32::MAX - 3,
    decreases j,
{
    if j > 0 {
        lemma_loc_pairs_bounds(pairs, j - 1);
        lemma_loc_lower(
            pairs[j - 1].attributes@,
            pairs[j - 1].attributes@.len() as int,
            loc_pairs(pairs, j - 1),
        );
        assert(wf_pair(pairs[j - 1]));
        lemma_loc_bound(
            pairs[j - 1].attributes@,
            pairs[j - 1].attributes@.len() as int,
            loc_pairs(pairs, j - 1),
            (u32::MAX - 4) as int,
        );
    }
}

} // verus!
