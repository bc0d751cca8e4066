//! The scene graph: an arena of nodes, each a spatial transform relative to
//! its parent.
//!
//! Nodes live in one `Vec`; children point at their parent by index, parents
//! list their children, and every child's index is strictly greater than its
//! parent's.  That ordering makes the graph a forest by construction: a
//! single forward pass recomputes every world transform from its parent's,
//! already final, world transform.

use crate::fixed::{fneg, Fx, ONE_B};
use crate::geometric_object::{DrawCall, GeometricInstance, InstanceUpdate, MAT4_BYTES};
use crate::vecmat::{
    mat_id, mat_rotation, mat_scaling, mat_translation, mm, rotate, scale, translate, Mat4, Vec3,
};
use vstd::prelude::*;

verus! {

/// Why a scene graph operation was refused.
#[derive(Clone, Copy, PartialEq, Eq, Structural, Debug)]
pub enum SceneError {
    /// A node index past the arena.
    NodeOutOfRange,
    /// A child whose index does not exceed its parent's, which the tree
    /// ordering demands.
    ChildBeforeParent,
    /// A node that already has a parent.
    AlreadyAttached,
}

/// One node: local position, Euler rotation (radians, applied X then Y then
/// Z), scale, the pivot for rotation and scale, the cached world transform,
/// an optional bound geometry instance, and the tree links.
pub struct SceneNode {
    pub position: Vec3,
    pub rotation: Vec3,
    pub scale: Vec3,
    pub reference_point: Vec3,
    pub current_transformation_matrix: Mat4,
    pub geometric_instance: Option<GeometricInstance>,
    pub children: Vec<usize>,
    pub parent: Option<usize>,
}

/// A node's local transform: scale about the reference point, rotate about
/// it X then Y then Z, then translate to the position.  Exactly the products
/// the update pass forms, in their order.
#[verifier::opaque]
pub open spec fn local_of(n: SceneNode) -> Seq<int> {
    let s0 = mm(mat_id(), mat_scaling(n.scale.x.v(), n.scale.y.v(), n.scale.z.v()));
    let s1 = mm(
        s0,
        mat_translation(n.reference_point.x.v(), n.reference_point.y.v(), n.reference_point.z.v()),
    );
    let s2 = mm(s1, mat_rotation(n.rotation.x.v(), ONE_B as int, 0, 0));
    let s3 = mm(s2, mat_rotation(n.rotation.y.v(), 0, ONE_B as int, 0));
    let s4 = mm(s3, mat_rotation(n.rotation.z.v(), 0, 0, ONE_B as int));
    let s5 = mm(
        s4,
        mat_translation(
            fneg(n.reference_point.x.v()),
            fneg(n.reference_point.y.v()),
            fneg(n.reference_point.z.v()),
        ),
    );
    mm(s5, mat_translation(n.position.x.v(), n.position.y.v(), n.position.z.v()))
}

impl SceneNode {
    /// A fresh node: at the origin, unrotated, unit scale, identity world
    /// transform, no geometry, detached.
    pub fn new() -> (n: SceneNode)
        ensures
            n.position == (Vec3 { x: Fx { bits: 0 }, y: Fx { bits: 0 }, z: Fx { bits: 0 } }),
            n.rotation == (Vec3 { x: Fx { bits: 0 }, y: Fx { bits: 0 }, z: Fx { bits: 0 } }),
            n.scale == (Vec3 {
                x: Fx { bits: ONE_B },
                y: Fx { bits: ONE_B },
                z: Fx { bits: ONE_B },
            }),
            n.reference_point == (Vec3 { x: Fx { bits: 0 }, y: Fx { bits: 0 }, z: Fx { bits: 0 } }),
            n.current_transformation_matrix.s() == mat_id(),
            n.geometric_instance is None,
            n.children@.len() == 0,
            n.parent is None,
    {
        SceneNode {
            position: Vec3::zero(),
            rotation: Vec3::zero(),
            scale: Vec3 { x: Fx { bits: ONE_B }, y: Fx { bits: ONE_B }, z: Fx { bits: ONE_B } },
            reference_point: Vec3::zero(),
            current_transformation_matrix: Mat4::identity(),
            geometric_instance: None,
            children: Vec::new(),
            parent: None,
        }
    }

    /// A fresh node driving the given geometry instance.
    pub fn from_vao(geometric_instance: GeometricInstance) -> (n: SceneNode)
        ensures
            n.geometric_instance == Some(geometric_instance),
            n.position == (Vec3 { x: Fx { bits: 0 }, y: Fx { bits: 0 }, z: Fx { bits: 0 } }),
            n.rotation == (Vec3 { x: Fx { bits: 0 }, y: Fx { bits: 0 }, z: Fx { bits: 0 } }),
            n.scale == (Vec3 {
                x: Fx { bits: ONE_B },
                y: Fx { bits: ONE_B },
                z: Fx { bits: ONE_B },
            }),
            n.reference_point == (Vec3 { x: Fx { bits: 0 }, y: Fx { bits: 0 }, z: Fx { bits: 0 } }),
            n.current_transformation_matrix.s() == mat_id(),
            n.children@.len() == 0,
            n.parent is None,
    {
        let mut n = SceneNode::new();
        n.geometric_instance = Some(geometric_instance);
        n
    }

    /// Moves the pivot that scale and rotation are applied about.
    pub fn set_reference_point(&mut self, point: Vec3)
        ensures
            *final(self) == (SceneNode { reference_point: point, ..*old(self) }),
    {
        self.reference_point = point;
    }
}

/// The arena of nodes.
pub struct SceneGraph {
    pub nodes: Vec<SceneNode>,
}

impl SceneGraph {
    /// The tree shape: every child link lands inside the arena at an index
    /// greater than its holder's, and a child's parent link points back at
    /// exactly the node listing it.
    pub open spec fn wf(self) -> bool {
        &&& forall|n: int, k: int|
            0 <= n < self.nodes@.len() && 0 <= k < self.nodes@[n].children@.len() ==> n < (
            #[trigger] self.nodes@[n].children@[k]) < self.nodes@.len()
        &&& forall|n: int, k: int|
            0 <= n < self.nodes@.len() && 0 <= k < self.nodes@[n].children@.len()
                ==> self.nodes@[self.nodes@[n].children@[k] as int].parent == Some(n as usize)
        &&& forall|c: int|
            0 <= c < self.nodes@.len() && (#[trigger] self.nodes@[c].parent) is Some
                ==> 0 <= self.nodes@[c].parent.unwrap() < c
    }

    /// An empty arena.
    pub fn new() -> (g: SceneGraph)
        ensures
            g.nodes@.len() == 0,
            g.wf(),
    {
        SceneGraph { nodes: Vec::new() }
    }

    /// Adds a detached node to the arena, returning its index.
    pub fn add_node(&mut self, node: SceneNode) -> (idx: usize)
        requires
            old(self).wf(),
            node.children@.len() == 0,
            node.parent is None,
        ensures
            final(self).wf(),
            idx == old(self).nodes@.len(),
            final(self).nodes@ == old(self).nodes@.push(node),
    {
        let idx = self.nodes.len();
        self.nodes.push(node);
        idx
    }

    /// Attaches `child` under `parent`.  Refused, leaving the graph
    /// unchanged, when an index is out of range, the child's index does not
    /// exceed the parent's, or the child already has a parent.
    pub fn add_child(&mut self, parent: usize, child: usize) -> (r: Result<(), SceneError>)
        requires
            old(self).wf(),
        ensures
            final(self).wf(),
            parent >= old(self).nodes@.len() || child >= old(self).nodes@.len() ==> r == Err::<
                (),
                SceneError,
            >(SceneError::NodeOutOfRange) && *final(self) == *old(self),
            parent < old(self).nodes@.len() && child < old(self).nodes@.len() && child <= parent
                ==> r == Err::<(), SceneError>(SceneError::ChildBeforeParent) && *final(self)
                == *old(self),
            parent < old(self).nodes@.len() && child < old(self).nodes@.len() && child > parent
                && old(self).nodes@[child as int].parent is Some ==> r == Err::<(), SceneError>(
                SceneError::AlreadyAttached,
            ) && *final(self) == *old(self),
            parent < old(self).nodes@.len() && child < old(self).nodes@.len() && child > parent
                && old(self).nodes@[child as int].parent is None ==> {
                &&& r is Ok
                &&& final(self).nodes@.len() == old(self).nodes@.len()
                &&& final(self).nodes@[parent as int].children@ == old(self).nodes@[parent as int].children@.push(child)
                &&& final(self).nodes@[child as int].parent == Some(parent)
                &&& forall|n: int|
                    0 <= n < old(self).nodes@.len() && n != parent && n != child ==> final(self).nodes@[n] == old(self).nodes@[n]
                &&& final(self).nodes@[parent as int].parent == old(self).nodes@[parent as int].parent
                &&& final(self).nodes@[child as int].children@ == old(self).nodes@[child as int].children@
                &&& final(self).nodes@[parent as int] == (SceneNode {
                    children: final(self).nodes@[parent as int].children,
                    ..old(self).nodes@[parent as int]
                })
                &&& final(self).nodes@[child as int] == (SceneNode {
                    parent: final(self).nodes@[child as int].parent,
                    ..old(self).nodes@[child as int]
                })
            },
    {
        let n = self.nodes.len();
        if parent >= n || child >= n {
            return Err(SceneError::NodeOutOfRange);
        }
        if child <= parent {
            return Err(SceneError::ChildBeforeParent);
        }
        if self.nodes[child].parent.is_some() {
            return Err(SceneError::AlreadyAttached);
        }
        let parent_node = &mut self.nodes[parent];
        parent_node.children.push(child);
        let child_node = &mut self.nodes[child];
        child_node.parent = Some(parent);
        Ok(())
    }
}

/// Two nodes that agree on everything but the cached world transform.
pub open spec fn same_shape(a: SceneNode, b: SceneNode) -> bool {
    b == (SceneNode { current_transformation_matrix: b.current_transformation_matrix, ..a })
}

/// Every cached world transform is current: a root's is the pass's incoming
/// transform times its local transform, any other node's is its parent's
/// world transform times its local transform.
pub open spec fn transforms_current(nodes: Seq<SceneNode>, pm: Seq<int>) -> bool {
    forall|n: int|
        0 <= n < nodes.len() ==> (#[trigger] nodes[n].current_transformation_matrix.s()) == (
        match nodes[n].parent {
            Some(p) => mm(nodes[p as int].current_transformation_matrix.s(), local_of(nodes[n])),
            None => mm(pm, local_of(nodes[n])),
        })
}

/// The product of the local transforms of the nodes on `path`, applied left
/// to right after `pm`.
pub open spec fn path_product(nodes: Seq<SceneNode>, pm: Seq<int>, path: Seq<int>) -> Seq<int>
    decreases path.len(),
{
    if path.len() == 0 {
        pm
    } else {
        mm(path_product(nodes, pm, path.drop_last()), local_of(nodes[path.last()]))
    }
}

/// A chain of nodes from a root downward: the first has no parent, each
/// later one's parent is its predecessor.
pub open spec fn is_root_path(nodes: Seq<SceneNode>, path: Seq<int>) -> bool {
    &&& path.len() > 0
    &&& forall|j: int| 0 <= j < path.len() ==> 0 <= #[trigger] path[j] < nodes.len()
    &&& nodes[path[0]].parent is None
    &&& forall|j: int|
        1 <= j < path.len() ==> nodes[#[trigger] path[j]].parent == Some(path[j - 1] as usize)
}

/// After an update pass, the world transform of any node equals the product
/// of its ancestors' local transforms in root-to-leaf order, applied to the
/// pass's incoming transform.
#[verifier::spinoff_prover]
#[verifier::rlimit(100)]
pub proof fn lemma_world_is_path_product(nodes: Seq<SceneNode>, pm: Seq<int>, path: Seq<int>)
    requires
        nodes.len() <= usize::MAX,
        transforms_current(nodes, pm),
        is_root_path(nodes, path),
    ensures
        nodes[path.last()].current_transformation_matrix.s() == path_product(nodes, pm, path),
    decreases path.len(),
{
    if path.len() == 1 {
        assert(path.drop_last().len() == 0);
        assert(path_product(nodes, pm, path.drop_last()) == pm);
        assert(nodes[path.last()].current_transformation_matrix.s() == mm(
            pm,
            local_of(nodes[path.last()]),
        ));
        assert(path_product(nodes, pm, path) == mm(pm, local_of(nodes[path.last()])));
    } else {
        let pre = path.drop_last();
        assert(is_root_path(nodes, pre)) by {
            assert(forall|j: int| 0 <= j < pre.len() ==> pre[j] == path[j]);
        }
        lemma_world_is_path_product(nodes, pm, pre);
        let p = path[path.len() - 2];
        assert(nodes[path.last()].parent == Some(p as usize));
        assert(pre.last() == p);
        assert(nodes[path.last()].current_transformation_matrix.s() == mm(
            nodes[p].current_transformation_matrix.s(),
            local_of(nodes[path.last()]),
        ));
        assert(path_product(nodes, pm, path) == mm(
            path_product(nodes, pm, pre),
            local_of(nodes[path.last()]),
        ));
    }
}

/// The instance updates a draw pass issues for the first `n` nodes: every
/// node bound to a geometry instance writes its world transform into its
/// instance slot.
pub open spec fn draw_updates_s(nodes: Seq<SceneNode>, n: int) -> Seq<InstanceUpdate>
    decreases n,
{
    if n <= 0 {
        Seq::empty()
    } else {
        draw_updates_s(nodes, n - 1) + (match nodes[n - 1].geometric_instance {
            Some(gi) => seq![
                InstanceUpdate {
                    buffer_id: gi.instances_id,
                    byte_offset: (gi.instance_index * MAT4_BYTES) as u64,
                    transform: nodes[n - 1].current_transformation_matrix,
                },
            ],
            None => Seq::empty(),
        })
    }
}

/// The draw call of a geometry instance's whole group.
pub open spec fn call_of(gi: GeometricInstance) -> DrawCall {
    DrawCall {
        vao_id: gi.vao_id,
        elem_id: gi.elem_id,
        program_id: gi.program_id,
        indices_count: gi.indices_count,
        instance_count: gi.instance_count,
    }
}

/// The deduplicated draw calls from node `i` on: each store, identified by
/// its vertex array id, is drawn once, at its first occurrence, and `seen`
/// lists the ids already drawn.
pub open spec fn draw_calls_from(nodes: Seq<SceneNode>, i: int, seen: Seq<u32>) -> Seq<DrawCall>
    decreases nodes.len() - i,
{
    if i < 0 || i >= nodes.len() {
        Seq::empty()
    } else if nodes[i].geometric_instance is Some {
        let gi = nodes[i].geometric_instance.unwrap();
        if seen.contains(gi.vao_id) {
            draw_calls_from(nodes, i + 1, seen)
        } else {
            seq![call_of(gi)] + draw_calls_from(nodes, i + 1, seen.push(gi.vao_id))
        }
    } else {
        draw_calls_from(nodes, i + 1, seen)
    }
}

/// What a draw pass asks the GPU layer to do: the instance buffer writes,
/// then one draw call per distinct store.
pub struct DrawPlan {
    pub updates: Vec<InstanceUpdate>,
    pub draws: Vec<DrawCall>,
}

/// Whether a vector holds a value.
fn vec_contains_u32(v: &Vec<u32>, x: u32) -> (b: bool)
    ensures
        b == v@.contains(x),
{
    let mut i: usize = 0;
    while i < v.len()
        invariant
            i <= v@.len(),
            forall|j: int| 0 <= j < i ==> v@[j] != x,
        decreases v@.len() - i,
    {
        if v[i] == x {
            return true;
        }
        i += 1;
    }
    false
}

impl SceneGraph {
    /// Recomputes every node's world transform top-down: each node's cached
    /// matrix becomes its parent's new world transform (or the given
    /// transform, at a root) times its local transform.  Nothing else about
    /// any node changes.
    #[verifier::rlimit(100)]
    pub fn update_node_transformations(&mut self, transformation_so_far: &Mat4)
        requires
            old(self).wf(),
        ensures
            final(self).wf(),
            final(self).nodes@.len() == old(self).nodes@.len(),
            transforms_current(final(self).nodes@, transformation_so_far.s()),
            forall|n: int|
                0 <= n < old(self).nodes@.len() ==> same_shape(
                    old(self).nodes@[n],
                    #[trigger] final(self).nodes@[n],
                ),
    {
        let len = self.nodes.len();
        let mut i: usize = 0;
        while i < len
            invariant
                i <= len,
                len == self.nodes@.len(),
                self.wf(),
                forall|n: int|
                    0 <= n < len ==> same_shape(old(self).nodes@[n], #[trigger] self.nodes@[n]),
                forall|n: int|
                    0 <= n < i ==> (#[trigger] self.nodes@[n].current_transformation_matrix.s())
                        == (match self.nodes@[n].parent {
                        Some(p) => mm(
                            self.nodes@[p as int].current_transformation_matrix.s(),
                            local_of(self.nodes@[n]),
                        ),
                        None => mm(transformation_so_far.s(), local_of(self.nodes@[n])),
                    }),
            decreases len - i,
        {
            let node = &self.nodes[i];
            let x_axis = Vec3 { x: Fx { bits: ONE_B }, y: Fx { bits: 0 }, z: Fx { bits: 0 } };
            let y_axis = Vec3 { x: Fx { bits: 0 }, y: Fx { bits: ONE_B }, z: Fx { bits: 0 } };
            let z_axis = Vec3 { x: Fx { bits: 0 }, y: Fx { bits: 0 }, z: Fx { bits: ONE_B } };
            let ident = Mat4::identity();
            let l0 = scale(&ident, node.scale);
            let l1 = translate(&l0, node.reference_point);
            let l2 = rotate(&l1, node.rotation.x, x_axis);
            let l3 = rotate(&l2, node.rotation.y, y_axis);
            let l4 = rotate(&l3, node.rotation.z, z_axis);
            let l5 = translate(&l4, node.reference_point.neg());
            let local = translate(&l5, node.position);
            proof {
                reveal(local_of);
                assert(local.s() == local_of(self.nodes@[i as int]));
            }
            let parent = node.parent;
            let pm: Mat4 = match parent {
                Some(p) => self.nodes[p].current_transformation_matrix,
                None => *transformation_so_far,
            };
            let w = crate::vecmat::mat_mul(&pm, &local);
            let node_mut = &mut self.nodes[i];
            node_mut.current_transformation_matrix = w;
            i += 1;
        }
    }

    /// The draw pass over the whole arena: every bound instance's slot is
    /// updated to its node's world transform, and each distinct store is
    /// drawn once, in first-occurrence order.
    pub fn draw(&self) -> (plan: DrawPlan)
        requires
            forall|n: int|
                0 <= n < self.nodes@.len() && (#[trigger] self.nodes@[n].geometric_instance)
                    is Some ==> self.nodes@[n].geometric_instance.unwrap().instance_index
                    * MAT4_BYTES <= u64::MAX,
        ensures
            plan.updates@ == draw_updates_s(self.nodes@, self.nodes@.len() as int),
            plan.draws@ == draw_calls_from(self.nodes@, 0, Seq::empty()),
    {
        let len = self.nodes.len();
        let mut updates: Vec<InstanceUpdate> = Vec::new();
        let mut draws: Vec<DrawCall> = Vec::new();
        let mut seen: Vec<u32> = Vec::new();
        let mut i: usize = 0;
        while i < len
            invariant
                i <= len,
                len == self.nodes@.len(),
                forall|n: int|
                    0 <= n < self.nodes@.len() && (#[trigger] self.nodes@[n].geometric_instance)
                        is Some ==> self.nodes@[n].geometric_instance.unwrap().instance_index
                        * MAT4_BYTES <= u64::MAX,
                updates@ == draw_updates_s(self.nodes@, i as int),
                draw_calls_from(self.nodes@, 0, Seq::empty()) == draws@ + draw_calls_from(
                    self.nodes@,
                    i as int,
                    seen@,
                ),
            decreases len - i,
        {
            let node = &self.nodes[i];
            match &node.geometric_instance {
                Some(gi) => {
                    updates.push(
                        InstanceUpdate {
                            buffer_id: gi.instances_id,
                            byte_offset: (gi.instance_index as u64) * MAT4_BYTES,
                            transform: node.current_transformation_matrix,
                        },
                    );
                    if !vec_contains_u32(&seen, gi.vao_id) {
                        draws.push(gi.draw_all());
                        seen.push(gi.vao_id);
                    }
                },
                None => {},
            }
            i += 1;
        }
        DrawPlan { updates, draws }
    }
}

} // verus!
