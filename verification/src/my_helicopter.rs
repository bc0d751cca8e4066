//! A fleet of instanced helicopters: four shared shapes (body, two rotors,
//! a door), one instance slot per helicopter, and a five-node subtree in
//! the scene graph for each.

use crate::fixed::{fadd, fmul, tmod, Fx, ONE_B};
use crate::geometric_object::{GeometricInstance, GeometricObject};
use crate::scene_graph::{SceneGraph, SceneNode};
use crate::toolbox::{heading_s, simple_heading_animation, Heading};
use crate::trig::TAU_B;
use crate::vecmat::Vec3;
use vstd::prelude::*;

verus! {

/// Three, in Q16.16 bits: the rotors spin three full turns a second.
pub const THREE_B: i32 = 196608;

/// The tail rotor's pivot, in Q16.16 units.
pub const TAIL_PIVOT_X_B: i32 = 22938;

/// The tail rotor's pivot, in Q16.16 units.
pub const TAIL_PIVOT_Y_B: i32 = 150733;

/// The tail rotor's pivot, in Q16.16 units.
pub const TAIL_PIVOT_Z_B: i32 = 681574;

/// One helicopter: the arena indices of its five scene nodes, its heading
/// state, and its fixed offsets.
pub struct HelicopterNode {
    pub root_node: usize,
    pub body_node: usize,
    pub main_rotor_node: usize,
    pub tail_rotor_node: usize,
    pub door_node: usize,
    pub heading: Heading,
    pub heading_offset: Fx,
    pub pos_offset: Vec3,
}

impl HelicopterNode {
    /// The node indices all name distinct nodes of a graph.
    pub open spec fn indices_ok(self, g: SceneGraph) -> bool {
        &&& self.root_node < g.nodes@.len()
        &&& self.body_node < g.nodes@.len()
        &&& self.main_rotor_node < g.nodes@.len()
        &&& self.tail_rotor_node < g.nodes@.len()
        &&& self.root_node != self.body_node && self.root_node != self.main_rotor_node
            && self.root_node != self.tail_rotor_node
        &&& self.body_node != self.main_rotor_node && self.body_node != self.tail_rotor_node
        &&& self.main_rotor_node != self.tail_rotor_node
    }

    /// Advances the helicopter one frame: the rotors wrap and then spin on
    /// by three turns a second, the heading is recomputed from the offset
    /// elapsed time, and the root position and body attitude follow it.
    /// Only those position and rotation fields change.
    pub fn update(&mut self, graph: &mut SceneGraph, delta_time: Fx, elapsed: Fx)
        requires
            old(self).indices_ok(*old(graph)),
            old(graph).wf(),
        ensures
            final(graph).wf(),
            final(graph).nodes@.len() == old(graph).nodes@.len(),
            final(self).indices_ok(*final(graph)),
            ({
                let spin = fadd(
                    tmod(
                        old(graph).nodes@[old(self).main_rotor_node as int].rotation.y.v(),
                        TAU_B as int,
                    ),
                    fmul(fmul(delta_time.v(), TAU_B as int), 3 * ONE_B),
                );
                final(graph).nodes@[final(self).main_rotor_node as int].rotation.y.v() == spin
            }),
            ({
                let spin = fadd(
                    tmod(
                        old(graph).nodes@[old(self).tail_rotor_node as int].rotation.x.v(),
                        TAU_B as int,
                    ),
                    fmul(fmul(delta_time.v(), TAU_B as int), 3 * ONE_B),
                );
                final(graph).nodes@[final(self).tail_rotor_node as int].rotation.x.v() == spin
            }),
            ({
                let h = heading_s(fadd(elapsed.v(), old(self).heading_offset.v()));
                &&& (
                    final(self).heading.x.v(),
                    final(self).heading.z.v(),
                    final(self).heading.pitch.v(),
                    final(self).heading.yaw.v(),
                    final(self).heading.roll.v(),
                ) == h
                &&& final(graph).nodes@[final(self).root_node as int].position.x.v() == fadd(
                    h.0,
                    old(self).pos_offset.x.v(),
                )
                &&& final(graph).nodes@[final(self).root_node as int].position.z.v() == fadd(
                    h.1,
                    old(self).pos_offset.z.v(),
                )
                &&& final(graph).nodes@[final(self).body_node as int].rotation.x.v() == h.2
                &&& final(graph).nodes@[final(self).body_node as int].rotation.y.v() == h.3
                &&& final(graph).nodes@[final(self).body_node as int].rotation.z.v() == h.4
            }),
            final(self).root_node == old(self).root_node,
            final(self).body_node == old(self).body_node,
            final(self).main_rotor_node == old(self).main_rotor_node,
            final(self).tail_rotor_node == old(self).tail_rotor_node,
            final(self).door_node == old(self).door_node,
            final(self).heading_offset == old(self).heading_offset,
            final(self).pos_offset == old(self).pos_offset,
            forall|n: int|
                0 <= n < old(graph).nodes@.len() && n != old(self).main_rotor_node && n != old(self).tail_rotor_node && n != old(self).root_node && n != old(self).body_node
                    ==> final(graph).nodes@[n] == old(graph).nodes@[n],
            forall|n: int|
                0 <= n < old(graph).nodes@.len() ==> (#[trigger] final(graph).nodes@[n]).children@
                    == old(graph).nodes@[n].children@ && final(graph).nodes@[n].parent == old(graph).nodes@[n].parent && final(graph).nodes@[n].geometric_instance == old(graph).nodes@[n].geometric_instance,
    {
        let tau = Fx { bits: TAU_B };
        let spin_step = delta_time.mul(tau).mul(Fx { bits: THREE_B });

        let main = &mut graph.nodes[self.main_rotor_node];
        let wrapped_y = main.rotation.y.rem(tau);
        main.rotation.y = wrapped_y.add(spin_step);

        let tail = &mut graph.nodes[self.tail_rotor_node];
        let wrapped_x = tail.rotation.x.rem(tau);
        tail.rotation.x = wrapped_x.add(spin_step);

        self.heading = simple_heading_animation(elapsed.add(self.heading_offset));

        let root = &mut graph.nodes[self.root_node];
        root.position.x = self.heading.x.add(self.pos_offset.x);
        root.position.z = self.heading.z.add(self.pos_offset.z);

        let body = &mut graph.nodes[self.body_node];
        body.rotation.x = self.heading.pitch;
        body.rotation.y = self.heading.yaw;
        body.rotation.z = self.heading.roll;
    }
}

/// The shared geometry of all helicopters and the allocation of instance
/// slots to spawned helicopters.
pub struct MyHelicopter {
    pub body_geometry: GeometricObject,
    pub main_rotor_geometry: GeometricObject,
    pub tail_rotor_geometry: GeometricObject,
    pub door_geometry: GeometricObject,
    pub max_instance: usize,
    pub last_instance: usize,
}

impl MyHelicopter {
    /// Well formed: the four stores share the slot capacity, and the slots
    /// handed out so far stay within it.
    pub open spec fn wf(self) -> bool {
        &&& self.body_geometry.wf()
        &&& self.main_rotor_geometry.wf()
        &&& self.tail_rotor_geometry.wf()
        &&& self.door_geometry.wf()
        &&& self.body_geometry.instance_count == self.max_instance
        &&& self.main_rotor_geometry.instance_count == self.max_instance
        &&& self.tail_rotor_geometry.instance_count == self.max_instance
        &&& self.door_geometry.instance_count == self.max_instance
        &&& self.last_instance <= self.max_instance
    }

    /// Gathers the four stores of a helicopter fleet of `count` slots.  The
    /// stores are built by the caller from the mesh's four shapes, each
    /// with `count` instance slots.
    pub fn init(
        body_geometry: GeometricObject,
        main_rotor_geometry: GeometricObject,
        tail_rotor_geometry: GeometricObject,
        door_geometry: GeometricObject,
        count: usize,
    ) -> (h: MyHelicopter)
        requires
            body_geometry.wf(),
            main_rotor_geometry.wf(),
            tail_rotor_geometry.wf(),
            door_geometry.wf(),
            body_geometry.instance_count == count,
            main_rotor_geometry.instance_count == count,
            tail_rotor_geometry.instance_count == count,
            door_geometry.instance_count == count,
        ensures
            h.wf(),
            h.max_instance == count,
            h.last_instance == 0,
            h.body_geometry == body_geometry,
            h.main_rotor_geometry == main_rotor_geometry,
            h.tail_rotor_geometry == tail_rotor_geometry,
            h.door_geometry == door_geometry,
    {
        MyHelicopter {
            body_geometry,
            main_rotor_geometry,
            tail_rotor_geometry,
            door_geometry,
            max_instance: count,
            last_instance: 0,
        }
    }

    /// Spawns one helicopter: takes the next instance slot in each store,
    /// builds its five-node subtree in the graph (root, body under it,
    /// both rotors and the door under the body, the tail rotor pivoted at
    /// its hub), and returns its handle.  Refused, changing nothing, when
    /// every slot is taken.
    pub fn create_helicopter_node(
        &mut self,
        heading_offset: Fx,
        pos_offset: Vec3,
        graph: &mut SceneGraph,
    ) -> (r: Option<HelicopterNode>)
        requires
            old(self).wf(),
            old(graph).wf(),
            old(graph).nodes@.len() + 5 <= usize::MAX,
        ensures
            final(self).wf(),
            final(graph).wf(),
            old(self).last_instance >= old(self).max_instance ==> r is None && *final(self)
                == *old(self) && *final(graph) == *old(graph),
            old(self).last_instance < old(self).max_instance ==> (r matches Some(h) && {
                &&& final(self).last_instance == old(self).last_instance + 1
                &&& final(self).max_instance == old(self).max_instance
                &&& final(graph).nodes@.len() == old(graph).nodes@.len() + 5
                &&& h.root_node == old(graph).nodes@.len()
                &&& h.body_node == old(graph).nodes@.len() + 1
                &&& h.main_rotor_node == old(graph).nodes@.len() + 2
                &&& h.tail_rotor_node == old(graph).nodes@.len() + 3
                &&& h.door_node == old(graph).nodes@.len() + 4
                &&& h.heading_offset == heading_offset
                &&& h.pos_offset == pos_offset
                &&& h.indices_ok(*final(graph))
                &&& final(graph).nodes@[h.body_node as int].parent == Some(h.root_node)
                &&& final(graph).nodes@[h.main_rotor_node as int].parent == Some(h.body_node)
                &&& final(graph).nodes@[h.tail_rotor_node as int].parent == Some(h.body_node)
                &&& final(graph).nodes@[h.door_node as int].parent == Some(h.body_node)
                &&& (match final(graph).nodes@[h.body_node as int].geometric_instance {
                    Some(gi) => gi.instance_index == old(self).last_instance && gi.vao_id == old(self).body_geometry.id,
                    None => false,
                })
                &&& (match final(graph).nodes@[h.main_rotor_node as int].geometric_instance {
                    Some(gi) => gi.instance_index == old(self).last_instance && gi.vao_id == old(self).main_rotor_geometry.id,
                    None => false,
                })
                &&& (match final(graph).nodes@[h.tail_rotor_node as int].geometric_instance {
                    Some(gi) => gi.instance_index == old(self).last_instance && gi.vao_id == old(self).tail_rotor_geometry.id,
                    None => false,
                })
                &&& (match final(graph).nodes@[h.door_node as int].geometric_instance {
                    Some(gi) => gi.instance_index == old(self).last_instance && gi.vao_id == old(self).door_geometry.id,
                    None => false,
                })
                &&& final(graph).nodes@[h.tail_rotor_node as int].reference_point.x.v() == TAIL_PIVOT_X_B
                &&& final(graph).nodes@[h.tail_rotor_node as int].reference_point.y.v() == TAIL_PIVOT_Y_B
                &&& final(graph).nodes@[h.tail_rotor_node as int].reference_point.z.v() == TAIL_PIVOT_Z_B
                &&& forall|n: int|
                    0 <= n < old(graph).nodes@.len() && n != h.root_node && n != h.body_node
                        ==> final(graph).nodes@[n] == old(graph).nodes@[n]
            }),
    {
        if self.last_instance >= self.max_instance {
            return None;
        }

        let body_instance = match self.body_geometry.create_geometric_instance(
            self.last_instance,
        ) {
            Ok(h) => h,
            Err(_) => {
                return None;
            },
        };
        let main_rotor_instance = match self.main_rotor_geometry.create_geometric_instance(
            self.last_instance,
        ) {
            Ok(h) => h,
            Err(_) => {
                return None;
            },
        };
        let tail_rotor_instance = match self.tail_rotor_geometry.create_geometric_instance(
            self.last_instance,
        ) {
            Ok(h) => h,
            Err(_) => {
                return None;
            },
        };
        let door_instance = match self.door_geometry.create_geometric_instance(
            self.last_instance,
        ) {
            Ok(h) => h,
            Err(_) => {
                return None;
            },
        };

        let root_node = graph.add_node(SceneNode::new());
        let body_node = graph.add_node(SceneNode::from_vao(body_instance));
        let rc1 = graph.add_child(root_node, body_node);
        let main_rotor_node = graph.add_node(SceneNode::from_vao(main_rotor_instance));
        let rc2 = graph.add_child(body_node, main_rotor_node);

        let mut tail_node = SceneNode::from_vao(tail_rotor_instance);
        tail_node.set_reference_point(
            Vec3 {
                x: Fx { bits: TAIL_PIVOT_X_B },
                y: Fx { bits: TAIL_PIVOT_Y_B },
                z: Fx { bits: TAIL_PIVOT_Z_B },
            },
        );
        let tail_rotor_node = graph.add_node(tail_node);
        let rc3 = graph.add_child(body_node, tail_rotor_node);

        let door_node = graph.add_node(SceneNode::from_vao(door_instance));
        let rc4 = graph.add_child(body_node, door_node);
        proof {
            assert(rc1 is Ok && rc2 is Ok && rc3 is Ok && rc4 is Ok);
        }

        self.last_instance += 1;

        Some(
            HelicopterNode {
                root_node,
                body_node,
                main_rotor_node,
                tail_rotor_node,
                door_node,
                heading: Heading::new(),
                heading_offset,
                pos_offset,
            },
        )
    }
}

} // verus!
