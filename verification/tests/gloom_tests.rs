use gloom::camera::{Camera, CameraBuildError, CameraBuilder, VecDir};
use gloom::fixed::Fx;
use gloom::geometric_object::{GeometricObject, GeometryError};
use gloom::my_helicopter::MyHelicopter;
use gloom::obj_loader::{decrement_faces, parse_obj, parse_line, parse_line_u32};
use gloom::scene_graph::{SceneGraph, SceneNode};
use gloom::toolbox::simple_heading_animation;
use gloom::trig::{cos_fx, sin_fx, HALF_PI_B, PI_B, TAU_B};
use gloom::vecmat::{
    quat_from_axis_angle, quat_rotate_vec3, quat_to_mat4, rotate, translate, Mat4, Quat,
    Vec3,
};
use gloom::vertex_attributes::VerticesAttributesPair;

const ONE: i32 = 65536;

fn fx(bits: i32) -> Fx {
    Fx { bits }
}

fn v3(x: i32, y: i32, z: i32) -> Vec3 {
    Vec3 { x: fx(x), y: fx(y), z: fx(z) }
}

fn simple_store(capacity: usize) -> GeometricObject {
    let pair = VerticesAttributesPair::init(vec![0u32; 12], 5126).add_attribute(0, 0, 3, 0);
    let indices: Vec<u32> = vec![0, 1, 2];
    let transforms = vec![Mat4::identity(); capacity];
    let (store, _plan) =
        GeometricObject::init(7, &vec![pair], &indices, transforms, 41, vec![51, 52, 53])
            .expect("store should build");
    store
}

#[test]
fn parse_v_simple_works() {
    // Source: https://people.sc.fsu.edu/~jburkardt/data/obj/tetrahedron.obj
    let tetrahedon = String::from(
        "# tetrahedron.obj created by hand.
        #

        g tetrahedron

        v 1.00 1.00 1.00
        v 2.00 1.00 1.00
        v 1.00 2.00 1.00
        v 1.00 1.00 2.00

        f 1 3 2
        f 1 4 3
        f 1 2 4
        f 2 3 4",
    );

    match parse_obj(&tetrahedon) {
        Ok(o) => {
            let exp_vertices: Vec<i32> = vec![
                ONE, ONE, ONE, ONE, 2 * ONE, ONE, ONE, ONE, ONE, 2 * ONE, ONE, ONE, ONE, ONE,
                2 * ONE, ONE,
            ];
            let got: Vec<i32> = o.vertices.iter().map(|f| f.bits).collect();
            assert_eq!(got, exp_vertices);

            let exp_faces: Vec<u32> = vec![1, 3, 2, 1, 4, 3, 1, 2, 4, 2, 3, 4];
            assert_eq!(o.faces, exp_faces);
        }
        Err(_) => {
            panic!("parse_v_simple_works failed");
        }
    }
}

#[test]
fn parse_obj_skips_malformed_and_other_lines() {
    let data = "vn 0 1 0\nvt 0 0\nv 1 2 3\nv nonsense 5\nf 1 2 x\nf 1 2 3 4\n# comment";
    let o = parse_obj(data).expect("parse always succeeds");
    // "v 1 2 3" gives three values and an implicit w of one; the malformed
    // line contributes only its parsable values plus the implicit w.
    assert_eq!(
        o.vertices.iter().map(|f| f.bits).collect::<Vec<i32>>(),
        vec![ONE, 2 * ONE, 3 * ONE, ONE, 5 * ONE, ONE]
    );
    // Face lines keep at most their first three numbers; bad values drop.
    assert_eq!(o.faces, vec![1, 2, 1, 2, 3]);
}

#[test]
fn parse_line_fills_slots_and_keeps_missing() {
    let mut target: [Option<Fx>; 4] = [None, None, None, Some(fx(7))];
    parse_line(&mut target, "v 1.5 -2 0.25");
    assert_eq!(target[0], Some(fx(98304)));
    assert_eq!(target[1], Some(fx(-131072)));
    assert_eq!(target[2], Some(fx(16384)));
    assert_eq!(target[3], Some(fx(7)));
}

#[test]
fn parse_line_u32_rejects_bad_numbers() {
    let mut target: [Option<u32>; 4] = [None, None, None, None];
    parse_line_u32(&mut target, "f 12 -3 4.5 99");
    assert_eq!(target[0], Some(12));
    assert_eq!(target[1], None);
    assert_eq!(target[2], None);
    assert_eq!(target[3], Some(99));
}

#[test]
fn decrement_faces_shifts_to_zero_based() {
    let faces: Vec<u32> = vec![1, 3, 2, 4];
    assert_eq!(decrement_faces(&faces), vec![0, 2, 1, 3]);
}

#[test]
fn fixed_point_arithmetic_is_exact_and_saturating() {
    assert_eq!(fx(98304).mul(fx(98304)).bits, 147456); // 1.5 * 1.5 == 2.25
    assert_eq!(fx(-98304).mul(fx(ONE)).bits, -98304);
    assert_eq!(fx(i32::MAX).mul(fx(i32::MAX)).bits, i32::MAX);
    assert_eq!(fx(i32::MAX).add(fx(i32::MAX)).bits, i32::MAX);
    assert_eq!(fx(3 * ONE).div(fx(2 * ONE)).bits, 98304);
    assert_eq!(fx(-5).rem_euclid(fx(TAU_B)).bits, TAU_B - 5);
}

#[test]
fn trig_matches_reference_sine() {
    assert_eq!(sin_fx(fx(0)).bits, 0);
    assert_eq!(sin_fx(fx(HALF_PI_B)).bits, 65536);
    assert_eq!(cos_fx(fx(0)).bits, 65536);
    assert_eq!(sin_fx(fx(PI_B + HALF_PI_B)).bits, -65536);
    for bits in [-131072, -65536, 32768, 65536, 131072, 300000, 500000] {
        let got = sin_fx(fx(bits)).bits as f64 / 65536.0;
        let want = (bits as f64 / 65536.0).sin();
        assert!((got - want).abs() < 0.01, "sin mismatch at {}", bits);
        let gotc = cos_fx(fx(bits)).bits as f64 / 65536.0;
        let wantc = (bits as f64 / 65536.0).cos();
        assert!((gotc - wantc).abs() < 0.01, "cos mismatch at {}", bits);
    }
}

#[test]
fn quaternion_identity_rotates_nothing() {
    let q = Quat::identity();
    let v = v3(3 * ONE, -2 * ONE, ONE / 2);
    let r = quat_rotate_vec3(q, v);
    assert_eq!((r.x.bits, r.y.bits, r.z.bits), (3 * ONE, -2 * ONE, ONE / 2));
    let m = quat_to_mat4(q);
    assert_eq!(m.m, Mat4::identity().m);
}

#[test]
fn quat_matrix_matches_axis_angle_rotation() {
    // A quarter turn about x carries +y to +z, through the quaternion
    // matrix and through the direct axis-angle matrix alike.
    let angle = fx(HALF_PI_B);
    let x_axis = v3(ONE, 0, 0);
    let q = quat_from_axis_angle(angle, x_axis);
    let mq = quat_to_mat4(q);
    let md = rotate(&Mat4::identity(), angle, x_axis);
    for i in 0..16 {
        let d = (mq.m[i].bits - md.m[i].bits).abs();
        assert!(d < 1500, "entry {} differs: {} vs {}", i, mq.m[i].bits, md.m[i].bits);
    }
    // Both are close to the exact quarter-turn matrix.
    let expect: [i32; 16] = [ONE, 0, 0, 0, 0, 0, ONE, 0, 0, -ONE, 0, 0, 0, 0, 0, ONE];
    for i in 0..16 {
        assert!((mq.m[i].bits - expect[i]).abs() < 1500, "entry {}", i);
    }
}

#[test]
fn scene_graph_world_transform_is_product_of_locals() {
    let mut g = SceneGraph::new();
    let root = g.add_node(SceneNode::new());
    let mut child = SceneNode::new();
    child.position = v3(2 * ONE, 0, 0);
    let child_idx = g.add_node(child);
    g.add_child(root, child_idx).unwrap();
    let mut grand = SceneNode::new();
    grand.position = v3(0, 3 * ONE, 0);
    let grand_idx = g.add_node(grand);
    g.add_child(child_idx, grand_idx).unwrap();

    g.update_node_transformations(&Mat4::identity());
    // Pure translations compose exactly: the world transform's translation
    // column is the sum along the root-to-leaf path.
    let w = g.nodes[grand_idx].current_transformation_matrix;
    assert_eq!((w.m[12].bits, w.m[13].bits, w.m[14].bits), (2 * ONE, 3 * ONE, 0));
    let wc = g.nodes[child_idx].current_transformation_matrix;
    assert_eq!((wc.m[12].bits, wc.m[13].bits, wc.m[14].bits), (2 * ONE, 0, 0));
}

#[test]
fn scene_graph_rejects_bad_links() {
    let mut g = SceneGraph::new();
    let a = g.add_node(SceneNode::new());
    let b = g.add_node(SceneNode::new());
    assert!(g.add_child(b, a).is_err()); // child before parent
    assert!(g.add_child(a, 5).is_err()); // out of range
    g.add_child(a, b).unwrap();
    let c = g.add_node(SceneNode::new());
    assert!(g.add_child(a, b).is_err()); // already attached
    g.add_child(b, c).unwrap();
}

#[test]
fn draw_plan_updates_every_instance_and_draws_each_store_once() {
    let store = simple_store(2);
    let h0 = store.create_geometric_instance(0).unwrap();
    let h1 = store.create_geometric_instance(1).unwrap();
    let mut g = SceneGraph::new();
    let root = g.add_node(SceneNode::new());
    let n0 = g.add_node(SceneNode::from_vao(h0));
    g.add_child(root, n0).unwrap();
    let n1 = g.add_node(SceneNode::from_vao(h1));
    g.add_child(root, n1).unwrap();
    g.update_node_transformations(&Mat4::identity());
    let plan = g.draw();
    assert_eq!(plan.updates.len(), 2);
    assert_eq!(plan.updates[0].byte_offset, 0);
    assert_eq!(plan.updates[1].byte_offset, 64);
    // Two nodes share one store: it is drawn once.
    assert_eq!(plan.draws.len(), 1);
    assert_eq!(plan.draws[0].vao_id, 41);
    assert_eq!(plan.draws[0].indices_count, 3);
    assert_eq!(plan.draws[0].instance_count, 2);
}

#[test]
fn update_instance_transform_never_perturbs_other_slots() {
    let mut store = simple_store(3);
    let before0 = store.transforms[0].m;
    let before2 = store.transforms[2].m;
    let m = translate(&Mat4::identity(), v3(5 * ONE, 0, 0));
    let up = store.update_transform(1, &m).expect("in range");
    assert_eq!(up.byte_offset, 64);
    assert_eq!(store.transforms[1].m, m.m);
    assert_eq!(store.transforms[0].m, before0);
    assert_eq!(store.transforms[2].m, before2);
    // An out-of-range update is an error and changes nothing.
    let r = store.update_transform(3, &m);
    assert_eq!(r.unwrap_err(), GeometryError::IndexOutOfRange);
    assert_eq!(store.transforms[1].m, m.m);
}

#[test]
fn instance_handle_creation_checks_capacity() {
    let store = simple_store(2);
    let h = store.create_geometric_instance(1).expect("in range");
    assert_eq!(h.instance_index, 1);
    assert_eq!(h.vao_id, 41);
    assert_eq!(
        store.create_geometric_instance(2).unwrap_err(),
        GeometryError::IndexOutOfRange
    );
    assert_eq!(
        store.create_geometric_instance(100).unwrap_err(),
        GeometryError::IndexOutOfRange
    );
}

#[test]
fn store_init_validates_inputs() {
    let pair = VerticesAttributesPair::init(vec![0u32; 12], 5126).add_attribute(0, 0, 3, 0);
    let empty_pair = VerticesAttributesPair::init(Vec::new(), 5126);
    let indices: Vec<u32> = vec![0, 1, 2];
    let t = vec![Mat4::identity()];
    let err = GeometricObject::init(7, &vec![empty_pair], &indices, t.clone(), 1, vec![1, 2, 3])
        .unwrap_err();
    assert_eq!(err, GeometryError::EmptyVertexData);
    let err = GeometricObject::init(7, &vec![pair], &Vec::new(), t.clone(), 1, vec![1, 2, 3])
        .unwrap_err();
    assert_eq!(err, GeometryError::EmptyIndexData);
    let pair2 = VerticesAttributesPair::init(vec![0u32; 12], 5126).add_attribute(0, 0, 3, 0);
    let err = GeometricObject::init(7, &vec![pair2], &indices, Vec::new(), 1, vec![1, 2, 3])
        .unwrap_err();
    assert_eq!(err, GeometryError::ZeroInstanceCapacity);
}

#[test]
fn store_init_layout_plan_is_exact() {
    let pair = VerticesAttributesPair::init(vec![0u32; 24], 5126)
        .add_attribute(0, 0, 3, 0)
        .add_attribute(0, 2, 3, 3);
    let indices: Vec<u32> = vec![0, 1, 2];
    let t = vec![Mat4::identity(); 2];
    let (_store, plan) =
        GeometricObject::init(7, &vec![pair], &indices, t, 41, vec![51, 52, 53]).unwrap();
    // Two vertex attributes, then the four instance matrix columns.
    assert_eq!(plan.len(), 6);
    assert_eq!(plan[0].stride, 24); // six components of four bytes
    assert_eq!(plan[1].offset_bytes, 12);
    assert_eq!(plan[2].index, 3); // first free location after 0 and 2
    assert_eq!(plan[5].index, 6);
    assert_eq!(plan[2].divisor, 1);
    assert_eq!(plan[2].stride, 64);
    assert_eq!(plan[3].offset_bytes, 16);
}

#[test]
fn camera_requires_projection() {
    let r = CameraBuilder::init().build_and_attach_to_programs(vec![1]);
    assert!(matches!(r, Err(CameraBuildError::MissingProjection)));
}

fn test_camera() -> Camera {
    CameraBuilder::init()
        .projection(fx(ONE), fx(91750), fx(6554), fx(1000 * ONE))
        .translation(&v3(0, 0, 0))
        .move_speed(fx(14 * ONE))
        .turn_sensitivity(fx(ONE / 5))
        .build_and_attach_to_programs(vec![1, 2])
        .expect("projection was set")
}

#[test]
fn camera_zero_time_or_speed_never_moves() {
    let mut cam = test_camera();
    let before = cam.translation.m;
    cam.move_in_dir(VecDir::Forward, fx(0));
    assert_eq!(cam.translation.m, before);
    cam.move_speed = fx(0);
    cam.move_in_dir(VecDir::Left, fx(3 * ONE));
    assert_eq!(cam.translation.m, before);
}

#[test]
fn camera_moves_relative_to_facing() {
    let mut cam = test_camera();
    cam.move_speed = fx(ONE);
    let us = cam.move_in_dir(VecDir::Forward, fx(ONE));
    assert_eq!(us.len(), 2);
    let p = cam.position();
    // Facing straight ahead, forward is exactly one unit of positive z.
    assert_eq!((p.x.bits, p.y.bits, p.z.bits), (0, 0, ONE));
}

#[test]
fn camera_turn_wraps_angles_and_keeps_orientation() {
    let mut cam = test_camera();
    cam.turn_sensitivity = fx(ONE);
    cam.turn((fx(0), fx(40000)), fx(ONE));
    let m1 = quat_to_mat4(cam.orientation);
    let p1 = cam.pitch;

    // A second camera turned a whole extra turn of pitch: the stored pitch
    // stays within one turn and the produced matrix is identical.
    let mut cam2 = test_camera();
    cam2.turn_sensitivity = fx(ONE);
    cam2.turn((fx(0), fx(40000 + TAU_B)), fx(ONE));
    let m2 = quat_to_mat4(cam2.orientation);
    assert_eq!(cam2.pitch, p1);
    assert!(cam2.pitch.bits.abs() < TAU_B);
    assert!(cam2.yaw.bits.abs() < TAU_B);
    assert_eq!(m1.m, m2.m);
}

#[test]
fn camera_uniforms_cover_every_bound_program() {
    let cam = test_camera();
    let us = cam.assign_camera_uniform();
    assert_eq!(us.len(), 2);
    assert_eq!(us[0].program_id, 1);
    assert_eq!(us[1].program_id, 2);
    let ct = cam.camera_transform();
    assert_eq!(us[0].transform.m, ct.m);
    assert_eq!(us[1].transform.m, ct.m);
}

#[test]
fn heading_is_deterministic_and_periodic_shape() {
    let a = simple_heading_animation(fx(3 * ONE));
    let b = simple_heading_animation(fx(3 * ONE));
    assert_eq!(a, b);
    let c = simple_heading_animation(fx(0));
    assert_eq!(c.x.bits, 0);
    assert_eq!(c.yaw.bits, 0);
}

#[test]
fn helicopter_fleet_spawns_until_capacity() {
    let fleet_cap = 2usize;
    let body = simple_store(fleet_cap);
    let mainr = simple_store(fleet_cap);
    let tail = simple_store(fleet_cap);
    let door = simple_store(fleet_cap);
    let mut heli = MyHelicopter::init(body, mainr, tail, door, fleet_cap);
    let mut g = SceneGraph::new();
    let h1 = heli.create_helicopter_node(fx(0), v3(0, 40 * ONE, 0), &mut g);
    assert!(h1.is_some());
    let h1 = h1.unwrap();
    assert_eq!(g.nodes.len(), 5);
    assert_eq!(g.nodes[h1.body_node].parent, Some(h1.root_node));
    assert_eq!(g.nodes[h1.tail_rotor_node].reference_point.x.bits, 22938);
    let h2 = heli.create_helicopter_node(fx(ONE), v3(10 * ONE, 40 * ONE, 0), &mut g);
    assert!(h2.is_some());
    assert!(heli.create_helicopter_node(fx(0), v3(0, 0, 0), &mut g).is_none());

    // Advancing a helicopter spins its rotors and moves its root.
    let mut h1 = h1;
    h1.update(&mut g, fx(ONE / 60), fx(2 * ONE));
    assert!(g.nodes[h1.main_rotor_node].rotation.y.bits != 0);
    assert!(g.nodes[h1.tail_rotor_node].rotation.x.bits != 0);
    assert_eq!(g.nodes[h1.body_node].rotation.y, h1.heading.yaw);
}
