use quake_rs::animation::{Animation, KeyframeAnimationComponent, DEFAULT_POSE_MICROS};
use quake_rs::entity::{ComponentType, Entity};
use quake_rs::mesh::{FlatNormal, MeshVertex};
use quake_rs::model::{Mdl, QuantizedPos};

fn mv(x: u8) -> MeshVertex {
    MeshVertex {
        position: QuantizedPos { x, y: 0, z: 0 },
        normal: FlatNormal { x: 0, y: 0, z: 1 },
        s_num: 1,
        s_den: 2,
        t_num: 1,
        t_den: 2,
    }
}

#[test]
fn empty_animation_yields_nothing() {
    let a = Animation::new();
    assert!(a.animate(0).is_none());
}

#[test]
fn before_first_threshold_holds_first_snapshot() {
    let mut a = Animation::new();
    a.add_keyframe(vec![mv(0)], 100_000);
    a.add_keyframe(vec![mv(100)], 100_000);
    let out = a.animate(50_000).unwrap();
    assert_eq!(out.len(), 1);
    assert_eq!(out[0].x_num, 0);
    assert_eq!(out[0].den, 1);
}

#[test]
fn interpolation_is_exact_midway() {
    let mut a = Animation::new();
    a.add_keyframe(vec![mv(0)], 100_000);
    a.add_keyframe(vec![mv(100)], 100_000);
    // Phase 150ms sits halfway through the second span: the position is
    // the exact rational (0 * 50000 + 100 * 50000) / 100000 = 50.
    let out = a.animate(150_000).unwrap();
    assert_eq!(out[0].den, 100_000);
    assert_eq!(out[0].x_num, 100 * 50_000);
    assert_eq!(out[0].x_num / out[0].den as u128, 50);
}

#[test]
fn interpolation_carries_static_attributes() {
    let mut a = Animation::new();
    let mut v0 = mv(10);
    v0.s_num = 7;
    v0.s_den = 16;
    a.add_keyframe(vec![v0], 100_000);
    a.add_keyframe(vec![mv(20)], 100_000);
    let out = a.animate(150_000).unwrap();
    assert_eq!(out[0].s_num, 7);
    assert_eq!(out[0].s_den, 16);
    assert_eq!(out[0].normal, FlatNormal { x: 0, y: 0, z: 1 });
}

#[test]
fn zero_period_holds_first_snapshot() {
    let mut a = Animation::new();
    a.add_keyframe(vec![mv(3)], 0);
    a.add_keyframe(vec![mv(9)], 0);
    let out = a.animate(12345).unwrap();
    assert_eq!(out[0].x_num, 3);
    assert_eq!(out[0].den, 1);
}

#[test]
fn playback_wraps_past_one_period() {
    let mut a = Animation::new();
    a.add_keyframe(vec![mv(0)], 100_000);
    a.add_keyframe(vec![mv(100)], 100_000);
    let mid = a.animate(150_000).unwrap();
    let wrapped = a.animate(150_000 + 200_000).unwrap();
    assert_eq!(mid, wrapped);
}

fn push_i32(b: &mut Vec<u8>, v: i32) {
    b.extend_from_slice(&v.to_le_bytes());
}

fn push_f32(b: &mut Vec<u8>, v: f32) {
    b.extend_from_slice(&v.to_le_bytes());
}

fn push_static_keyframe(b: &mut Vec<u8>, name: &[u8], verts: &[[u8; 3]]) {
    push_i32(b, 0);
    b.extend_from_slice(&[0, 0, 0, 0]);
    b.extend_from_slice(&[255, 255, 255, 0]);
    let mut label = [0u8; 16];
    label[..name.len()].copy_from_slice(name);
    b.extend_from_slice(&label);
    for v in verts {
        b.extend_from_slice(v);
        b.push(0);
    }
}

/// A model with one triangle and three static keyframes labeled
/// "stand1", "stand2" and "walk1".
fn clip_model() -> Mdl {
    let mut b = Vec::new();
    push_i32(&mut b, 0x4f504449);
    push_i32(&mut b, 6);
    for _ in 0..7 {
        push_f32(&mut b, 1.0); // scale, origin, radius
    }
    for _ in 0..3 {
        push_f32(&mut b, 0.0); // eye position
    }
    push_i32(&mut b, 0); // skins
    push_i32(&mut b, 4); // width
    push_i32(&mut b, 4); // height
    push_i32(&mut b, 3); // vertices
    push_i32(&mut b, 1); // triangles
    push_i32(&mut b, 3); // keyframes
    push_i32(&mut b, 0);
    push_i32(&mut b, 0);
    push_f32(&mut b, 0.0);
    for _ in 0..3 {
        push_i32(&mut b, 0);
        push_i32(&mut b, 0);
        push_i32(&mut b, 0);
    }
    push_i32(&mut b, 1);
    push_i32(&mut b, 0);
    push_i32(&mut b, 1);
    push_i32(&mut b, 2);
    push_static_keyframe(&mut b, b"stand1", &[[0, 0, 0], [1, 0, 0], [0, 1, 0]]);
    push_static_keyframe(&mut b, b"stand2", &[[0, 0, 9], [1, 0, 9], [0, 1, 9]]);
    push_static_keyframe(&mut b, b"walk1", &[[5, 5, 5], [6, 5, 5], [5, 6, 5]]);
    Mdl::deserialize(&b).unwrap()
}

#[test]
fn clips_group_by_stripped_label() {
    let mdl = clip_model();
    let comp = KeyframeAnimationComponent::from_mdl(&mdl);
    assert_eq!(comp.animations.len(), 2);
    assert_eq!(comp.animations[0].name, b"stand".to_vec());
    assert_eq!(comp.animations[0].animation.keyframes.len(), 2);
    assert_eq!(
        comp.animations[0].animation.keyframes[0].duration_micros,
        DEFAULT_POSE_MICROS
    );
    assert_eq!(comp.animations[1].name, b"walk".to_vec());
    assert_eq!(comp.animations[1].animation.keyframes.len(), 1);
    assert_eq!(comp.current_animation, Some(b"stand".to_vec()));
}

#[test]
fn component_animates_selected_clip() {
    let mdl = clip_model();
    let comp = KeyframeAnimationComponent::from_mdl(&mdl);
    let out = comp.animate(0).unwrap();
    assert_eq!(out.len(), 3); // one triangle, exploded
    // The first stand pose puts vertex 0 at quantized origin.
    assert_eq!(out[0].x_num, 0);
}

#[test]
fn selection_requires_an_existing_clip() {
    let mdl = clip_model();
    let mut comp = KeyframeAnimationComponent::from_mdl(&mdl);
    assert!(comp.select_animation(b"walk"));
    assert_eq!(comp.current_animation, Some(b"walk".to_vec()));
    assert!(!comp.select_animation(b"jump"));
    assert_eq!(comp.current_animation, Some(b"walk".to_vec()));
    let out = comp.animate(0).unwrap();
    assert_eq!(out[0].x_num, 5);
}

#[test]
fn unselected_component_animates_nothing() {
    let comp = KeyframeAnimationComponent::new();
    assert!(comp.animate(0).is_none());
}

#[test]
fn entity_slots_hold_the_animation_component() {
    let mut e = Entity::new();
    assert!(e.get_component().is_none());
    let comp = KeyframeAnimationComponent::from_mdl(&clip_model());
    e.add_component(comp);
    let held = e.get_component().unwrap();
    assert_eq!(held.animations.len(), 2);
}

#[test]
fn component_type_tags_are_distinct() {
    let tags = [
        ComponentType::Transform.get_type_id(),
        ComponentType::Mesh.get_type_id(),
        ComponentType::Material.get_type_id(),
        ComponentType::KeyframeAnimation.get_type_id(),
    ];
    for i in 0..4 {
        for j in 0..4 {
            if i != j {
                assert_ne!(tags[i], tags[j]);
            }
        }
    }
}

#[test]
fn component_playback_wraps_like_the_selector() {
    let mdl = clip_model();
    let comp = KeyframeAnimationComponent::from_mdl(&mdl);
    // The stand clip holds two default-duration poses: one full period is
    // 200ms, so 250ms lands where 50ms does.
    let early = comp.animate(50_000).unwrap();
    let wrapped = comp.animate(250_000).unwrap();
    assert_eq!(early, wrapped);
}

#[test]
fn stripping_applies_to_digit_suffixes_only() {
    let mdl = clip_model();
    let comp = KeyframeAnimationComponent::from_mdl(&mdl);
    // "stand1" and "stand2" fold into one clip; "walk1" stays separate.
    let names: Vec<&[u8]> = comp
        .animations
        .iter()
        .map(|c| c.name.as_slice())
        .collect();
    assert_eq!(names, vec![b"stand".as_slice(), b"walk".as_slice()]);
}
