use quake_rs::error::FormatError;
use quake_rs::level::{Bsp, SectionId};
use quake_rs::model::{Keyframe, Mdl};

fn push_i32(b: &mut Vec<u8>, v: i32) {
    b.extend_from_slice(&v.to_le_bytes());
}

fn push_f32(b: &mut Vec<u8>, v: f32) {
    b.extend_from_slice(&v.to_le_bytes());
}

/// A model with four vertices (vertex 1 on the seam) and two triangles
/// sharing that vertex, one facing front and one not.
fn seam_model() -> Mdl {
    let mut b = Vec::new();
    push_i32(&mut b, 0x4f504449);
    push_i32(&mut b, 6);
    for _ in 0..3 {
        push_f32(&mut b, 1.0);
    }
    for _ in 0..3 {
        push_f32(&mut b, 0.0);
    }
    push_f32(&mut b, 0.0);
    for _ in 0..3 {
        push_f32(&mut b, 0.0);
    }
    push_i32(&mut b, 0); // skins
    push_i32(&mut b, 8); // width
    push_i32(&mut b, 4); // height
    push_i32(&mut b, 4); // vertices
    push_i32(&mut b, 2); // triangles
    push_i32(&mut b, 1); // keyframes
    push_i32(&mut b, 0);
    push_i32(&mut b, 0);
    push_f32(&mut b, 0.0);
    // skin coordinates: vertex 1 carries the on-seam sentinel, s = 3, t = 2
    for (seam, s, t) in [(0i32, 0i32, 0i32), (0x20, 3, 2), (0, 1, 1), (0, 2, 0)] {
        push_i32(&mut b, seam);
        push_i32(&mut b, s);
        push_i32(&mut b, t);
    }
    // triangle 0 faces front, triangle 1 does not; both use vertex 1
    push_i32(&mut b, 1);
    push_i32(&mut b, 0);
    push_i32(&mut b, 1);
    push_i32(&mut b, 2);
    push_i32(&mut b, 0);
    push_i32(&mut b, 3);
    push_i32(&mut b, 1);
    push_i32(&mut b, 2);
    // one static keyframe
    push_i32(&mut b, 0);
    b.extend_from_slice(&[0, 0, 0, 0]);
    b.extend_from_slice(&[9, 9, 9, 0]);
    b.extend_from_slice(&[0u8; 16]);
    for v in [[0u8, 0, 0], [4, 0, 0], [0, 4, 0], [4, 4, 0]] {
        b.extend_from_slice(&v);
        b.push(0);
    }
    Mdl::deserialize(&b).unwrap()
}

#[test]
fn seam_correction_only_on_back_facing_triangles() {
    let mdl = seam_model();
    let frame = match &mdl.keyframes[0] {
        Keyframe::Static(kf) => &kf.0,
        Keyframe::Animated(_) => panic!("expected a static keyframe"),
    };
    let verts = mdl.vertices(frame);
    assert_eq!(verts.len(), 6);
    // Vertex 1 is corner 1 of the front-facing triangle 0 and corner 1 of
    // the back-facing triangle 1. With s = 3 and width 8 the numerators
    // over the common denominator 16 are 2*3+1 = 7 (no correction) and
    // 2*3+8+1 = 15 (the half-width offset).
    let front_corner = verts[1];
    let back_corner = verts[4];
    assert_eq!(front_corner.s_den, 16);
    assert_eq!(front_corner.s_num, 7);
    assert_eq!(back_corner.s_num, 15);
    assert_eq!(back_corner.s_num - front_corner.s_num, 8);
    // t is never seam-corrected: 2*2+1 = 5 over 8 for both.
    assert_eq!(front_corner.t_num, 5);
    assert_eq!(back_corner.t_num, 5);
    assert_eq!(front_corner.t_den, 8);
    // An off-seam vertex of the back-facing triangle gets no offset.
    assert_eq!(verts[5].s_num, 2 * 1 + 1);
}

fn level_bytes() -> Vec<u8> {
    let mut b = Vec::new();
    push_i32(&mut b, 29);
    for i in 0..15 {
        push_i32(&mut b, 100 + i);
        push_i32(&mut b, 10 * i);
    }
    b
}

#[test]
fn level_directory_decodes_fifteen_sections() {
    let bsp = Bsp::deserialize(&level_bytes()).unwrap();
    assert_eq!(bsp.sections.len(), 15);
    let vertices = bsp.section(SectionId::Vertices);
    assert_eq!(vertices.offset, 103);
    assert_eq!(vertices.size, 30);
    let models = bsp.section(SectionId::Models);
    assert_eq!(models.offset, 114);
    assert_eq!(models.size, 140);
}

#[test]
fn level_version_mismatch_is_rejected() {
    let mut b = level_bytes();
    b[0] = 30;
    assert_eq!(
        Bsp::deserialize(&b).unwrap_err(),
        FormatError::UnsupportedVersion
    );
}

#[test]
fn truncated_level_directory_is_rejected() {
    let mut b = level_bytes();
    b.truncate(60);
    assert_eq!(
        Bsp::deserialize(&b).unwrap_err(),
        FormatError::MalformedRecord
    );
}

#[test]
fn section_ids_are_in_directory_order() {
    assert_eq!(SectionId::Entities.int_value(), 0);
    assert_eq!(SectionId::Textures.int_value(), 2);
    assert_eq!(SectionId::Faces.int_value(), 7);
    assert_eq!(SectionId::Models.int_value(), 14);
}

#[test]
fn level_loads_by_name_from_the_store() {
    let level = level_bytes();
    let palette = vec![0u8; 768];
    let mut pak = Vec::new();
    pak.extend_from_slice(b"PACK");
    pak.extend_from_slice(&((12 + 768 + level.len()) as i32).to_le_bytes());
    pak.extend_from_slice(&(2i32 * 64).to_le_bytes());
    pak.extend_from_slice(&palette);
    pak.extend_from_slice(&level);
    let mut rec = [0u8; 64];
    rec[..15].copy_from_slice(b"gfx/palette.lmp");
    rec[56..60].copy_from_slice(&12i32.to_le_bytes());
    rec[60..64].copy_from_slice(&768i32.to_le_bytes());
    pak.extend_from_slice(&rec);
    let mut rec = [0u8; 64];
    rec[..10].copy_from_slice(b"maps/e1m1.");
    rec[56..60].copy_from_slice(&(12i32 + 768).to_le_bytes());
    rec[60..64].copy_from_slice(&(level.len() as i32).to_le_bytes());
    pak.extend_from_slice(&rec);
    let store = quake_rs::resource::init(pak).unwrap();
    let bsp = Bsp::load(&store, b"maps/e1m1.").unwrap();
    assert_eq!(bsp.sections.len(), 15);
    assert_eq!(
        Bsp::load(&store, b"maps/e1m2.").unwrap_err(),
        FormatError::NotFound
    );
}

#[test]
fn model_with_trailing_bytes_still_decodes() {
    let mdl = seam_model();
    assert_eq!(mdl.num_verts, 4);
}
