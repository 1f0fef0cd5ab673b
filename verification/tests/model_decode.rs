use quake_rs::error::FormatError;
use quake_rs::model::{Keyframe, Mdl, Skin};

fn push_i32(b: &mut Vec<u8>, v: i32) {
    b.extend_from_slice(&v.to_le_bytes());
}

fn push_f32(b: &mut Vec<u8>, v: f32) {
    b.extend_from_slice(&v.to_le_bytes());
}

/// A model header with the given counts, unit scale and zero origin.
fn header(num_skins: i32, w: i32, h: i32, nv: i32, nt: i32, nf: i32) -> Vec<u8> {
    let mut b = Vec::new();
    push_i32(&mut b, 0x4f504449); // "IDPO"
    push_i32(&mut b, 6);
    for _ in 0..3 {
        push_f32(&mut b, 1.0); // scale
    }
    for _ in 0..3 {
        push_f32(&mut b, 0.0); // origin
    }
    push_f32(&mut b, 0.0); // bounding radius
    for _ in 0..3 {
        push_f32(&mut b, 0.0); // eye position
    }
    push_i32(&mut b, num_skins);
    push_i32(&mut b, w);
    push_i32(&mut b, h);
    push_i32(&mut b, nv);
    push_i32(&mut b, nt);
    push_i32(&mut b, nf);
    push_i32(&mut b, 0); // sync type
    push_i32(&mut b, 0); // flags
    push_f32(&mut b, 0.0); // size
    b
}

/// One static keyframe: tag, quantized bounds with padding, a 16-byte
/// label, then one packed position (plus padding) per vertex.
fn push_static_keyframe(b: &mut Vec<u8>, name: &[u8], verts: &[[u8; 3]]) {
    push_i32(b, 0);
    b.extend_from_slice(&[0, 0, 0, 0]); // min + pad
    b.extend_from_slice(&[255, 255, 255, 0]); // max + pad
    let mut label = [0u8; 16];
    label[..name.len()].copy_from_slice(name);
    b.extend_from_slice(&label);
    for v in verts {
        b.extend_from_slice(v);
        b.push(0); // padding byte
    }
}

/// The model of the small-scenario tests: one 2x2 static skin, three
/// vertices, one front-facing triangle, one static keyframe.
fn small_model() -> Vec<u8> {
    let mut b = header(1, 2, 2, 3, 1, 1);
    // one static skin: tag then 2*2 palette indices
    push_i32(&mut b, 0);
    b.extend_from_slice(&[9, 8, 7, 6]);
    // three skin coordinates: (seam tag, s, t)
    for (seam, s, t) in [(0i32, 0i32, 0i32), (0, 1, 0), (0x20, 1, 1)] {
        push_i32(&mut b, seam);
        push_i32(&mut b, s);
        push_i32(&mut b, t);
    }
    // one triangle: faces-front, indices 0 1 2
    push_i32(&mut b, 1);
    push_i32(&mut b, 0);
    push_i32(&mut b, 1);
    push_i32(&mut b, 2);
    // one static keyframe
    push_static_keyframe(&mut b, b"stand1", &[[0, 0, 0], [10, 0, 0], [0, 10, 0]]);
    b
}

#[test]
fn small_model_decodes() {
    let mdl = Mdl::deserialize(&small_model()).unwrap();
    assert_eq!(mdl.skin_width, 2);
    assert_eq!(mdl.skin_height, 2);
    assert_eq!(mdl.num_verts, 3);
    assert_eq!(mdl.skins.len(), 1);
    assert_eq!(mdl.keyframes.len(), 1);
    match &mdl.skins[0] {
        Skin::Static(s) => assert_eq!(s.0, vec![9, 8, 7, 6]),
        Skin::Animated(_) => panic!("expected a static skin"),
    }
    match &mdl.keyframes[0] {
        Keyframe::Static(kf) => {
            assert_eq!(kf.0.name, b"stand1".to_vec());
            assert_eq!(kf.0.vertices.len(), 3);
            assert_eq!(kf.0.vertices[1].x, 10);
        }
        Keyframe::Animated(_) => panic!("expected a static keyframe"),
    }
}

#[test]
fn indices_flatten_triangles_in_order() {
    let mdl = Mdl::deserialize(&small_model()).unwrap();
    assert_eq!(mdl.indices(), vec![0, 1, 2]);
}

#[test]
fn vertices_share_one_flat_normal() {
    let mdl = Mdl::deserialize(&small_model()).unwrap();
    let frame = match &mdl.keyframes[0] {
        Keyframe::Static(kf) => &kf.0,
        Keyframe::Animated(_) => panic!("expected a static keyframe"),
    };
    let verts = mdl.vertices(frame);
    assert_eq!(verts.len(), 3);
    assert_eq!(verts[0].normal, verts[1].normal);
    assert_eq!(verts[1].normal, verts[2].normal);
    assert_eq!(verts[0].position, frame.vertices[0]);
    assert_eq!(verts[1].position, frame.vertices[1]);
    assert_eq!(verts[2].position, frame.vertices[2]);
}

#[test]
fn bad_signature_is_rejected() {
    let mut b = small_model();
    b[0] = b'X';
    assert_eq!(Mdl::deserialize(&b).unwrap_err(), FormatError::BadSignature);
}

#[test]
fn unsupported_version_is_rejected() {
    let mut b = small_model();
    b[4] = 7;
    assert_eq!(
        Mdl::deserialize(&b).unwrap_err(),
        FormatError::UnsupportedVersion
    );
}

#[test]
fn truncated_buffer_is_rejected_not_panicking() {
    let whole = small_model();
    for cut in [2, 6, 50, 90, whole.len() - 3] {
        let mut b = whole.clone();
        b.truncate(cut);
        let err = Mdl::deserialize(&b).unwrap_err();
        assert!(
            err == FormatError::MalformedRecord || err == FormatError::BadSignature,
            "cut at {cut} gave {err:?}"
        );
    }
}

#[test]
fn unknown_skin_tag_is_rejected() {
    let mut b = header(1, 2, 2, 0, 0, 0);
    push_i32(&mut b, 3); // neither static nor animated
    b.extend_from_slice(&[0; 4]);
    assert_eq!(Mdl::deserialize(&b).unwrap_err(), FormatError::UnknownVariant);
}

#[test]
fn unknown_keyframe_tag_is_rejected() {
    let mut b = header(0, 0, 0, 0, 0, 1);
    push_i32(&mut b, 2);
    assert_eq!(Mdl::deserialize(&b).unwrap_err(), FormatError::UnknownVariant);
}

#[test]
fn triangle_index_out_of_range_is_rejected() {
    let mut b = header(0, 0, 0, 1, 1, 0);
    // one skin coordinate
    push_i32(&mut b, 0);
    push_i32(&mut b, 0);
    push_i32(&mut b, 0);
    // triangle referencing vertex 5 of 1
    push_i32(&mut b, 1);
    push_i32(&mut b, 0);
    push_i32(&mut b, 5);
    push_i32(&mut b, 0);
    assert_eq!(
        Mdl::deserialize(&b).unwrap_err(),
        FormatError::MalformedRecord
    );
}

#[test]
fn animated_skin_durations_become_micros() {
    let mut b = header(1, 1, 1, 0, 0, 0);
    // animated skin: tag 1, count as a binary32 word, durations, images
    push_i32(&mut b, 1);
    push_f32(&mut b, 2.0); // two images
    push_f32(&mut b, 0.1);
    push_f32(&mut b, 0.2);
    b.push(11);
    b.push(22);
    let mdl = Mdl::deserialize(&b).unwrap();
    match &mdl.skins[0] {
        Skin::Animated(a) => {
            assert_eq!(a.0.len(), 2);
            assert_eq!(a.0[0].duration_micros, 100_000);
            assert_eq!(a.0[1].duration_micros, 200_000);
            assert_eq!(a.0[0].indices, vec![11]);
            assert_eq!(a.0[1].indices, vec![22]);
        }
        Skin::Static(_) => panic!("expected an animated skin"),
    }
}

#[test]
fn animated_skin_with_zero_images_is_rejected() {
    let mut b = header(1, 1, 1, 0, 0, 0);
    push_i32(&mut b, 1);
    push_f32(&mut b, 0.0);
    assert_eq!(
        Mdl::deserialize(&b).unwrap_err(),
        FormatError::MalformedRecord
    );
}

#[test]
fn negative_count_is_rejected() {
    let b = header(0, 0, 0, -1, 0, 0);
    assert_eq!(
        Mdl::deserialize(&b).unwrap_err(),
        FormatError::MalformedRecord
    );
}

#[test]
fn animated_keyframe_decodes_subframes() {
    let mut b = header(0, 0, 0, 1, 0, 1);
    // one skin coordinate for the single vertex
    push_i32(&mut b, 0);
    push_i32(&mut b, 0);
    push_i32(&mut b, 0);
    // animated keyframe: tag, count, min+pad, max+pad, durations, poses
    push_i32(&mut b, 1);
    push_i32(&mut b, 2);
    b.extend_from_slice(&[0, 0, 0, 0]);
    b.extend_from_slice(&[9, 9, 9, 0]);
    push_f32(&mut b, 0.1);
    push_f32(&mut b, 0.2);
    let mut label_a = [0u8; 16];
    label_a[..5].copy_from_slice(b"walk1");
    let mut label_b = [0u8; 16];
    label_b[..5].copy_from_slice(b"walk2");
    // pose a
    b.extend_from_slice(&[0, 0, 0, 0]);
    b.extend_from_slice(&[1, 1, 1, 0]);
    b.extend_from_slice(&label_a);
    b.extend_from_slice(&[5, 5, 5, 0]);
    // pose b
    b.extend_from_slice(&[0, 0, 0, 0]);
    b.extend_from_slice(&[2, 2, 2, 0]);
    b.extend_from_slice(&label_b);
    b.extend_from_slice(&[6, 6, 6, 0]);
    let mdl = Mdl::deserialize(&b).unwrap();
    match &mdl.keyframes[0] {
        Keyframe::Animated(kf) => {
            assert_eq!(kf.subframes.len(), 2);
            assert_eq!(kf.subframes[0].duration_micros, 100_000);
            assert_eq!(kf.subframes[0].frame.name, b"walk1".to_vec());
            assert_eq!(kf.subframes[1].frame.vertices[0].x, 6);
        }
        Keyframe::Static(_) => panic!("expected an animated keyframe"),
    }
}

#[test]
fn load_resolves_names_through_the_store() {
    let model = small_model();
    let palette = vec![0u8; 768];
    let mut pak = Vec::new();
    pak.extend_from_slice(b"PACK");
    let dir_offset = (12 + 768 + model.len()) as i32;
    pak.extend_from_slice(&dir_offset.to_le_bytes());
    pak.extend_from_slice(&(2i32 * 64).to_le_bytes());
    pak.extend_from_slice(&palette);
    pak.extend_from_slice(&model);
    let mut rec = [0u8; 64];
    rec[..15].copy_from_slice(b"gfx/palette.lmp");
    rec[56..60].copy_from_slice(&12i32.to_le_bytes());
    rec[60..64].copy_from_slice(&768i32.to_le_bytes());
    pak.extend_from_slice(&rec);
    let mut rec = [0u8; 64];
    rec[..16].copy_from_slice(b"progs/knight.mdl");
    rec[56..60].copy_from_slice(&(12i32 + 768).to_le_bytes());
    rec[60..64].copy_from_slice(&(model.len() as i32).to_le_bytes());
    pak.extend_from_slice(&rec);
    let store = quake_rs::resource::init(pak).unwrap();
    let mdl = Mdl::load(&store, b"progs/knight.mdl").unwrap();
    assert_eq!(mdl.num_verts, 3);
    assert_eq!(
        Mdl::load(&store, b"progs/other.mdl").unwrap_err(),
        FormatError::NotFound
    );
}
