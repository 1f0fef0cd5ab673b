use quake_rs::binary32::{secs_bits_to_micros, whole_from_bits};
use quake_rs::model::{
    AnimatedKeyframe, AnimatedKeyframeFrame, AnimatedSkin, AnimatedSkinFrame, Frame, Keyframe,
    QuantizedPos, Skin, StaticKeyframe, StaticSkin,
};
use quake_rs::timing::select_timed;

fn qp(x: u8, y: u8, z: u8) -> QuantizedPos {
    QuantizedPos { x, y, z }
}

fn frame(name: &[u8]) -> Frame {
    Frame {
        name: name.to_vec(),
        min: qp(0, 0, 0),
        max: qp(0, 0, 0),
        vertices: Vec::new(),
    }
}

#[test]
fn static_keyframe_resolves_for_any_time() {
    let kf = Keyframe::Static(StaticKeyframe(frame(b"idle")));
    for t in [0u64, 1, 1_000_000, u64::MAX] {
        assert_eq!(kf.frame(t).name, b"idle".to_vec());
    }
}

#[test]
fn two_span_selection_and_wraparound() {
    // Spans of 100ms and 200ms: 50ms falls in span 0, 250ms in span 1, and
    // 350ms wraps a full 300ms period back into span 0.
    let kf = Keyframe::Animated(AnimatedKeyframe {
        min: qp(0, 0, 0),
        max: qp(0, 0, 0),
        subframes: vec![
            AnimatedKeyframeFrame {
                duration_micros: 100_000,
                frame: frame(b"first"),
            },
            AnimatedKeyframeFrame {
                duration_micros: 200_000,
                frame: frame(b"second"),
            },
        ],
    });
    assert_eq!(kf.frame(50_000).name, b"first".to_vec());
    assert_eq!(kf.frame(250_000).name, b"second".to_vec());
    assert_eq!(kf.frame(350_000).name, b"first".to_vec());
}

#[test]
fn select_timed_covers_phase() {
    let ds: Vec<u64> = vec![100_000, 200_000];
    assert_eq!(select_timed(&ds, 0), 0);
    assert_eq!(select_timed(&ds, 99_999), 0);
    assert_eq!(select_timed(&ds, 100_000), 1);
    assert_eq!(select_timed(&ds, 299_999), 1);
    assert_eq!(select_timed(&ds, 300_000), 0);
    assert_eq!(select_timed(&ds, 650_000), 0);
}

#[test]
fn single_entry_always_selected() {
    let ds: Vec<u64> = vec![0];
    assert_eq!(select_timed(&ds, 0), 0);
    assert_eq!(select_timed(&ds, u64::MAX), 0);
    let ds: Vec<u64> = vec![70_000];
    assert_eq!(select_timed(&ds, u64::MAX), 0);
}

#[test]
fn static_skin_always_shows_its_image() {
    let skin = Skin::Static(StaticSkin(vec![1, 2, 3, 4]));
    assert_eq!(skin.indices(0), vec![1, 2, 3, 4]);
    assert_eq!(skin.indices(u64::MAX), vec![1, 2, 3, 4]);
}

#[test]
fn animated_skin_selects_by_phase() {
    let skin = Skin::Animated(AnimatedSkin(vec![
        AnimatedSkinFrame {
            duration_micros: 100_000,
            indices: vec![10],
        },
        AnimatedSkinFrame {
            duration_micros: 200_000,
            indices: vec![20],
        },
    ]));
    assert_eq!(skin.indices(50_000), vec![10]);
    assert_eq!(skin.indices(250_000), vec![20]);
    assert_eq!(skin.indices(350_000), vec![10]);
}

#[test]
fn seconds_words_become_whole_micros() {
    assert_eq!(secs_bits_to_micros(1.0f32.to_bits()), 1_000_000);
    assert_eq!(secs_bits_to_micros(0.1f32.to_bits()), 100_000);
    assert_eq!(secs_bits_to_micros(0.2f32.to_bits()), 200_000);
    assert_eq!(secs_bits_to_micros(0.0f32.to_bits()), 0);
    assert_eq!(secs_bits_to_micros(2.5f32.to_bits()), 2_500_000);
    assert_eq!(secs_bits_to_micros((-1.0f32).to_bits()), 0);
    assert_eq!(secs_bits_to_micros(f32::NAN.to_bits()), 0);
    assert_eq!(secs_bits_to_micros(f32::INFINITY.to_bits()), u64::MAX);
}

#[test]
fn binary32_whole_part() {
    assert_eq!(whole_from_bits(2.0f32.to_bits()), 2);
    assert_eq!(whole_from_bits(2.9f32.to_bits()), 2);
    assert_eq!(whole_from_bits(0.0f32.to_bits()), 0);
    assert_eq!(whole_from_bits(255.0f32.to_bits()), 255);
    assert_eq!(whole_from_bits((-3.0f32).to_bits()), 0);
    assert_eq!(whole_from_bits(16_777_216.0f32.to_bits()), 16_777_216);
}
