use crate::binary32::{micros_of_bits, whole_of_bits};
use crate::bytes::{copy_range, le32, le32_signed, nul_scan, read_le32, read_le32_signed};
use crate::error::FormatError;
use crate::resource::{dir_lookup, AssetStore};
use crate::timing::{select_timed, selected_index};
use vstd::arithmetic::mul::{lemma_mul_inequality, lemma_mul_upper_bound};
use vstd::prelude::*;

verus! {

// The animated-model container. Little-endian fields in fixed order: a
// signature and version, per-model scale/origin/radius/eye-position words,
// counts, then `num_skins` skin records, `num_verts` per-vertex skin
// coordinates, `num_tris` triangles, and `num_frames` keyframe records.
// Skins and keyframes share one tag convention: 0 selects a single static
// payload, 1 a timed sequence of payloads.
//
// Vertex positions are quantized: one byte per axis, reconstructed by the
// renderer as `byte * scale[axis] + origin[axis]`. The decoder keeps the
// bytes and carries the scale and origin as raw binary32 words, so every
// decoded quantity is a plain integer. Stored seconds become whole
// microseconds (see `binary32`).

/// A vertex position in quantized wire form: one byte per axis. Each stored
/// position occupies four bytes, the fourth a padding byte that is consumed
/// but carries no coordinate.
#[derive(Clone, Copy, Debug, PartialEq, Eq, Structural)]
pub struct QuantizedPos {
    pub x: u8,
    pub y: u8,
    pub z: u8,
}

/// Three raw binary32 words, little-endian, holding a per-model vector such
/// as the de-quantization scale or origin.
#[derive(Clone, Copy, Debug, PartialEq, Eq, Structural)]
pub struct RawVec3 {
    pub x_bits: u32,
    pub y_bits: u32,
    pub z_bits: u32,
}

/// One per-vertex skin coordinate record: an on-seam flag and signed texel
/// coordinates.
#[derive(Clone, Copy, Debug, PartialEq, Eq, Structural)]
pub struct SkinCoord {
    pub is_on_seam: bool,
    pub s: i32,
    pub t: i32,
}

/// One triangle: a faces-front flag and three vertex indices.
#[derive(Clone, Copy, Debug, PartialEq, Eq, Structural)]
pub struct Triangle {
    pub faces_front: bool,
    pub v0: u32,
    pub v1: u32,
    pub v2: u32,
}

/// A single static skin image: one palette index per texel.
#[derive(Debug)]
pub struct StaticSkin(pub Vec<u8>);

/// One timed image of an animated skin.
#[derive(Debug)]
pub struct AnimatedSkinFrame {
    pub duration_micros: u64,
    pub indices: Vec<u8>,
}

/// An animated skin: an ordered, non-empty list of timed images.
#[derive(Debug)]
pub struct AnimatedSkin(pub Vec<AnimatedSkinFrame>);

/// A skin record: static or animated, selected by the leading type tag.
#[derive(Debug)]
pub enum Skin {
    Static(StaticSkin),
    Animated(AnimatedSkin),
}

/// One pose: a label, quantized bounds, and one quantized position per
/// model vertex.
#[derive(Debug)]
pub struct Frame {
    pub name: Vec<u8>,
    pub min: QuantizedPos,
    pub max: QuantizedPos,
    pub vertices: Vec<QuantizedPos>,
}

/// A keyframe holding a single static pose.
#[derive(Debug)]
pub struct StaticKeyframe(pub Frame);

/// One timed pose of an animated keyframe.
#[derive(Debug)]
pub struct AnimatedKeyframeFrame {
    pub duration_micros: u64,
    pub frame: Frame,
}

/// An animated keyframe: quantized bounds and an ordered, non-empty list of
/// timed poses.
#[derive(Debug)]
pub struct AnimatedKeyframe {
    pub min: QuantizedPos,
    pub max: QuantizedPos,
    pub subframes: Vec<AnimatedKeyframeFrame>,
}

/// A keyframe record: static or animated, same tag convention as skins.
#[derive(Debug)]
pub enum Keyframe {
    Static(StaticKeyframe),
    Animated(AnimatedKeyframe),
}

/// A decoded model asset. Immutable after decoding.
#[derive(Debug)]
pub struct Mdl {
    pub skins: Vec<Skin>,
    pub skin_width: u32,
    pub skin_height: u32,
    pub num_verts: u32,
    pub keyframes: Vec<Keyframe>,
    pub skin_coords: Vec<SkinCoord>,
    pub triangles: Vec<Triangle>,
    pub scale: RawVec3,
    pub origin: RawVec3,
}

// ---------------------------------------------------------------------------
// Mathematical views.

/// The mathematical form of one timed skin image.
pub struct SpecSkinFrame {
    pub duration_micros: u64,
    pub indices: Seq<u8>,
}

/// The mathematical form of a skin record.
pub enum SpecSkin {
    Static(Seq<u8>),
    Animated(Seq<SpecSkinFrame>),
}

/// The mathematical form of a pose.
pub struct SpecFrame {
    pub name: Seq<u8>,
    pub min: QuantizedPos,
    pub max: QuantizedPos,
    pub vertices: Seq<QuantizedPos>,
}

/// The mathematical form of one timed pose.
pub struct SpecKeyframeFrame {
    pub duration_micros: u64,
    pub frame: SpecFrame,
}

/// The mathematical form of a keyframe record.
pub enum SpecKeyframe {
    Static(SpecFrame),
    Animated { min: QuantizedPos, max: QuantizedPos, subframes: Seq<SpecKeyframeFrame> },
}

/// The mathematical form of a decoded model.
pub struct SpecMdl {
    pub skins: Seq<SpecSkin>,
    pub skin_width: u32,
    pub skin_height: u32,
    pub num_verts: u32,
    pub keyframes: Seq<SpecKeyframe>,
    pub skin_coords: Seq<SkinCoord>,
    pub triangles: Seq<Triangle>,
    pub scale: RawVec3,
    pub origin: RawVec3,
}

impl View for AnimatedSkinFrame {
    type V = SpecSkinFrame;

    open spec fn view(&self) -> SpecSkinFrame {
        SpecSkinFrame { duration_micros: self.duration_micros, indices: self.indices@ }
    }
}

impl View for Skin {
    type V = SpecSkin;

    open spec fn view(&self) -> SpecSkin {
        match self {
            Skin::Static(s) => SpecSkin::Static(s.0@),
            Skin::Animated(s) => SpecSkin::Animated(
                s.0@.map_values(|f: AnimatedSkinFrame| f@),
            ),
        }
    }
}

impl View for Frame {
    type V = SpecFrame;

    open spec fn view(&self) -> SpecFrame {
        SpecFrame { name: self.name@, min: self.min, max: self.max, vertices: self.vertices@ }
    }
}

impl View for AnimatedKeyframeFrame {
    type V = SpecKeyframeFrame;

    open spec fn view(&self) -> SpecKeyframeFrame {
        SpecKeyframeFrame { duration_micros: self.duration_micros, frame: self.frame@ }
    }
}

impl View for Keyframe {
    type V = SpecKeyframe;

    open spec fn view(&self) -> SpecKeyframe {
        match self {
            Keyframe::Static(kf) => SpecKeyframe::Static(kf.0@),
            Keyframe::Animated(kf) => SpecKeyframe::Animated {
                min: kf.min,
                max: kf.max,
                subframes: kf.subframes@.map_values(|f: AnimatedKeyframeFrame| f@),
            },
        }
    }
}

impl View for Mdl {
    type V = SpecMdl;

    open spec fn view(&self) -> SpecMdl {
        SpecMdl {
            skins: self.skins@.map_values(|s: Skin| s@),
            skin_width: self.skin_width,
            skin_height: self.skin_height,
            num_verts: self.num_verts,
            keyframes: self.keyframes@.map_values(|k: Keyframe| k@),
            skin_coords: self.skin_coords@,
            triangles: self.triangles@,
            scale: self.scale,
            origin: self.origin,
        }
    }
}

// ---------------------------------------------------------------------------
// Well-formedness: what every decoded model guarantees its consumers.

/// A triangle's indices all address model vertices.
pub open spec fn triangle_ok(t: Triangle, nv: int) -> bool {
    t.v0 < nv && t.v1 < nv && t.v2 < nv
}

/// A skin holds images of exactly `size` texels; an animated list is
/// non-empty, so a time query always resolves to an image.
pub open spec fn skin_ok(s: SpecSkin, size: int) -> bool {
    match s {
        SpecSkin::Static(px) => px.len() == size,
        SpecSkin::Animated(fs) => fs.len() >= 1 && forall|i: int|
            0 <= i < fs.len() ==> (#[trigger] fs[i]).indices.len() == size,
    }
}

/// A keyframe's poses all carry one position per model vertex; an animated
/// list is non-empty.
pub open spec fn keyframe_ok(k: SpecKeyframe, nv: int) -> bool {
    match k {
        SpecKeyframe::Static(f) => f.vertices.len() == nv,
        SpecKeyframe::Animated { subframes, .. } => subframes.len() >= 1 && forall|i: int|
            0 <= i < subframes.len() ==> (#[trigger] subframes[i]).frame.vertices.len() == nv,
    }
}

impl SpecMdl {
    /// The structural invariant every decoded model satisfies.
    pub open spec fn wf(&self) -> bool {
        &&& self.skin_coords.len() == self.num_verts
        &&& forall|i: int|
            0 <= i < self.triangles.len() ==> triangle_ok(
                #[trigger] self.triangles[i],
                self.num_verts as int,
            )
        &&& forall|i: int|
            0 <= i < self.skins.len() ==> skin_ok(
                #[trigger] self.skins[i],
                self.skin_width as int * self.skin_height as int,
            )
        &&& forall|i: int|
            0 <= i < self.keyframes.len() ==> keyframe_ok(
                #[trigger] self.keyframes[i],
                self.num_verts as int,
            )
    }
}

impl Mdl {
    /// The structural invariant every decoded model satisfies.
    pub open spec fn wf(&self) -> bool {
        self@.wf()
    }
}


// ---------------------------------------------------------------------------
// The wire grammar, mathematically: one spec function per record kind.
// Decoding functions are proved to return exactly what these say, error
// kinds included.

/// The quantized position stored at `pos`: three axis bytes. Every stored
/// position is followed by one padding byte, which the size accounting
/// consumes.
pub open spec fn qpos_at(b: Seq<u8>, pos: int) -> QuantizedPos {
    QuantizedPos { x: b[pos], y: b[pos + 1], z: b[pos + 2] }
}

/// The 16-byte pose label at `pos`, truncated at its first NUL.
pub open spec fn frame_name_at(b: Seq<u8>, pos: int) -> Seq<u8> {
    b.subrange(pos, pos + nul_scan(b, pos, 0, 16))
}

/// The byte length of one stored pose for a model with `nv` vertices:
/// bounds (4 + 4), label (16), and four bytes per vertex.
pub open spec fn frame_size(nv: int) -> int {
    24 + 4 * nv
}

/// The pose stored at `pos`, for a model with `nv` vertices.
pub open spec fn frame_at(b: Seq<u8>, pos: int, nv: int) -> SpecFrame {
    SpecFrame {
        min: qpos_at(b, pos),
        max: qpos_at(b, pos + 4),
        name: frame_name_at(b, pos + 8),
        vertices: Seq::new(nv as nat, |i: int| qpos_at(b, pos + 24 + 4 * i)),
    }
}

/// Parses a static skin's image at `pos` (after the tag): `size` flat
/// palette-index bytes.
pub open spec fn parse_static_skin(b: Seq<u8>, pos: int, size: int) -> Result<
    (Seq<u8>, int),
    FormatError,
> {
    if pos + size > b.len() {
        Err(FormatError::MalformedRecord)
    } else {
        Ok((b.subrange(pos, pos + size), pos + size))
    }
}

/// Parses an animated skin at `pos` (after the tag): an image count stored
/// as a binary32 word and floored, the images' durations as binary32
/// seconds, then the images themselves. The count must be at least one, so
/// a time query always resolves.
pub open spec fn parse_animated_skin(b: Seq<u8>, pos: int, size: int) -> Result<
    (Seq<SpecSkinFrame>, int),
    FormatError,
> {
    if pos + 4 > b.len() {
        Err(FormatError::MalformedRecord)
    } else {
        let cnt = whole_of_bits(le32(b, pos) as u32) as int;
        if cnt < 1 {
            Err(FormatError::MalformedRecord)
        } else if pos + 4 + 4 * cnt + cnt * size > b.len() {
            Err(FormatError::MalformedRecord)
        } else {
            Ok(
                (
                    Seq::new(
                        cnt as nat,
                        |i: int|
                            SpecSkinFrame {
                                duration_micros: micros_of_bits(le32(b, pos + 4 + 4 * i) as u32),
                                indices: b.subrange(
                                    pos + 4 + 4 * cnt + i * size,
                                    pos + 4 + 4 * cnt + i * size + size,
                                ),
                            },
                    ),
                    pos + 4 + 4 * cnt + cnt * size,
                ),
            )
        }
    }
}

/// Parses the skin record at `pos` for images of `size` texels: a type tag
/// selecting the static or the animated form.
pub open spec fn parse_skin(b: Seq<u8>, pos: int, size: int) -> Result<
    (SpecSkin, int),
    FormatError,
> {
    if pos + 4 > b.len() {
        Err(FormatError::MalformedRecord)
    } else if le32(b, pos) == 0 {
        match parse_static_skin(b, pos + 4, size) {
            Err(e) => Err(e),
            Ok((px, p2)) => Ok((SpecSkin::Static(px), p2)),
        }
    } else if le32(b, pos) == 1 {
        match parse_animated_skin(b, pos + 4, size) {
            Err(e) => Err(e),
            Ok((fs, p2)) => Ok((SpecSkin::Animated(fs), p2)),
        }
    } else {
        Err(FormatError::UnknownVariant)
    }
}

/// Parses `n` consecutive skin records starting at `pos`.
pub open spec fn parse_skins(b: Seq<u8>, pos: int, n: int, size: int) -> Result<
    (Seq<SpecSkin>, int),
    FormatError,
>
    decreases n,
{
    if n <= 0 {
        Ok((Seq::empty(), pos))
    } else {
        match parse_skin(b, pos, size) {
            Err(e) => Err(e),
            Ok((s, p2)) => match parse_skins(b, p2, n - 1, size) {
                Err(e) => Err(e),
                Ok((rest, p3)) => Ok((seq![s] + rest, p3)),
            },
        }
    }
}

/// The skin coordinate record at `pos`: an on-seam tag (the sentinel 0x20
/// marks on-seam), then signed s and t texel coordinates.
pub open spec fn skincoord_at(b: Seq<u8>, pos: int) -> SkinCoord {
    SkinCoord {
        is_on_seam: le32(b, pos) == 0x20,
        s: le32_signed(b, pos + 4) as i32,
        t: le32_signed(b, pos + 8) as i32,
    }
}

/// Parses `n` consecutive 12-byte skin coordinate records at `pos`.
pub open spec fn parse_skincoords(b: Seq<u8>, pos: int, n: int) -> Result<
    (Seq<SkinCoord>, int),
    FormatError,
> {
    if pos + 12 * n > b.len() {
        Err(FormatError::MalformedRecord)
    } else {
        Ok((Seq::new(n as nat, |i: int| skincoord_at(b, pos + 12 * i)), pos + 12 * n))
    }
}

/// The triangle record at `pos`: a faces-front tag (1 means front), then
/// three vertex indices.
pub open spec fn triangle_at(b: Seq<u8>, pos: int) -> Triangle {
    Triangle {
        faces_front: le32(b, pos) == 1,
        v0: le32(b, pos + 4) as u32,
        v1: le32(b, pos + 8) as u32,
        v2: le32(b, pos + 12) as u32,
    }
}

/// Parses `n` consecutive 16-byte triangle records at `pos`; every index
/// must address one of the model's `nv` vertices.
pub open spec fn parse_triangles(b: Seq<u8>, pos: int, n: int, nv: int) -> Result<
    (Seq<Triangle>, int),
    FormatError,
> {
    if pos + 16 * n > b.len() {
        Err(FormatError::MalformedRecord)
    } else if !(forall|i: int| 0 <= i < n ==> triangle_ok(#[trigger] triangle_at(b, pos + 16 * i), nv)) {
        Err(FormatError::MalformedRecord)
    } else {
        Ok((Seq::new(n as nat, |i: int| triangle_at(b, pos + 16 * i)), pos + 16 * n))
    }
}

/// Parses one pose at `pos`: quantized bounds (each with a padding byte),
/// the 16-byte label, then `nv` quantized positions, four bytes each.
pub open spec fn parse_frame(b: Seq<u8>, pos: int, nv: int) -> Result<
    (SpecFrame, int),
    FormatError,
> {
    if pos + frame_size(nv) > b.len() {
        Err(FormatError::MalformedRecord)
    } else {
        Ok((frame_at(b, pos, nv), pos + frame_size(nv)))
    }
}

/// Parses an animated keyframe at `pos` (after the tag): a pose count,
/// quantized bounds, the poses' durations as binary32 seconds, then the
/// poses. The count must be at least one, so a time query always resolves.
pub open spec fn parse_animated_keyframe(b: Seq<u8>, pos: int, nv: int) -> Result<
    ((QuantizedPos, QuantizedPos, Seq<SpecKeyframeFrame>), int),
    FormatError,
> {
    if pos + 12 > b.len() {
        Err(FormatError::MalformedRecord)
    } else {
        let cnt = le32_signed(b, pos);
        if cnt < 1 {
            Err(FormatError::MalformedRecord)
        } else if pos + 12 + 4 * cnt + cnt * frame_size(nv) > b.len() {
            Err(FormatError::MalformedRecord)
        } else {
            Ok(
                (
                    (
                        qpos_at(b, pos + 4),
                        qpos_at(b, pos + 8),
                        Seq::new(
                            cnt as nat,
                            |i: int|
                                SpecKeyframeFrame {
                                    duration_micros: micros_of_bits(le32(b, pos + 12 + 4 * i) as u32),
                                    frame: frame_at(b, pos + 12 + 4 * cnt + i * frame_size(nv), nv),
                                },
                        ),
                    ),
                    pos + 12 + 4 * cnt + cnt * frame_size(nv),
                ),
            )
        }
    }
}

/// Parses the keyframe record at `pos`: a type tag selecting the static or
/// the animated form, with the same convention as skins.
pub open spec fn parse_keyframe(b: Seq<u8>, pos: int, nv: int) -> Result<
    (SpecKeyframe, int),
    FormatError,
> {
    if pos + 4 > b.len() {
        Err(FormatError::MalformedRecord)
    } else if le32(b, pos) == 0 {
        match parse_frame(b, pos + 4, nv) {
            Err(e) => Err(e),
            Ok((f, p2)) => Ok((SpecKeyframe::Static(f), p2)),
        }
    } else if le32(b, pos) == 1 {
        match parse_animated_keyframe(b, pos + 4, nv) {
            Err(e) => Err(e),
            Ok(((min, max, subframes), p2)) => Ok(
                (SpecKeyframe::Animated { min, max, subframes }, p2),
            ),
        }
    } else {
        Err(FormatError::UnknownVariant)
    }
}

/// Parses `n` consecutive keyframe records starting at `pos`.
pub open spec fn parse_keyframes(b: Seq<u8>, pos: int, n: int, nv: int) -> Result<
    (Seq<SpecKeyframe>, int),
    FormatError,
>
    decreases n,
{
    if n <= 0 {
        Ok((Seq::empty(), pos))
    } else {
        match parse_keyframe(b, pos, nv) {
            Err(e) => Err(e),
            Ok((k, p2)) => match parse_keyframes(b, p2, n - 1, nv) {
                Err(e) => Err(e),
                Ok((rest, p3)) => Ok((seq![k] + rest, p3)),
            },
        }
    }
}

/// The expected model signature, the bytes "IDPO" read little-endian.
pub open spec fn model_signature() -> int {
    0x4f504449
}

/// The model version this decoder supports.
pub open spec fn model_version() -> int {
    6
}

/// Parses a whole model buffer: signature, version, header words and
/// counts, then the four record sections in order. Fails fast with the
/// first error the wire data forces; no partial decode.
pub open spec fn parse_mdl(b: Seq<u8>) -> Result<SpecMdl, FormatError> {
    if b.len() < 4 {
        Err(FormatError::MalformedRecord)
    } else if le32(b, 0) != model_signature() {
        Err(FormatError::BadSignature)
    } else if b.len() < 8 {
        Err(FormatError::MalformedRecord)
    } else if le32_signed(b, 4) != model_version() {
        Err(FormatError::UnsupportedVersion)
    } else if b.len() < 84 {
        Err(FormatError::MalformedRecord)
    } else {
        let num_skins = le32_signed(b, 48);
        let w = le32_signed(b, 52);
        let h = le32_signed(b, 56);
        let nv = le32_signed(b, 60);
        let nt = le32_signed(b, 64);
        let nf = le32_signed(b, 68);
        if num_skins < 0 || w < 0 || h < 0 || nv < 0 || nt < 0 || nf < 0 {
            Err(FormatError::MalformedRecord)
        } else {
            match parse_skins(b, 84, num_skins, w * h) {
                Err(e) => Err(e),
                Ok((skins, p1)) => match parse_skincoords(b, p1, nv) {
                    Err(e) => Err(e),
                    Ok((coords, p2)) => match parse_triangles(b, p2, nt, nv) {
                        Err(e) => Err(e),
                        Ok((tris, p3)) => match parse_keyframes(b, p3, nf, nv) {
                            Err(e) => Err(e),
                            Ok((kfs, _p4)) => Ok(
                                SpecMdl {
                                    skins,
                                    skin_width: w as u32,
                                    skin_height: h as u32,
                                    num_verts: nv as u32,
                                    keyframes: kfs,
                                    skin_coords: coords,
                                    triangles: tris,
                                    scale: RawVec3 {
                                        x_bits: le32(b, 8) as u32,
                                        y_bits: le32(b, 12) as u32,
                                        z_bits: le32(b, 16) as u32,
                                    },
                                    origin: RawVec3 {
                                        x_bits: le32(b, 20) as u32,
                                        y_bits: le32(b, 24) as u32,
                                        z_bits: le32(b, 28) as u32,
                                    },
                                },
                            ),
                        },
                    },
                },
            }
        }
    }
}


// ---------------------------------------------------------------------------
// Executable decoding, proved against the spec parsers above.

impl Frame {
    /// Decodes one pose at `pos`.
    pub fn deserialize(b: &Vec<u8>, pos: usize, num_verts: u32) -> (r: Result<
        (Frame, usize),
        FormatError,
    >)
        ensures
            match parse_frame(b@, pos as int, num_verts as int) {
                Ok((f, p2)) => {
                    &&& r matches Ok(pair)
                    &&& pair.0@ == f
                    &&& pair.1 == p2
                },
                Err(e) => r == Err::<(Frame, usize), FormatError>(e),
            },
    {
        let len: usize = b.len();
        let fsize: u64 = 24 + 4 * (num_verts as u64);
        if (pos as u128) + (fsize as u128) > (len as u128) {
            return Err(FormatError::MalformedRecord);
        }
        let min = QuantizedPos { x: b[pos], y: b[pos + 1], z: b[pos + 2] };
        let max = QuantizedPos { x: b[pos + 4], y: b[pos + 5], z: b[pos + 6] };
        let name_len: usize = crate::bytes::find_nul(b, pos + 8, 16);
        let name: Vec<u8> = copy_range(b, pos + 8, name_len);
        let nv: usize = num_verts as usize;
        let mut vertices: Vec<QuantizedPos> = Vec::new();
        let mut i: usize = 0;
        while i < nv
            invariant
                pos + 24 + 4 * nv <= len,
                len == b@.len(),
                i <= nv,
                vertices@.len() == i,
                forall|j: int| 0 <= j < i ==> vertices@[j] == qpos_at(b@, pos + 24 + 4 * j),
            decreases nv - i,
        {
            let base: usize = pos + 24 + 4 * i;
            vertices.push(QuantizedPos { x: b[base], y: b[base + 1], z: b[base + 2] });
            i = i + 1;
        }
        let ghost f = frame_at(b@, pos as int, num_verts as int);
        proof {
            assert(vertices@ =~= f.vertices);
            assert(name@ == f.name);
        }
        Ok((Frame { name, min, max, vertices }, pos + 24 + 4 * nv))
    }
}

impl SkinCoord {
    /// Decodes one 12-byte skin coordinate record at `pos`.
    pub fn deserialize(b: &Vec<u8>, pos: usize) -> (r: Result<(SkinCoord, usize), FormatError>)
        ensures
            pos + 12 > b@.len() ==> r == Err::<(SkinCoord, usize), FormatError>(
                FormatError::MalformedRecord,
            ),
            pos + 12 <= b@.len() ==> {
                &&& r matches Ok(pair)
                &&& pair.0 == skincoord_at(b@, pos as int)
                &&& pair.1 == pos + 12
            },
    {
        let len: usize = b.len();
        if pos > len || len - pos < 12 {
            return Err(FormatError::MalformedRecord);
        }
        let tag: u32 = read_le32(b, pos);
        let s: i32 = read_le32_signed(b, pos + 4);
        let t: i32 = read_le32_signed(b, pos + 8);
        Ok((SkinCoord { is_on_seam: tag == 0x20, s, t }, pos + 12))
    }
}

impl Triangle {
    /// Decodes one 16-byte triangle record at `pos`, rejecting any vertex
    /// index outside the model's vertex range.
    pub fn deserialize(b: &Vec<u8>, pos: usize, num_verts: u32) -> (r: Result<
        (Triangle, usize),
        FormatError,
    >)
        ensures
            pos + 16 > b@.len() ==> r == Err::<(Triangle, usize), FormatError>(
                FormatError::MalformedRecord,
            ),
            pos + 16 <= b@.len() ==> {
                let t = triangle_at(b@, pos as int);
                if triangle_ok(t, num_verts as int) {
                    r matches Ok(pair) && pair.0 == t && pair.1 == pos + 16
                } else {
                    r == Err::<(Triangle, usize), FormatError>(FormatError::MalformedRecord)
                }
            },
    {
        let len: usize = b.len();
        if pos > len || len - pos < 16 {
            return Err(FormatError::MalformedRecord);
        }
        let tag: u32 = read_le32(b, pos);
        let v0: u32 = read_le32(b, pos + 4);
        let v1: u32 = read_le32(b, pos + 8);
        let v2: u32 = read_le32(b, pos + 12);
        if v0 >= num_verts || v1 >= num_verts || v2 >= num_verts {
            return Err(FormatError::MalformedRecord);
        }
        Ok((Triangle { faces_front: tag == 1, v0, v1, v2 }, pos + 16))
    }
}

impl StaticSkin {
    /// Decodes a static skin's flat image at `pos` (after the tag).
    pub fn deserialize(b: &Vec<u8>, pos: usize, size: u64) -> (r: Result<
        (StaticSkin, usize),
        FormatError,
    >)
        ensures
            match parse_static_skin(b@, pos as int, size as int) {
                Ok((px, p2)) => {
                    &&& r matches Ok(pair)
                    &&& pair.0.0@ == px
                    &&& pair.1 == p2
                },
                Err(e) => r == Err::<(StaticSkin, usize), FormatError>(e),
            },
    {
        let len: usize = b.len();
        if (pos as u128) + (size as u128) > (len as u128) {
            return Err(FormatError::MalformedRecord);
        }
        let size_u: usize = size as usize;
        let indices: Vec<u8> = copy_range(b, pos, size_u);
        Ok((StaticSkin(indices), pos + size_u))
    }
}

impl AnimatedSkin {
    /// Decodes an animated skin at `pos` (after the tag): the image count
    /// word, the durations, then the images.
    pub fn deserialize(b: &Vec<u8>, pos: usize, size: u64) -> (r: Result<
        (AnimatedSkin, usize),
        FormatError,
    >)
        ensures
            match parse_animated_skin(b@, pos as int, size as int) {
                Ok((fs, p2)) => {
                    &&& r matches Ok(pair)
                    &&& pair.0.0@.map_values(|f: AnimatedSkinFrame| f@) == fs
                    &&& pair.1 == p2
                },
                Err(e) => r == Err::<(AnimatedSkin, usize), FormatError>(e),
            },
    {
        let len: usize = b.len();
        if pos > len || len - pos < 4 {
            return Err(FormatError::MalformedRecord);
        }
        let cnt_word: u32 = read_le32(b, pos);
        let cnt64: u64 = crate::binary32::whole_from_bits(cnt_word);
        if cnt64 == 0 {
            return Err(FormatError::MalformedRecord);
        }
        proof {
            vstd::arithmetic::mul::lemma_mul_nonnegative(cnt64 as int, size as int);
        }
        if 4 * (cnt64 as u128) > len as u128 {
            return Err(FormatError::MalformedRecord);
        }
        proof {
            lemma_mul_upper_bound(cnt64 as int, len as int, size as int, 0xffff_ffff_ffff_ffff);
        }
        let need: u128 = (pos as u128) + 4 + 4 * (cnt64 as u128) + (cnt64 as u128) * (size as u128);
        if need > len as u128 {
            return Err(FormatError::MalformedRecord);
        }
        proof {
            lemma_mul_inequality(1, cnt64 as int, size as int);
            vstd::arithmetic::mul::lemma_mul_basics(size as int);
            vstd::arithmetic::mul::lemma_mul_nonnegative(cnt64 as int, size as int);
            assert(size <= len);
            assert(cnt64 <= len);
        }
        let cnt: usize = cnt64 as usize;
        let size_u: usize = size as usize;
        let mut durations: Vec<u64> = Vec::new();
        let mut i: usize = 0;
        while i < cnt
            invariant
                pos + 4 + 4 * cnt <= len,
                len == b@.len(),
                i <= cnt,
                durations@.len() == i,
                forall|j: int|
                    0 <= j < i ==> durations@[j] == micros_of_bits(
                        le32(b@, pos + 4 + 4 * j) as u32,
                    ),
            decreases cnt - i,
        {
            let word: u32 = read_le32(b, pos + 4 + 4 * i);
            durations.push(crate::binary32::secs_bits_to_micros(word));
            i = i + 1;
        }
        let base: usize = pos + 4 + 4 * cnt;
        let mut frames: Vec<AnimatedSkinFrame> = Vec::new();
        i = 0;
        while i < cnt
            invariant
                base == pos + 4 + 4 * cnt,
                base + cnt64 as int * size as int <= len,
                cnt == cnt64,
                size_u == size,
                len == b@.len(),
                i <= cnt,
                frames@.len() == i,
                durations@.len() == cnt,
                forall|j: int|
                    0 <= j < cnt ==> durations@[j] == micros_of_bits(
                        le32(b@, pos + 4 + 4 * j) as u32,
                    ),
                forall|j: int|
                    0 <= j < i ==> (#[trigger] frames@[j]).duration_micros == durations@[j]
                        && frames@[j].indices@ == b@.subrange(
                        base + j * size as int,
                        base + j * size as int + size as int,
                    ),
            decreases cnt - i,
        {
            proof {
                lemma_mul_inequality(i as int + 1, cnt as int, size as int);
                assert(i as int * size as int + size as int == (i as int + 1) * size as int) by {
                    vstd::arithmetic::mul::lemma_mul_is_distributive_add_other_way(
                        size as int,
                        i as int,
                        1,
                    );
                }
                lemma_mul_inequality(0, i as int, size as int);
                vstd::arithmetic::mul::lemma_mul_is_commutative(i as int, size as int);
            }
            let start: usize = base + i * size_u;
            let indices: Vec<u8> = copy_range(b, start, size_u);
            frames.push(AnimatedSkinFrame { duration_micros: durations[i], indices });
            i = i + 1;
        }
        proof {
            let fs = parse_animated_skin(b@, pos as int, size as int).unwrap().0;
            assert(frames@.map_values(|f: AnimatedSkinFrame| f@) =~= fs);
        }
        Ok((AnimatedSkin(frames), base + cnt * size_u))
    }
}

impl Skin {
    /// Decodes the skin record at `pos`: reads the type tag and dispatches
    /// to the static or the animated form.
    pub fn deserialize(b: &Vec<u8>, pos: usize, size: u64) -> (r: Result<
        (Skin, usize),
        FormatError,
    >)
        ensures
            match parse_skin(b@, pos as int, size as int) {
                Ok((sk, p2)) => {
                    &&& r matches Ok(pair)
                    &&& pair.0@ == sk
                    &&& pair.1 == p2
                },
                Err(e) => r == Err::<(Skin, usize), FormatError>(e),
            },
    {
        let len: usize = b.len();
        if pos > len || len - pos < 4 {
            return Err(FormatError::MalformedRecord);
        }
        let tag: u32 = read_le32(b, pos);
        if tag == 0 {
            match StaticSkin::deserialize(b, pos + 4, size) {
                Ok((ss, p2)) => Ok((Skin::Static(ss), p2)),
                Err(e) => Err(e),
            }
        } else if tag == 1 {
            match AnimatedSkin::deserialize(b, pos + 4, size) {
                Ok((a, p2)) => Ok((Skin::Animated(a), p2)),
                Err(e) => Err(e),
            }
        } else {
            Err(FormatError::UnknownVariant)
        }
    }
}


impl AnimatedKeyframe {
    /// Decodes an animated keyframe at `pos` (after the tag): the pose
    /// count, quantized bounds, durations, then the poses.
    pub fn deserialize(b: &Vec<u8>, pos: usize, num_verts: u32) -> (r: Result<
        (AnimatedKeyframe, usize),
        FormatError,
    >)
        ensures
            match parse_animated_keyframe(b@, pos as int, num_verts as int) {
                Ok(((min, max, sf), p2)) => {
                    &&& r matches Ok(pair)
                    &&& pair.0.min == min
                    &&& pair.0.max == max
                    &&& pair.0.subframes@.map_values(|f: AnimatedKeyframeFrame| f@) == sf
                    &&& pair.1 == p2
                },
                Err(e) => r == Err::<(AnimatedKeyframe, usize), FormatError>(e),
            },
    {
        let len: usize = b.len();
        if pos > len || len - pos < 12 {
            return Err(FormatError::MalformedRecord);
        }
        let cnt_raw: i32 = read_le32_signed(b, pos);
        if cnt_raw < 1 {
            return Err(FormatError::MalformedRecord);
        }
        let cnt64: u64 = cnt_raw as u64;
        let fs: u64 = 24 + 4 * (num_verts as u64);
        proof {
            lemma_mul_upper_bound(cnt64 as int, 0x8000_0000, fs as int, 0x8_0000_0000);
            vstd::arithmetic::mul::lemma_mul_nonnegative(cnt64 as int, fs as int);
        }
        let need: u128 = (pos as u128) + 12 + 4 * (cnt64 as u128) + (cnt64 as u128) * (fs as u128);
        if need > len as u128 {
            return Err(FormatError::MalformedRecord);
        }
        proof {
            lemma_mul_inequality(1, cnt64 as int, fs as int);
            vstd::arithmetic::mul::lemma_mul_basics(fs as int);
            assert(fs <= len);
        }
        let cnt: usize = cnt64 as usize;
        let min = QuantizedPos { x: b[pos + 4], y: b[pos + 5], z: b[pos + 6] };
        let max = QuantizedPos { x: b[pos + 8], y: b[pos + 9], z: b[pos + 10] };
        let mut durations: Vec<u64> = Vec::new();
        let mut i: usize = 0;
        while i < cnt
            invariant
                pos + 12 + 4 * cnt <= len,
                len == b@.len(),
                i <= cnt,
                durations@.len() == i,
                forall|j: int|
                    0 <= j < i ==> durations@[j] == micros_of_bits(
                        le32(b@, pos + 12 + 4 * j) as u32,
                    ),
            decreases cnt - i,
        {
            let word: u32 = read_le32(b, pos + 12 + 4 * i);
            durations.push(crate::binary32::secs_bits_to_micros(word));
            i = i + 1;
        }
        let ghost fs_spec = frame_size(num_verts as int);
        let base: usize = pos + 12 + 4 * cnt;
        let fs_u: usize = fs as usize;
        let mut frames: Vec<AnimatedKeyframeFrame> = Vec::new();
        i = 0;
        while i < cnt
            invariant
                base == pos + 12 + 4 * cnt,
                base + cnt64 as int * fs as int <= len,
                cnt == cnt64,
                fs_u == fs == fs_spec == frame_size(num_verts as int),
                len == b@.len(),
                i <= cnt,
                frames@.len() == i,
                durations@.len() == cnt,
                forall|j: int|
                    0 <= j < cnt ==> durations@[j] == micros_of_bits(
                        le32(b@, pos + 12 + 4 * j) as u32,
                    ),
                forall|j: int|
                    0 <= j < i ==> (#[trigger] frames@[j]).duration_micros == durations@[j]
                        && frames@[j].frame@ == frame_at(b@, base + j * fs_spec, num_verts as int),
            decreases cnt - i,
        {
            proof {
                lemma_mul_inequality(i as int + 1, cnt as int, fs as int);
                assert(i as int * fs as int + fs as int == (i as int + 1) * fs as int) by {
                    vstd::arithmetic::mul::lemma_mul_is_distributive_add_other_way(
                        fs as int,
                        i as int,
                        1,
                    );
                }
                lemma_mul_inequality(0, i as int, fs as int);
                vstd::arithmetic::mul::lemma_mul_is_commutative(i as int, fs as int);
            }
            let fbase: usize = base + i * fs_u;
            let frame = match Frame::deserialize(b, fbase, num_verts) {
                Ok((f, _)) => f,
                Err(e) => {
                    // The extent check above covers every pose, so this
                    // arm is unreachable.
                    proof {
                        assert(false);
                    }
                    return Err(e);
                },
            };
            frames.push(AnimatedKeyframeFrame { duration_micros: durations[i], frame });
            i = i + 1;
        }
        proof {
            let sf = parse_animated_keyframe(b@, pos as int, num_verts as int).unwrap().0.2;
            assert(frames@.map_values(|f: AnimatedKeyframeFrame| f@) =~= sf);
        }
        Ok((AnimatedKeyframe { min, max, subframes: frames }, base + cnt * fs_u))
    }
}

impl Keyframe {
    /// Decodes the keyframe record at `pos`: reads the type tag and
    /// dispatches to the static or the animated form.
    pub fn deserialize(b: &Vec<u8>, pos: usize, num_verts: u32) -> (r: Result<
        (Keyframe, usize),
        FormatError,
    >)
        ensures
            match parse_keyframe(b@, pos as int, num_verts as int) {
                Ok((k, p2)) => {
                    &&& r matches Ok(pair)
                    &&& pair.0@ == k
                    &&& pair.1 == p2
                },
                Err(e) => r == Err::<(Keyframe, usize), FormatError>(e),
            },
    {
        let len: usize = b.len();
        if pos > len || len - pos < 4 {
            return Err(FormatError::MalformedRecord);
        }
        let tag: u32 = read_le32(b, pos);
        if tag == 0 {
            match Frame::deserialize(b, pos + 4, num_verts) {
                Ok((f, p2)) => Ok((Keyframe::Static(StaticKeyframe(f)), p2)),
                Err(e) => Err(e),
            }
        } else if tag == 1 {
            match AnimatedKeyframe::deserialize(b, pos + 4, num_verts) {
                Ok((a, p2)) => Ok((Keyframe::Animated(a), p2)),
                Err(e) => Err(e),
            }
        } else {
            Err(FormatError::UnknownVariant)
        }
    }
}


/// The skins a successful parse yields are well-formed: static images hold
/// exactly `size` texels, animated lists are non-empty with images of
/// `size` texels each.
#[verifier::rlimit(100)]
#[verifier::spinoff_prover]
proof fn lemma_parse_skins_ok(b: Seq<u8>, pos: int, n: int, size: int)
    requires
        pos >= 0,
        size >= 0,
        parse_skins(b, pos, n, size) is Ok,
    ensures
        ({
            let ss = parse_skins(b, pos, n, size).unwrap().0;
            forall|i: int| 0 <= i < ss.len() ==> skin_ok(#[trigger] ss[i], size)
        }),
    decreases n,
{
    if n > 0 {
        let (s, p2) = parse_skin(b, pos, size).unwrap();
        assert(skin_ok(s, size) && p2 >= 0) by {
            if le32(b, pos) == 1 {
                let base = pos + 4;
                let cnt = whole_of_bits(le32(b, base) as u32) as int;
                let fs = parse_animated_skin(b, base, size).unwrap().0;
                vstd::arithmetic::mul::lemma_mul_nonnegative(cnt, size);
                assert forall|i: int| 0 <= i < fs.len() implies (#[trigger] fs[i]).indices.len()
                    == size by {
                    lemma_mul_inequality(i + 1, cnt, size);
                    vstd::arithmetic::mul::lemma_mul_is_distributive_add_other_way(size, i, 1);
                    vstd::arithmetic::mul::lemma_mul_nonnegative(i, size);
                    vstd::arithmetic::mul::lemma_mul_is_commutative(i, size);
                    assert(base + 4 + 4 * cnt + i * size >= 0);
                    assert(base + 4 + 4 * cnt + i * size + size <= b.len());
                }
            }
        }
        lemma_parse_skins_ok(b, p2, n - 1, size);
        let ss = parse_skins(b, pos, n, size).unwrap().0;
        let rest = parse_skins(b, p2, n - 1, size).unwrap().0;
        assert forall|i: int| 0 <= i < ss.len() implies skin_ok(#[trigger] ss[i], size) by {
            if i == 0 {
                assert(ss[0] == s);
            } else {
                assert(ss[i] == rest[i - 1]);
            }
        }
    }
}

/// The keyframes a successful parse yields are well-formed: every pose
/// holds one position per model vertex, animated lists are non-empty.
#[verifier::rlimit(100)]
#[verifier::spinoff_prover]
proof fn lemma_parse_keyframes_ok(b: Seq<u8>, pos: int, n: int, nv: int)
    requires
        pos >= 0,
        nv >= 0,
        parse_keyframes(b, pos, n, nv) is Ok,
    ensures
        ({
            let ks = parse_keyframes(b, pos, n, nv).unwrap().0;
            forall|i: int| 0 <= i < ks.len() ==> keyframe_ok(#[trigger] ks[i], nv)
        }),
    decreases n,
{
    if n > 0 {
        let (k, p2) = parse_keyframe(b, pos, nv).unwrap();
        assert(keyframe_ok(k, nv) && p2 >= 0) by {
            if le32(b, pos) == 1 {
                let base = pos + 4;
                let cnt = le32_signed(b, base);
                vstd::arithmetic::mul::lemma_mul_nonnegative(cnt, frame_size(nv));
            }
        }
        lemma_parse_keyframes_ok(b, p2, n - 1, nv);
        let ks = parse_keyframes(b, pos, n, nv).unwrap().0;
        let rest = parse_keyframes(b, p2, n - 1, nv).unwrap().0;
        assert forall|i: int| 0 <= i < ks.len() implies keyframe_ok(#[trigger] ks[i], nv) by {
            if i == 0 {
                assert(ks[0] == k);
            } else {
                assert(ks[i] == rest[i - 1]);
            }
        }
    }
}

/// Decodes `n` consecutive skin records.
#[verifier::rlimit(100)]
fn decode_skins(b: &Vec<u8>, pos: usize, n: usize, size: u64) -> (r: Result<
    (Vec<Skin>, usize),
    FormatError,
>)
    requires
        pos <= b@.len(),
    ensures
        match parse_skins(b@, pos as int, n as int, size as int) {
            Ok((ss, p2)) => {
                &&& r matches Ok(pair)
                &&& pair.0@.map_values(|s: Skin| s@) == ss
                &&& pair.1 == p2
                &&& pair.1 <= b@.len()
            },
            Err(e) => r == Err::<(Vec<Skin>, usize), FormatError>(e),
        },
{
    let mut skins: Vec<Skin> = Vec::new();
    let mut cur: usize = pos;
    let mut i: usize = 0;
    while i < n
        invariant
            i <= n,
            cur <= b@.len(),
            parse_skins(b@, pos as int, n as int, size as int) == (match parse_skins(
                b@,
                cur as int,
                (n - i) as int,
                size as int,
            ) {
                Ok((rest, p3)) => Ok::<(Seq<SpecSkin>, int), FormatError>(
                    (skins@.map_values(|s: Skin| s@) + rest, p3),
                ),
                Err(e) => Err::<(Seq<SpecSkin>, int), FormatError>(e),
            }),
        decreases n - i,
    {
        let ghost pre = skins@;
        match Skin::deserialize(b, cur, size) {
            Ok((sk, p2)) => {
                skins.push(sk);
                proof {
                    let m = (n - i) as int;
                    let (sv, _) = parse_skin(b@, cur as int, size as int).unwrap();
                    if let Ok((rest, _)) = parse_skins(b@, p2 as int, m - 1, size as int) {
                        assert(pre.map_values(|s: Skin| s@) + (seq![sv] + rest) =~= skins@
                            .map_values(|s: Skin| s@) + rest);
                    }
                }
                cur = p2;
            },
            Err(e) => {
                proof {
                    assert(parse_skins(b@, cur as int, (n - i) as int, size as int)
                        == Err::<(Seq<SpecSkin>, int), FormatError>(e));
                }
                return Err(e);
            },
        }
        i = i + 1;
    }
    proof {
        assert(skins@.map_values(|s: Skin| s@) + Seq::<SpecSkin>::empty() =~= skins@.map_values(
            |s: Skin| s@,
        ));
    }
    Ok((skins, cur))
}

/// Decodes `n` consecutive skin coordinate records.
fn decode_skincoords(b: &Vec<u8>, pos: usize, n: usize) -> (r: Result<
    (Vec<SkinCoord>, usize),
    FormatError,
>)
    requires
        pos <= b@.len(),
    ensures
        match parse_skincoords(b@, pos as int, n as int) {
            Ok((cs, p2)) => {
                &&& r matches Ok(pair)
                &&& pair.0@ == cs
                &&& pair.1 == p2
                &&& pair.1 <= b@.len()
            },
            Err(e) => r == Err::<(Vec<SkinCoord>, usize), FormatError>(e),
        },
{
    let len: usize = b.len();
    let mut coords: Vec<SkinCoord> = Vec::new();
    let mut i: usize = 0;
    while i < n
        invariant
            i <= n,
            pos + 12 * i <= len,
            len == b@.len(),
            coords@.len() == i,
            forall|j: int| 0 <= j < i ==> coords@[j] == skincoord_at(b@, pos + 12 * j),
        decreases n - i,
    {
        match SkinCoord::deserialize(b, pos + 12 * i) {
            Ok((c, _)) => {
                coords.push(c);
            },
            Err(e) => {
                return Err(e);
            },
        }
        i = i + 1;
    }
    proof {
        assert(coords@ =~= parse_skincoords(b@, pos as int, n as int).unwrap().0);
    }
    Ok((coords, pos + 12 * n))
}

/// Decodes `n` consecutive triangle records, each validated against the
/// model's vertex range.
fn decode_triangles(b: &Vec<u8>, pos: usize, n: usize, num_verts: u32) -> (r: Result<
    (Vec<Triangle>, usize),
    FormatError,
>)
    requires
        pos <= b@.len(),
    ensures
        match parse_triangles(b@, pos as int, n as int, num_verts as int) {
            Ok((ts, p2)) => {
                &&& r matches Ok(pair)
                &&& pair.0@ == ts
                &&& pair.1 == p2
                &&& pair.1 <= b@.len()
            },
            Err(e) => r == Err::<(Vec<Triangle>, usize), FormatError>(e),
        },
{
    let len: usize = b.len();
    let mut tris: Vec<Triangle> = Vec::new();
    let mut i: usize = 0;
    while i < n
        invariant
            i <= n,
            pos + 16 * i <= len,
            len == b@.len(),
            tris@.len() == i,
            forall|j: int| 0 <= j < i ==> tris@[j] == triangle_at(b@, pos + 16 * j),
            forall|j: int|
                0 <= j < i ==> triangle_ok(#[trigger] triangle_at(b@, pos + 16 * j), num_verts as int),
        decreases n - i,
    {
        match Triangle::deserialize(b, pos + 16 * i, num_verts) {
            Ok((t, _)) => {
                tris.push(t);
            },
            Err(e) => {
                return Err(e);
            },
        }
        i = i + 1;
    }
    proof {
        assert(tris@ =~= parse_triangles(b@, pos as int, n as int, num_verts as int).unwrap().0);
    }
    Ok((tris, pos + 16 * n))
}

/// Decodes `n` consecutive keyframe records.
#[verifier::rlimit(100)]
fn decode_keyframes(b: &Vec<u8>, pos: usize, n: usize, num_verts: u32) -> (r: Result<
    (Vec<Keyframe>, usize),
    FormatError,
>)
    requires
        pos <= b@.len(),
    ensures
        match parse_keyframes(b@, pos as int, n as int, num_verts as int) {
            Ok((ks, p2)) => {
                &&& r matches Ok(pair)
                &&& pair.0@.map_values(|k: Keyframe| k@) == ks
                &&& pair.1 == p2
                &&& pair.1 <= b@.len()
            },
            Err(e) => r == Err::<(Vec<Keyframe>, usize), FormatError>(e),
        },
{
    let mut kfs: Vec<Keyframe> = Vec::new();
    let mut cur: usize = pos;
    let mut i: usize = 0;
    while i < n
        invariant
            i <= n,
            cur <= b@.len(),
            parse_keyframes(b@, pos as int, n as int, num_verts as int) == (match parse_keyframes(
                b@,
                cur as int,
                (n - i) as int,
                num_verts as int,
            ) {
                Ok((rest, p3)) => Ok::<(Seq<SpecKeyframe>, int), FormatError>(
                    (kfs@.map_values(|k: Keyframe| k@) + rest, p3),
                ),
                Err(e) => Err::<(Seq<SpecKeyframe>, int), FormatError>(e),
            }),
        decreases n - i,
    {
        let ghost pre = kfs@;
        match Keyframe::deserialize(b, cur, num_verts) {
            Ok((k, p2)) => {
                kfs.push(k);
                proof {
                    let m = (n - i) as int;
                    let (kv, _) = parse_keyframe(b@, cur as int, num_verts as int).unwrap();
                    if let Ok((rest, _)) = parse_keyframes(b@, p2 as int, m - 1, num_verts as int) {
                        assert(pre.map_values(|k: Keyframe| k@) + (seq![kv] + rest) =~= kfs@
                            .map_values(|k: Keyframe| k@) + rest);
                    }
                }
                cur = p2;
            },
            Err(e) => {
                proof {
                    assert(parse_keyframes(b@, cur as int, (n - i) as int, num_verts as int)
                        == Err::<(Seq<SpecKeyframe>, int), FormatError>(e));
                }
                return Err(e);
            },
        }
        i = i + 1;
    }
    proof {
        assert(kfs@.map_values(|k: Keyframe| k@) + Seq::<SpecKeyframe>::empty() =~= kfs@
            .map_values(|k: Keyframe| k@));
    }
    Ok((kfs, cur))
}

impl Mdl {
    /// Decodes a whole model buffer, strictly in field order; any short
    /// read or out-of-range value fails with a typed error and no partial
    /// result. On success the model equals exactly what the wire grammar
    /// says, and satisfies the structural invariant.
    pub fn deserialize(b: &Vec<u8>) -> (r: Result<Mdl, FormatError>)
        ensures
            match parse_mdl(b@) {
                Ok(m) => {
                    &&& r matches Ok(mdl)
                    &&& mdl@ == m
                    &&& mdl.wf()
                },
                Err(e) => r == Err::<Mdl, FormatError>(e),
            },
    {
        let len: usize = b.len();
        if len < 4 {
            return Err(FormatError::MalformedRecord);
        }
        let ident: u32 = read_le32(b, 0);
        if ident != 0x4f504449 {
            return Err(FormatError::BadSignature);
        }
        if len < 8 {
            return Err(FormatError::MalformedRecord);
        }
        let version: i32 = read_le32_signed(b, 4);
        if version != 6 {
            return Err(FormatError::UnsupportedVersion);
        }
        if len < 84 {
            return Err(FormatError::MalformedRecord);
        }
        let num_skins: i32 = read_le32_signed(b, 48);
        let skin_width: i32 = read_le32_signed(b, 52);
        let skin_height: i32 = read_le32_signed(b, 56);
        let num_verts: i32 = read_le32_signed(b, 60);
        let num_tris: i32 = read_le32_signed(b, 64);
        let num_frames: i32 = read_le32_signed(b, 68);
        if num_skins < 0 || skin_width < 0 || skin_height < 0 || num_verts < 0 || num_tris < 0
            || num_frames < 0 {
            return Err(FormatError::MalformedRecord);
        }
        proof {
            lemma_mul_upper_bound(skin_width as int, 0x8000_0000, skin_height as int, 0x8000_0000);
            vstd::arithmetic::mul::lemma_mul_nonnegative(skin_width as int, skin_height as int);
        }
        let size: u64 = (skin_width as u64) * (skin_height as u64);
        let (skins, p1) = match decode_skins(b, 84, num_skins as usize, size) {
            Ok(pair) => pair,
            Err(e) => {
                return Err(e);
            },
        };
        let (skin_coords, p2) = match decode_skincoords(b, p1, num_verts as usize) {
            Ok(pair) => pair,
            Err(e) => {
                return Err(e);
            },
        };
        let (triangles, p3) = match decode_triangles(b, p2, num_tris as usize, num_verts as u32) {
            Ok(pair) => pair,
            Err(e) => {
                return Err(e);
            },
        };
        let (keyframes, _p4) = match decode_keyframes(b, p3, num_frames as usize, num_verts as u32)
            {
            Ok(pair) => pair,
            Err(e) => {
                return Err(e);
            },
        };
        let scale = RawVec3 {
            x_bits: read_le32(b, 8),
            y_bits: read_le32(b, 12),
            z_bits: read_le32(b, 16),
        };
        let origin = RawVec3 {
            x_bits: read_le32(b, 20),
            y_bits: read_le32(b, 24),
            z_bits: read_le32(b, 28),
        };
        let mdl = Mdl {
            skins,
            skin_width: skin_width as u32,
            skin_height: skin_height as u32,
            num_verts: num_verts as u32,
            keyframes,
            skin_coords,
            triangles,
            scale,
            origin,
        };
        proof {
            let m = parse_mdl(b@).unwrap();
            assert(mdl@ == m);
            lemma_parse_skins_ok(b@, 84, num_skins as int, size as int);
            lemma_parse_keyframes_ok(b@, p3 as int, num_frames as int, num_verts as int);
            assert(mdl.wf());
        }
        Ok(mdl)
    }
}


/// The durations of an animated skin's images, in list order.
pub open spec fn skin_durations(fs: Seq<SpecSkinFrame>) -> Seq<u64> {
    fs.map_values(|f: SpecSkinFrame| f.duration_micros)
}

/// The durations of an animated keyframe's poses, in list order.
pub open spec fn keyframe_durations(fs: Seq<SpecKeyframeFrame>) -> Seq<u64> {
    fs.map_values(|f: SpecKeyframeFrame| f.duration_micros)
}

impl Skin {
    /// Resolves the image this skin shows after `time_micros` of looping
    /// playback and returns a copy of its palette indices: a static skin's
    /// single image, or the animated image whose cumulative span covers the
    /// phase of the elapsed time within the loop.
    pub fn indices(&self, time_micros: u64) -> (r: Vec<u8>)
        requires
            self@ matches SpecSkin::Animated(fs) ==> fs.len() >= 1,
        ensures
            match self@ {
                SpecSkin::Static(px) => r@ == px,
                SpecSkin::Animated(fs) => r@ == fs[selected_index(
                    skin_durations(fs),
                    time_micros,
                )].indices,
            },
    {
        match self {
            Skin::Static(st) => copy_range(&st.0, 0, st.0.len()),
            Skin::Animated(a) => {
                let ghost fs = self@->Animated_0;
                let n: usize = a.0.len();
                let mut ds: Vec<u64> = Vec::new();
                let mut j: usize = 0;
                while j < n
                    invariant
                        n == a.0@.len(),
                        j <= n,
                        ds@.len() == j,
                        forall|k: int| 0 <= k < j ==> ds@[k] == a.0@[k].duration_micros,
                    decreases n - j,
                {
                    ds.push(a.0[j].duration_micros);
                    j = j + 1;
                }
                proof {
                    assert(ds@ =~= skin_durations(fs));
                    crate::timing::lemma_selected_in_range(ds@, time_micros);
                }
                let i: usize = select_timed(&ds, time_micros);
                let img = &a.0[i];
                copy_range(&img.indices, 0, img.indices.len())
            },
        }
    }
}

impl Keyframe {
    /// Resolves the pose this keyframe shows after `time_micros` of looping
    /// playback: a static keyframe's single pose, or the animated pose
    /// whose cumulative span covers the phase of the elapsed time.
    pub fn frame(&self, time_micros: u64) -> (r: &Frame)
        requires
            self@ matches SpecKeyframe::Animated { subframes, .. } ==> subframes.len() >= 1,
        ensures
            match self@ {
                SpecKeyframe::Static(f) => r@ == f,
                SpecKeyframe::Animated { subframes, .. } => r@ == subframes[selected_index(
                    keyframe_durations(subframes),
                    time_micros,
                )].frame,
            },
    {
        match self {
            Keyframe::Static(kf) => &kf.0,
            Keyframe::Animated(kf) => {
                let ghost sf = kf.subframes@.map_values(|f: AnimatedKeyframeFrame| f@);
                let n: usize = kf.subframes.len();
                let mut ds: Vec<u64> = Vec::new();
                let mut j: usize = 0;
                while j < n
                    invariant
                        n == kf.subframes@.len(),
                        j <= n,
                        ds@.len() == j,
                        forall|k: int| 0 <= k < j ==> ds@[k] == kf.subframes@[k].duration_micros,
                    decreases n - j,
                {
                    ds.push(kf.subframes[j].duration_micros);
                    j = j + 1;
                }
                proof {
                    assert(ds@ =~= keyframe_durations(sf));
                    crate::timing::lemma_selected_in_range(ds@, time_micros);
                }
                let i: usize = select_timed(&ds, time_micros);
                &kf.subframes[i].frame
            },
        }
    }
}

impl Mdl {
    /// The triangle index list flattened in triangle order, three indices
    /// per triangle: the indexed-draw contract over a single pose's vertex
    /// array.
    pub fn indices(&self) -> (r: Vec<u32>)
        ensures
            r@.len() == 3 * self@.triangles.len(),
            forall|k: int|
                0 <= k < self@.triangles.len() ==> {
                    &&& r@[3 * k] == (#[trigger] self@.triangles[k]).v0
                    &&& r@[3 * k + 1] == self@.triangles[k].v1
                    &&& r@[3 * k + 2] == self@.triangles[k].v2
                },
    {
        let n: usize = self.triangles.len();
        proof {
            assert(3 * n <= 3 * usize::MAX as int);
        }
        let mut r: Vec<u32> = Vec::new();
        let mut i: usize = 0;
        while i < n
            invariant
                n == self.triangles@.len(),
                i <= n,
                r@.len() == 3 * i,
                forall|k: int|
                    0 <= k < i ==> {
                        &&& r@[3 * k] == (#[trigger] self.triangles@[k]).v0
                        &&& r@[3 * k + 1] == self.triangles@[k].v1
                        &&& r@[3 * k + 2] == self.triangles@[k].v2
                    },
            decreases n - i,
        {
            let t = &self.triangles[i];
            r.push(t.v0);
            r.push(t.v1);
            r.push(t.v2);
            i = i + 1;
        }
        r
    }

    /// Loads a model by name from the asset store and decodes it.
    pub fn load(store: &AssetStore, name: &[u8]) -> (r: Result<Mdl, FormatError>)
        requires
            store.wf(),
        ensures
            match dir_lookup(store.pak.dir(), name@) {
                None => r == Err::<Mdl, FormatError>(FormatError::NotFound),
                Some(en) => {
                    let bytes = store.pak.data().subrange(
                        en.offset as int,
                        en.offset as int + en.size as int,
                    );
                    match parse_mdl(bytes) {
                        Ok(m) => {
                            &&& r matches Ok(mdl)
                            &&& mdl@ == m
                            &&& mdl.wf()
                        },
                        Err(e) => r == Err::<Mdl, FormatError>(e),
                    }
                },
            },
    {
        let bytes = match store.read(name) {
            Ok(bs) => bs,
            Err(e) => {
                return Err(e);
            },
        };
        Mdl::deserialize(&bytes)
    }
}

} // verus!
