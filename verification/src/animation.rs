use crate::bytes::copy_range;
use crate::resource::bytes_equal;
use crate::mesh::{mesh_vertices, FlatNormal, MeshVertex};
use crate::model::{Mdl, SpecKeyframe, SpecMdl};
use crate::timing::{
    lemma_selected_covers, phase_micros, prefix_micros, select_timed, selected_index, total_micros,
};
use vstd::arithmetic::mul::lemma_mul_upper_bound;
use vstd::prelude::*;

verus! {

// Keyframe animation playback. A clip is an ordered list of vertex
// snapshots with durations; cumulative duration thresholds mark where each
// snapshot's span ends. Playback loops: the phase of the elapsed time
// within the period selects the covering span, and the pose is the
// per-vertex linear interpolation between the snapshot before the span and
// the snapshot that ends it. Interpolated coordinates are exact rationals
// in quantized space: numerator over the span's duration as denominator.

/// One stored keyframe: a vertex snapshot and how long it lasts.
#[derive(Debug)]
pub struct Keyframe {
    pub vertices: Vec<MeshVertex>,
    pub duration_micros: u64,
}

/// The mathematical form of a stored keyframe.
pub struct SpecAnimKeyframe {
    pub vertices: Seq<MeshVertex>,
    pub duration_micros: u64,
}

impl View for Keyframe {
    type V = SpecAnimKeyframe;

    open spec fn view(&self) -> SpecAnimKeyframe {
        SpecAnimKeyframe { vertices: self.vertices@, duration_micros: self.duration_micros }
    }
}

/// An ordered sequence of keyframes played back as a loop.
#[derive(Debug)]
pub struct Animation {
    pub keyframes: Vec<Keyframe>,
}

impl View for Animation {
    type V = Seq<SpecAnimKeyframe>;

    open spec fn view(&self) -> Seq<SpecAnimKeyframe> {
        self.keyframes@.map_values(|k: Keyframe| k@)
    }
}

/// One interpolated output vertex. The position is an exact rational in
/// quantized space: each axis numerator over the common denominator. The
/// flat normal and texture coordinate are carried from the earlier
/// bracketing snapshot; normals here belong to flat triangles, so they are
/// not interpolated.
#[derive(Clone, Copy, Debug, PartialEq, Eq, Structural)]
pub struct LerpVertex {
    pub x_num: u128,
    pub y_num: u128,
    pub z_num: u128,
    pub den: u64,
    pub normal: FlatNormal,
    pub s_num: i64,
    pub s_den: u64,
    pub t_num: i64,
    pub t_den: u64,
}

/// The durations of an animation's keyframes, in order.
pub open spec fn anim_durations(kfs: Seq<SpecAnimKeyframe>) -> Seq<u64> {
    kfs.map_values(|k: SpecAnimKeyframe| k.duration_micros)
}

/// The interpolation of one vertex between snapshots `a` and `b`, at
/// `off` of the way through a span of length `den`.
pub open spec fn lerp_vertex(a: MeshVertex, b: MeshVertex, off: int, den: int) -> LerpVertex {
    LerpVertex {
        x_num: (a.position.x * (den - off) + b.position.x * off) as u128,
        y_num: (a.position.y * (den - off) + b.position.y * off) as u128,
        z_num: (a.position.z * (den - off) + b.position.z * off) as u128,
        den: den as u64,
        normal: a.normal,
        s_num: a.s_num,
        s_den: a.s_den,
        t_num: a.t_num,
        t_den: a.t_den,
    }
}

/// The snapshot a looping playback shows at `time`: the covering span's
/// interpolation, the first snapshot held before its first threshold, and
/// the first snapshot alone when the period is zero.
pub open spec fn animate_spec(kfs: Seq<SpecAnimKeyframe>, time: u64) -> Seq<LerpVertex> {
    let ds = anim_durations(kfs);
    if total_micros(ds) == 0 {
        kfs[0].vertices.map_values(|v: MeshVertex| lerp_vertex(v, v, 0, 1))
    } else {
        let j = selected_index(ds, time);
        if j == 0 {
            kfs[0].vertices.map_values(|v: MeshVertex| lerp_vertex(v, v, 0, 1))
        } else {
            let off = phase_micros(ds, time) - prefix_micros(ds, j);
            let den = ds[j] as int;
            Seq::new(
                kfs[j].vertices.len(),
                |v: int| lerp_vertex(kfs[j - 1].vertices[v], kfs[j].vertices[v], off, den),
            )
        }
    }
}

/// Interpolates one quantized coordinate: `qa` weighted by the remaining
/// span plus `qb` weighted by the covered offset.
fn lerp_component(qa: u8, qb: u8, off: u64, den: u64) -> (r: u128)
    requires
        off <= den,
    ensures
        r == qa * (den - off) + qb * off,
{
    proof {
        lemma_mul_upper_bound(qa as int, 0xff, (den - off) as int, 0xffff_ffff_ffff_ffff);
        lemma_mul_upper_bound(qb as int, 0xff, off as int, 0xffff_ffff_ffff_ffff);
    }
    (qa as u128) * ((den - off) as u128) + (qb as u128) * (off as u128)
}

/// Copies a snapshot as a held (un-interpolated) output.
fn hold_snapshot(kf: &Keyframe) -> (r: Vec<LerpVertex>)
    ensures
        r@ == kf@.vertices.map_values(|v: MeshVertex| lerp_vertex(v, v, 0, 1)),
{
    let n: usize = kf.vertices.len();
    let mut r: Vec<LerpVertex> = Vec::new();
    let mut i: usize = 0;
    while i < n
        invariant
            n == kf.vertices@.len(),
            i <= n,
            r@.len() == i,
            forall|j: int|
                0 <= j < i ==> r@[j] == lerp_vertex(
                    #[trigger] kf.vertices@[j],
                    kf.vertices@[j],
                    0,
                    1,
                ),
        decreases n - i,
    {
        let v = kf.vertices[i];
        r.push(
            LerpVertex {
                x_num: v.position.x as u128,
                y_num: v.position.y as u128,
                z_num: v.position.z as u128,
                den: 1,
                normal: v.normal,
                s_num: v.s_num,
                s_den: v.s_den,
                t_num: v.t_num,
                t_den: v.t_den,
            },
        );
        i = i + 1;
    }
    proof {
        assert(r@ =~= kf@.vertices.map_values(|v: MeshVertex| lerp_vertex(v, v, 0, 1)));
    }
    r
}

/// Every keyframe of the list snapshots the same vertex count, so
/// interpolation pairs vertices one to one. This holds by construction for
/// clips built from one model, whose poses all share the model's vertex
/// count.
pub open spec fn anim_wf(kfs: Seq<SpecAnimKeyframe>) -> bool {
    forall|i: int|
        0 <= i < kfs.len() ==> (#[trigger] kfs[i]).vertices.len() == kfs[0].vertices.len()
}

impl Animation {
    /// Every keyframe snapshots the same vertex count.
    pub open spec fn wf(&self) -> bool {
        anim_wf(self@)
    }

    /// An empty animation.
    pub fn new() -> (r: Animation)
        ensures
            r@.len() == 0,
            r.wf(),
    {
        Animation { keyframes: Vec::new() }
    }

    /// Appends a keyframe that shows `vertices` for `duration_micros`.
    pub fn add_keyframe(&mut self, vertices: Vec<MeshVertex>, duration_micros: u64)
        ensures
            final(self)@ == old(self)@.push(
                SpecAnimKeyframe { vertices: vertices@, duration_micros },
            ),
    {
        let ghost pre = self.keyframes@;
        self.keyframes.push(Keyframe { vertices, duration_micros });
        proof {
            assert(self.keyframes@.map_values(|k: Keyframe| k@) =~= pre.map_values(
                |k: Keyframe| k@,
            ).push(self.keyframes@.last()@));
        }
    }

    /// The interpolated vertex snapshot this animation shows after
    /// `time_micros` of looping playback, or nothing when it holds no
    /// keyframes.
    pub fn animate(&self, time_micros: u64) -> (r: Option<Vec<LerpVertex>>)
        requires
            self.wf(),
        ensures
            (r is None) <==> self@.len() == 0,
            self@.len() > 0 ==> (r matches Some(out) && out@ == animate_spec(self@, time_micros)),
    {
        let n: usize = self.keyframes.len();
        if n == 0 {
            return None;
        }
        let mut ds: Vec<u64> = Vec::new();
        let mut i: usize = 0;
        while i < n
            invariant
                n == self.keyframes@.len(),
                i <= n,
                ds@.len() == i,
                forall|k: int| 0 <= k < i ==> ds@[k] == self.keyframes@[k].duration_micros,
            decreases n - i,
        {
            ds.push(self.keyframes[i].duration_micros);
            i = i + 1;
        }
        proof {
            assert(ds@ =~= anim_durations(self@));
        }
        proof {
            crate::timing::lemma_prefix_bounds(ds@, n as int);
        }
        // The looping period; a zero period holds the first snapshot.
        let mut total: u128 = 0;
        let mut k: usize = 0;
        while k < n
            invariant
                n == ds@.len(),
                k <= n,
                total == prefix_micros(ds@, k as int),
                prefix_micros(ds@, n as int) <= n as int * u64::MAX,
            decreases n - k,
        {
            proof {
                crate::timing::lemma_prefix_bounds(ds@, k as int + 1);
                vstd::arithmetic::mul::lemma_mul_inequality(k as int + 1, n as int, u64::MAX as int);
            }
            total = total + ds[k] as u128;
            k = k + 1;
        }
        if total == 0 {
            return Some(hold_snapshot(&self.keyframes[0]));
        }
        let j: usize = select_timed(&ds, time_micros);
        if j == 0 {
            return Some(hold_snapshot(&self.keyframes[0]));
        }
        proof {
            lemma_selected_covers(ds@, time_micros);
        }
        let phase: u128 = (time_micros as u128) % total;
        let mut before: u128 = 0;
        let mut q: usize = 0;
        while q < j
            invariant
                j < ds@.len(),
                q <= j,
                before == prefix_micros(ds@, q as int),
                prefix_micros(ds@, j as int) <= u64::MAX as int * ds@.len(),
            decreases j - q,
        {
            proof {
                crate::timing::lemma_prefix_monotone(ds@, q as int + 1, j as int);
                crate::timing::lemma_prefix_bounds(ds@, j as int);
                vstd::arithmetic::mul::lemma_mul_is_commutative(j as int, u64::MAX as int);
                vstd::arithmetic::mul::lemma_mul_inequality(j as int, ds@.len() as int, u64::MAX as int);
            }
            before = before + ds[q] as u128;
            q = q + 1;
        }
        proof {
            lemma_selected_covers(ds@, time_micros);
            assert(phase == phase_micros(ds@, time_micros));
            assert(before == prefix_micros(ds@, j as int));
            assert(phase - before < ds@[j as int]);
        }
        let off: u64 = (phase - before) as u64;
        let den: u64 = ds[j];
        let a = &self.keyframes[j - 1];
        let b = &self.keyframes[j];
        let m: usize = b.vertices.len();
        proof {
            assert(a@.vertices.len() == b@.vertices.len());
        }
        let mut out: Vec<LerpVertex> = Vec::new();
        let mut v: usize = 0;
        while v < m
            invariant
                m == b.vertices@.len() == a.vertices@.len(),
                off <= den,
                v <= m,
                out@.len() == v,
                forall|w: int|
                    0 <= w < v ==> out@[w] == lerp_vertex(
                        #[trigger] a.vertices@[w],
                        b.vertices@[w],
                        off as int,
                        den as int,
                    ),
            decreases m - v,
        {
            let va = a.vertices[v];
            let vb = b.vertices[v];
            out.push(
                LerpVertex {
                    x_num: lerp_component(va.position.x, vb.position.x, off, den),
                    y_num: lerp_component(va.position.y, vb.position.y, off, den),
                    z_num: lerp_component(va.position.z, vb.position.z, off, den),
                    den,
                    normal: va.normal,
                    s_num: va.s_num,
                    s_den: va.s_den,
                    t_num: va.t_num,
                    t_den: va.t_den,
                },
            );
            v = v + 1;
        }
        proof {
            assert(out@ =~= animate_spec(self@, time_micros));
        }
        Some(out)
    }
}


// ---------------------------------------------------------------------------
// The animation library: clip names mapped to ordered keyframe sequences,
// plus the currently selected clip.

/// How long a pose taken from a static model keyframe is shown.
pub const DEFAULT_POSE_MICROS: u64 = 100_000;

/// One named clip.
#[derive(Debug)]
pub struct ClipEntry {
    pub name: Vec<u8>,
    pub animation: Animation,
}

/// The mathematical form of a named clip.
pub struct SpecClipEntry {
    pub name: Seq<u8>,
    pub animation: Seq<SpecAnimKeyframe>,
}

impl View for ClipEntry {
    type V = SpecClipEntry;

    open spec fn view(&self) -> SpecClipEntry {
        SpecClipEntry { name: self.name@, animation: self.animation@ }
    }
}

/// The clip list seen mathematically.
pub open spec fn clips_view(cs: Seq<ClipEntry>) -> Seq<SpecClipEntry> {
    cs.map_values(|c: ClipEntry| c@)
}

/// The position of the first clip named `name`, scanning from `k`.
pub open spec fn find_clip(cs: Seq<SpecClipEntry>, name: Seq<u8>, k: int) -> Option<int>
    decreases cs.len() - k,
{
    if k < 0 || k >= cs.len() {
        None
    } else if cs[k].name == name {
        Some(k)
    } else {
        find_clip(cs, name, k + 1)
    }
}

/// An ASCII letter.
pub open spec fn is_alpha_byte(c: u8) -> bool {
    (0x41 <= c <= 0x5a) || (0x61 <= c <= 0x7a)
}

/// The clip key a pose label yields: the label with its trailing
/// non-alphabetic bytes stripped, so that poses numbered within one
/// animation share a key.
pub open spec fn clip_key(name: Seq<u8>) -> Seq<u8>
    decreases name.len(),
{
    if name.len() == 0 {
        name
    } else if is_alpha_byte(name.last()) {
        name
    } else {
        clip_key(name.drop_last())
    }
}

/// Strips trailing non-alphabetic bytes from a pose label.
pub fn clip_key_bytes(name: &Vec<u8>) -> (r: Vec<u8>)
    ensures
        r@ == clip_key(name@),
{
    let mut end: usize = name.len();
    proof {
        assert(name@.take(end as int) =~= name@);
    }
    while end > 0 && !(0x41 <= name[end - 1] && name[end - 1] <= 0x5a || 0x61 <= name[end - 1]
        && name[end - 1] <= 0x7a)
        invariant
            end <= name@.len(),
            clip_key(name@) == clip_key(name@.take(end as int)),
        decreases end,
    {
        proof {
            assert(name@.take(end as int).drop_last() =~= name@.take(end as int - 1));
        }
        end = end - 1;
    }
    proof {
        if end > 0 {
            assert(clip_key(name@.take(end as int)) == name@.take(end as int));
        }
    }
    copy_range(name, 0, end)
}

/// One labeled pose with its duration, as fed to the clip builder.
pub struct SpecPose {
    pub key: Seq<u8>,
    pub frame: crate::model::SpecFrame,
    pub duration_micros: u64,
}

/// The labeled poses one model keyframe contributes: a static keyframe its
/// single pose with the default duration, an animated keyframe each of its
/// timed poses.
pub open spec fn entries_of_kf(k: SpecKeyframe) -> Seq<SpecPose> {
    match k {
        SpecKeyframe::Static(f) => seq![
            SpecPose { key: clip_key(f.name), frame: f, duration_micros: DEFAULT_POSE_MICROS },
        ],
        SpecKeyframe::Animated { subframes, .. } => subframes.map_values(
            |sf: crate::model::SpecKeyframeFrame|
                SpecPose {
                    key: clip_key(sf.frame.name),
                    frame: sf.frame,
                    duration_micros: sf.duration_micros,
                },
        ),
    }
}

/// All labeled poses of a model's keyframes, in keyframe order.
pub open spec fn pose_entries(kfs: Seq<SpecKeyframe>) -> Seq<SpecPose>
    decreases kfs.len(),
{
    if kfs.len() == 0 {
        Seq::empty()
    } else {
        pose_entries(kfs.drop_last()) + entries_of_kf(kfs.last())
    }
}

/// Adds one keyframe under `key`: appended to the existing clip of that
/// name, or opening a new clip at the end of the list.
pub open spec fn insert_pose(
    cs: Seq<SpecClipEntry>,
    key: Seq<u8>,
    kf: SpecAnimKeyframe,
) -> Seq<SpecClipEntry> {
    match find_clip(cs, key, 0) {
        Some(i) => cs.update(
            i,
            SpecClipEntry { name: key, animation: cs[i].animation.push(kf) },
        ),
        None => cs.push(SpecClipEntry { name: key, animation: seq![kf] }),
    }
}

/// Folds labeled poses into clips, each pose's snapshot being the model's
/// assembled vertex stream for that pose.
pub open spec fn build_clips(m: SpecMdl, entries: Seq<SpecPose>) -> Seq<SpecClipEntry>
    decreases entries.len(),
{
    if entries.len() == 0 {
        Seq::empty()
    } else {
        let e = entries.last();
        insert_pose(
            build_clips(m, entries.drop_last()),
            e.key,
            SpecAnimKeyframe {
                vertices: mesh_vertices(m, e.frame),
                duration_micros: e.duration_micros,
            },
        )
    }
}

/// The clip library a model yields: its keyframes' poses grouped by clip
/// key, in first-appearance order, each clip's poses in model order.
pub open spec fn clips_of_mdl(m: SpecMdl) -> Seq<SpecClipEntry> {
    build_clips(m, pose_entries(m.keyframes))
}

/// Every animation the builder produces snapshots `n` vertices per
/// keyframe.
pub open spec fn clips_uniform(cs: Seq<SpecClipEntry>, n: int) -> bool {
    forall|ci: int, ki: int|
        0 <= ci < cs.len() && 0 <= ki < cs[ci].animation.len() ==> (#[trigger] cs[ci].animation[
            ki
        ]).vertices.len() == n
}

/// The built clips all snapshot the model's full triangle-exploded vertex
/// count, keyframe for keyframe.
proof fn lemma_build_clips_uniform(m: SpecMdl, entries: Seq<SpecPose>)
    ensures
        clips_uniform(build_clips(m, entries), 3 * m.triangles.len() as int),
    decreases entries.len(),
{
    if entries.len() > 0 {
        lemma_build_clips_uniform(m, entries.drop_last());
        let prev = build_clips(m, entries.drop_last());
        let e = entries.last();
        let kf = SpecAnimKeyframe {
            vertices: mesh_vertices(m, e.frame),
            duration_micros: e.duration_micros,
        };
        assert(kf.vertices.len() == 3 * m.triangles.len() as int);
        let cs = build_clips(m, entries);
        assert forall|ci: int, ki: int|
            0 <= ci < cs.len() && 0 <= ki < cs[ci].animation.len() implies (#[trigger] cs[ci]
            .animation[ki]).vertices.len() == 3 * m.triangles.len() as int by {
            match find_clip(prev, e.key, 0) {
                Some(i) => {
                    lemma_find_clip_found(prev, e.key, 0);
                    if ci == i {
                        if ki < prev[i].animation.len() {
                            assert((#[trigger] prev[i].animation[ki]).vertices.len() == 3
                                * m.triangles.len() as int);
                            assert(cs[ci].animation[ki] == prev[i].animation[ki]);
                        } else {
                            assert(cs[ci].animation[ki] == kf);
                        }
                    } else {
                        assert(cs[ci] == prev[ci]);
                        assert((#[trigger] prev[ci].animation[ki]).vertices.len() == 3
                            * m.triangles.len() as int);
                    }
                },
                None => {
                    if ci < prev.len() {
                        assert(cs[ci] == prev[ci]);
                        assert((#[trigger] prev[ci].animation[ki]).vertices.len() == 3
                            * m.triangles.len() as int);
                    } else {
                        assert(cs[ci].animation[ki] == kf);
                    }
                },
            }
        }
    }
}

/// A found clip index is in range and bears the name.
proof fn lemma_find_clip_found(cs: Seq<SpecClipEntry>, name: Seq<u8>, k: int)
    requires
        find_clip(cs, name, k) is Some,
    ensures
        ({
            let i = find_clip(cs, name, k).unwrap();
            &&& k <= i < cs.len()
            &&& cs[i].name == name
        }),
    decreases cs.len() - k,
{
    if 0 <= k < cs.len() && cs[k].name != name {
        lemma_find_clip_found(cs, name, k + 1);
    }
}

/// Finds the clip named `name` in a clip list.
fn find_clip_entry(clips: &Vec<ClipEntry>, name: &[u8]) -> (r: Option<usize>)
    ensures
        match find_clip(clips_view(clips@), name@, 0) {
            Some(ci) => r matches Some(i) && i == ci,
            None => r is None,
        },
{
    let ghost cs = clips_view(clips@);
    let n: usize = clips.len();
    let mut i: usize = 0;
    while i < n
        invariant
            n == clips@.len(),
            i <= n,
            cs == clips_view(clips@),
            find_clip(cs, name@, 0) == find_clip(cs, name@, i as int),
        decreases n - i,
    {
        if bytes_equal(&clips[i].name, name) {
            proof {
                assert(find_clip(cs, name@, i as int) == Some(i as int));
            }
            return Some(i);
        }
        i = i + 1;
    }
    None
}

/// Appends one labeled pose to a clip list in place.
fn push_pose(clips: &mut Vec<ClipEntry>, key: Vec<u8>, vertices: Vec<MeshVertex>, duration: u64)
    ensures
        clips_view(final(clips)@) == insert_pose(
            clips_view(old(clips)@),
            key@,
            SpecAnimKeyframe { vertices: vertices@, duration_micros: duration },
        ),
{
    let ghost kf = SpecAnimKeyframe { vertices: vertices@, duration_micros: duration };
    let ghost cs0 = clips_view(clips@);
    match find_clip_entry(clips, key.as_slice()) {
        Some(i) => {
            proof {
                lemma_find_clip_found(cs0, key@, 0);
            }
            let ghost pre = clips@;
            let mut entry: ClipEntry = clips.remove(i);
            entry.animation.add_keyframe(vertices, duration);
            clips.insert(i, entry);
            proof {
                assert(clips@ =~= pre.update(i as int, clips@[i as int]));
                assert(clips@[i as int].name@ == pre[i as int].name@);
                assert(clips@[i as int].animation@ == pre[i as int].animation@.push(kf));
                assert(clips_view(clips@) =~= insert_pose(cs0, key@, kf));
            }
        },
        None => {
            let mut animation = Animation::new();
            animation.add_keyframe(vertices, duration);
            proof {
                assert(animation@ =~= seq![kf]);
            }
            clips.push(ClipEntry { name: key, animation });
            proof {
                assert(clips_view(clips@) =~= insert_pose(cs0, key@, kf));
            }
        },
    }
}

/// The per-entity animation state: the clip library built from a model's
/// keyframes, and the name of the currently selected clip.
#[derive(Debug)]
pub struct KeyframeAnimationComponent {
    pub animations: Vec<ClipEntry>,
    pub current_animation: Option<Vec<u8>>,
}

impl KeyframeAnimationComponent {
    /// The clip library seen mathematically.
    pub open spec fn clips(&self) -> Seq<SpecClipEntry> {
        clips_view(self.animations@)
    }

    /// The selected clip name seen mathematically.
    pub open spec fn current(&self) -> Option<Seq<u8>> {
        match self.current_animation {
            Some(ref v) => Some(v@),
            None => None,
        }
    }

    /// Every clip's keyframes pair their vertices one to one.
    pub open spec fn wf(&self) -> bool {
        forall|ci: int|
            0 <= ci < self.clips().len() ==> anim_wf((#[trigger] self.clips()[ci]).animation)
    }

    /// An empty library with no clip selected.
    pub fn new() -> (r: KeyframeAnimationComponent)
        ensures
            r.clips().len() == 0,
            r.current() is None,
            r.wf(),
    {
        KeyframeAnimationComponent { animations: Vec::new(), current_animation: None }
    }

    /// Selects the clip named `name` for playback. Selection requires the
    /// clip to exist: when no clip bears the name, nothing changes and the
    /// selection is reported failed.
    pub fn select_animation(&mut self, name: &[u8]) -> (ok: bool)
        ensures
            final(self).clips() == old(self).clips(),
            ok == (find_clip(old(self).clips(), name@, 0) is Some),
            ok ==> final(self).current() == Some(name@),
            !ok ==> final(self).current() == old(self).current(),
    {
        match find_clip_entry(&self.animations, name) {
            Some(_) => {
                let mut copy: Vec<u8> = Vec::new();
                let m: usize = name.len();
                let mut k: usize = 0;
                while k < m
                    invariant
                        m == name@.len(),
                        k <= m,
                        copy@ =~= name@.take(k as int),
                    decreases m - k,
                {
                    copy.push(name[k]);
                    k = k + 1;
                }
                proof {
                    assert(copy@ =~= name@);
                }
                self.current_animation = Some(copy);
                true
            },
            None => false,
        }
    }

    /// The interpolated snapshot of the selected clip after `time_micros`
    /// of looping playback; nothing when no clip is selected, the selected
    /// name matches no clip, or the clip is empty.
    pub fn animate(&self, time_micros: u64) -> (r: Option<Vec<LerpVertex>>)
        requires
            self.wf(),
        ensures
            match self.current() {
                None => r is None,
                Some(nm) => match find_clip(self.clips(), nm, 0) {
                    None => r is None,
                    Some(ci) => {
                        let a = self.clips()[ci].animation;
                        if a.len() == 0 {
                            r is None
                        } else {
                            r matches Some(out) && out@ == animate_spec(a, time_micros)
                        }
                    },
                },
            },
    {
        let name: &Vec<u8> = match &self.current_animation {
            Some(v) => v,
            None => {
                return None;
            },
        };
        match find_clip_entry(&self.animations, name.as_slice()) {
            Some(i) => {
                proof {
                    lemma_find_clip_found(self.clips(), name@, 0);
                    assert(anim_wf(self.clips()[i as int].animation));
                    assert(self.clips()[i as int].animation == self.animations@[i as int]
                        .animation@);
                }
                self.animations[i].animation.animate(time_micros)
            },
            None => None,
        }
    }

    /// Builds the clip library of a model: every keyframe pose is assembled
    /// into its vertex stream and filed under the clip key of its label;
    /// the first clip, if any, starts selected.
    pub fn from_mdl(mdl: &Mdl) -> (r: KeyframeAnimationComponent)
        requires
            mdl.wf(),
        ensures
            r.clips() == clips_of_mdl(mdl@),
            r.wf(),
            clips_of_mdl(mdl@).len() == 0 ==> r.current() is None,
            clips_of_mdl(mdl@).len() > 0 ==> r.current() == Some(clips_of_mdl(mdl@)[0].name),
    {
        let mut clips: Vec<ClipEntry> = Vec::new();
        let nk: usize = mdl.keyframes.len();
        let mut i: usize = 0;
        while i < nk
            invariant
                mdl.wf(),
                nk == mdl.keyframes@.len(),
                i <= nk,
                clips_view(clips@) == build_clips(
                    mdl@,
                    pose_entries(mdl@.keyframes.take(i as int)),
                ),
            decreases nk - i,
        {
            let ghost taken = mdl@.keyframes.take(i as int);
            let ghost kv = mdl@.keyframes[i as int];
            proof {
                assert(crate::model::keyframe_ok(kv, mdl@.num_verts as int));
                assert(mdl@.keyframes.take(i as int + 1).drop_last() =~= taken);
                assert(mdl@.keyframes.take(i as int + 1).last() == kv);
            }
            match &mdl.keyframes[i] {
                crate::model::Keyframe::Static(kf) => {
                    let key = clip_key_bytes(&kf.0.name);
                    let verts = mdl.vertices(&kf.0);
                    push_pose(&mut clips, key, verts, DEFAULT_POSE_MICROS);
                    proof {
                        let entries = pose_entries(taken) + entries_of_kf(kv);
                        assert(entries.drop_last() =~= pose_entries(taken));
                        assert(pose_entries(mdl@.keyframes.take(i as int + 1)) == entries);
                        assert(clips_view(clips@) == build_clips(mdl@, entries));
                    }
                },
                crate::model::Keyframe::Animated(kf) => {
                    let ghost subs = entries_of_kf(kv);
                    let ns: usize = kf.subframes.len();
                    let mut k: usize = 0;
                    while k < ns
                        invariant
                            mdl.wf(),
                            nk == mdl.keyframes@.len(),
                            i < nk,
                            mdl@.keyframes[i as int] == kv,
                            kv matches SpecKeyframe::Animated { subframes, .. } && subframes
                                == kf.subframes@.map_values(
                                |f: crate::model::AnimatedKeyframeFrame| f@,
                            ),
                            crate::model::keyframe_ok(kv, mdl@.num_verts as int),
                            taken == mdl@.keyframes.take(i as int),
                            subs == entries_of_kf(kv),
                            ns == kf.subframes@.len(),
                            k <= ns,
                            subs.len() == ns,
                            clips_view(clips@) == build_clips(
                                mdl@,
                                pose_entries(taken) + subs.take(k as int),
                            ),
                        decreases ns - k,
                    {
                        let sub = &kf.subframes[k];
                        proof {
                            assert(subs[k as int] == (SpecPose {
                                key: clip_key(sub.frame@.name),
                                frame: sub.frame@,
                                duration_micros: sub.duration_micros,
                            }));
                        }
                        let key = clip_key_bytes(&sub.frame.name);
                        let verts = mdl.vertices(&sub.frame);
                        push_pose(&mut clips, key, verts, sub.duration_micros);
                        proof {
                            let entries = pose_entries(taken) + subs.take(k as int + 1);
                            assert(entries.drop_last() =~= pose_entries(taken) + subs.take(
                                k as int,
                            ));
                            assert(entries.last() == subs[k as int]);
                            assert(clips_view(clips@) == build_clips(mdl@, entries));
                        }
                        k = k + 1;
                    }
                    proof {
                        assert(subs.take(ns as int) =~= subs);
                        assert(pose_entries(mdl@.keyframes.take(i as int + 1)) == pose_entries(
                            taken,
                        ) + subs);
                    }
                },
            }
            i = i + 1;
        }
        proof {
            assert(mdl@.keyframes.take(nk as int) =~= mdl@.keyframes);
            lemma_build_clips_uniform(mdl@, pose_entries(mdl@.keyframes));
        }
        let current: Option<Vec<u8>> = if clips.len() > 0 {
            Some(copy_range(&clips[0].name, 0, clips[0].name.len()))
        } else {
            None
        };
        let r = KeyframeAnimationComponent { animations: clips, current_animation: current };
        proof {
            assert forall|ci: int| 0 <= ci < r.clips().len() implies anim_wf(
                (#[trigger] r.clips()[ci]).animation,
            ) by {
                assert(clips_uniform(r.clips(), 3 * mdl@.triangles.len() as int));
            }
            if r.clips().len() > 0 {
                assert(r.clips()[0].name =~= clips_of_mdl(mdl@)[0].name);
            }
        }
        r
    }
}

} // verus!
