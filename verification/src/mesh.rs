use crate::model::{Frame, Mdl, QuantizedPos, SkinCoord, SpecFrame, SpecMdl, Triangle, triangle_ok};
use vstd::prelude::*;

verus! {

// The vertex assembler: for a chosen pose it produces one output vertex per
// triangle corner, three per triangle with no sharing. Everything it
// computes is exact integer data:
//
// - the position stays quantized; the renderer applies scale and origin;
// - the flat normal is the cross product of the two triangle edge vectors
//   taken in quantized space. The renderer turns it into the world-space
//   normal by scaling each component with the product of the other two
//   axes' scale factors and normalizing: with per-axis scale s and
//   quantized cross c, the unnormalized world normal is
//   (s.y*s.z*c.x, s.z*s.x*c.y, s.x*s.y*c.z);
// - the texture coordinate is an exact rational: with skin width w, the
//   classic `s = (s_texel + [w/2 if seam] + 0.5) / w` becomes the
//   numerator `2*s_texel + [w if seam] + 1` over the denominator `2*w`,
//   and likewise for t.

/// A flat normal in quantized space: the cross product of two triangle
/// edge vectors whose components are differences of quantized bytes.
#[derive(Clone, Copy, Debug, PartialEq, Eq, Structural)]
pub struct FlatNormal {
    pub x: i32,
    pub y: i32,
    pub z: i32,
}

/// One assembled vertex: quantized position, the triangle's flat normal in
/// quantized space, and the exact texture coordinate as numerator over
/// denominator.
#[derive(Clone, Copy, Debug, PartialEq, Eq, Structural)]
pub struct MeshVertex {
    pub position: QuantizedPos,
    pub normal: FlatNormal,
    pub s_num: i64,
    pub s_den: u64,
    pub t_num: i64,
    pub t_den: u64,
}

/// The cross product `(p0 - p1) x (p2 - p1)` in quantized space. Each
/// component difference lies in -255 ..= 255, so each product fits easily
/// in 32 bits.
pub open spec fn cross_of(p0: QuantizedPos, p1: QuantizedPos, p2: QuantizedPos) -> FlatNormal {
    FlatNormal {
        x: ((p0.y - p1.y) * (p2.z - p1.z) - (p0.z - p1.z) * (p2.y - p1.y)) as i32,
        y: ((p0.z - p1.z) * (p2.x - p1.x) - (p0.x - p1.x) * (p2.z - p1.z)) as i32,
        z: ((p0.x - p1.x) * (p2.y - p1.y) - (p0.y - p1.y) * (p2.x - p1.x)) as i32,
    }
}

/// The s texcoord numerator over the denominator `2 * w`: seam correction
/// adds the half-width offset exactly when the vertex sits on the seam and
/// the triangle does not face front.
pub open spec fn s_numer(c: SkinCoord, faces_front: bool, w: u32) -> int {
    if c.is_on_seam && !faces_front {
        2 * c.s + w + 1
    } else {
        2 * c.s + 1
    }
}

/// The t texcoord numerator over the denominator `2 * h`.
pub open spec fn t_numer(c: SkinCoord) -> int {
    2 * c.t + 1
}

/// Seam correction applies exactly to an on-seam vertex of a triangle that
/// does not face front: its s numerator then carries the half-width offset
/// (w over the common denominator 2*w, that is one half of the skin width
/// after division by w); in a front-facing triangle the same vertex's s
/// numerator carries no offset.
pub proof fn lemma_seam_correction(c: SkinCoord, w: u32)
    requires
        c.is_on_seam,
    ensures
        s_numer(c, false, w) == s_numer(c, true, w) + w,
        s_numer(c, true, w) == 2 * c.s + 1,
{
}

/// The vertex index of corner `j` of a triangle.
pub open spec fn corner_index(t: Triangle, j: int) -> u32 {
    if j == 0 {
        t.v0
    } else if j == 1 {
        t.v1
    } else {
        t.v2
    }
}

/// The assembled vertex for corner `j` of triangle `k` of a model, posed
/// by frame `f`. All three corners of one triangle share one normal.
pub open spec fn mesh_vertex(m: SpecMdl, f: SpecFrame, k: int, j: int) -> MeshVertex {
    let t = m.triangles[k];
    let idx = corner_index(t, j) as int;
    let c = m.skin_coords[idx];
    MeshVertex {
        position: f.vertices[idx],
        normal: cross_of(
            f.vertices[t.v0 as int],
            f.vertices[t.v1 as int],
            f.vertices[t.v2 as int],
        ),
        s_num: s_numer(c, t.faces_front, m.skin_width) as i64,
        s_den: (2 * m.skin_width) as u64,
        t_num: t_numer(c) as i64,
        t_den: (2 * m.skin_height) as u64,
    }
}

/// The whole triangle-exploded vertex stream for a pose: three vertices
/// per triangle, in triangle order.
pub open spec fn mesh_vertices(m: SpecMdl, f: SpecFrame) -> Seq<MeshVertex> {
    Seq::new((3 * m.triangles.len()) as nat, |i: int| mesh_vertex(m, f, i / 3, i % 3))
}

/// Computes the quantized-space cross product of a triangle's edge vectors.
fn cross_exec(p0: QuantizedPos, p1: QuantizedPos, p2: QuantizedPos) -> (r: FlatNormal)
    ensures
        r == cross_of(p0, p1, p2),
{
    let ax: i32 = p0.x as i32 - p1.x as i32;
    let ay: i32 = p0.y as i32 - p1.y as i32;
    let az: i32 = p0.z as i32 - p1.z as i32;
    let bx: i32 = p2.x as i32 - p1.x as i32;
    let by: i32 = p2.y as i32 - p1.y as i32;
    let bz: i32 = p2.z as i32 - p1.z as i32;
    proof {
        assert(-65025 <= ay * bz <= 65025 && -65025 <= az * by <= 65025 && -65025 <= az * bx
            <= 65025 && -65025 <= ax * bz <= 65025 && -65025 <= ax * by <= 65025 && -65025 <= ay
            * bx <= 65025) by (nonlinear_arith)
            requires
                -255 <= ay <= 255,
                -255 <= az <= 255,
                -255 <= ax <= 255,
                -255 <= bx <= 255,
                -255 <= by <= 255,
                -255 <= bz <= 255,
        ;
    }
    FlatNormal { x: ay * bz - az * by, y: az * bx - ax * bz, z: ax * by - ay * bx }
}

impl Mdl {
    /// Produces the triangle-exploded vertex stream for a chosen pose: the
    /// non-indexed draw contract. Each triangle contributes its three
    /// corners in order, all three sharing the triangle's flat normal, with
    /// seam-corrected exact texture coordinates.
    pub fn vertices(&self, frame: &Frame) -> (r: Vec<MeshVertex>)
        requires
            self.wf(),
            frame@.vertices.len() == self@.num_verts,
        ensures
            r@ == mesh_vertices(self@, frame@),
            r@.len() == 3 * self@.triangles.len(),
    {
        let n: usize = self.triangles.len();
        let mut r: Vec<MeshVertex> = Vec::new();
        let mut i: usize = 0;
        while i < n
            invariant
                self.wf(),
                frame@.vertices.len() == self@.num_verts,
                n == self.triangles@.len(),
                i <= n,
                r@.len() == 3 * i,
                forall|q: int| 0 <= q < 3 * i ==> #[trigger] r@[q] == mesh_vertex(
                    self@,
                    frame@,
                    q / 3,
                    q % 3,
                ),
            decreases n - i,
        {
            let t = &self.triangles[i];
            proof {
                assert(triangle_ok(self@.triangles[i as int], self@.num_verts as int));
            }
            let i0: usize = t.v0 as usize;
            let i1: usize = t.v1 as usize;
            let i2: usize = t.v2 as usize;
            let normal: FlatNormal = cross_exec(
                frame.vertices[i0],
                frame.vertices[i1],
                frame.vertices[i2],
            );
            let w: u32 = self.skin_width;
            let h: u32 = self.skin_height;
            let s_den: u64 = 2 * (w as u64);
            let t_den: u64 = 2 * (h as u64);
            let ghost pre = r@;
            let mut j: usize = 0;
            while j < 3
                invariant
                    self.wf(),
                    frame@.vertices.len() == self@.num_verts,
                    n == self.triangles@.len(),
                    i < n,
                    *t == self.triangles@[i as int],
                    i0 == t.v0 && i1 == t.v1 && i2 == t.v2,
                    normal == cross_of(
                        frame@.vertices[t.v0 as int],
                        frame@.vertices[t.v1 as int],
                        frame@.vertices[t.v2 as int],
                    ),
                    w == self.skin_width,
                    h == self.skin_height,
                    s_den == 2 * w as int,
                    t_den == 2 * h as int,
                    j <= 3,
                    r@.len() == 3 * i + j,
                    pre == r@.take(3 * i as int),
                    forall|q: int| 3 * i <= q < 3 * i + j ==> #[trigger] r@[q] == mesh_vertex(
                        self@,
                        frame@,
                        i as int,
                        q - 3 * i,
                    ),
                    forall|q: int| 0 <= q < 3 * i ==> #[trigger] r@[q] == mesh_vertex(
                        self@,
                        frame@,
                        q / 3,
                        q % 3,
                    ),
                decreases 3 - j,
            {
                let idx: usize = if j == 0 {
                    i0
                } else if j == 1 {
                    i1
                } else {
                    i2
                };
                proof {
                    assert(triangle_ok(self@.triangles[i as int], self@.num_verts as int));
                    assert(idx == corner_index(self@.triangles[i as int], j as int));
                }
                let c: SkinCoord = self.skin_coords[idx];
                let s_num: i64 = if c.is_on_seam && !t.faces_front {
                    2 * (c.s as i64) + (w as i64) + 1
                } else {
                    2 * (c.s as i64) + 1
                };
                let t_num: i64 = 2 * (c.t as i64) + 1;
                r.push(
                    MeshVertex {
                        position: frame.vertices[idx],
                        normal,
                        s_num,
                        s_den,
                        t_num,
                        t_den,
                    },
                );
                j = j + 1;
            }
            i = i + 1;
            proof {
                assert forall|q: int| 0 <= q < 3 * i implies #[trigger] r@[q] == mesh_vertex(
                    self@,
                    frame@,
                    q / 3,
                    q % 3,
                ) by {
                    if q >= 3 * (i - 1) {
                        assert(q / 3 == i - 1 && q % 3 == q - 3 * (i - 1)) by (nonlinear_arith)
                            requires
                                3 * (i - 1) <= q < 3 * i,
                        ;
                    }
                }
            }
        }
        proof {
            assert(r@ =~= mesh_vertices(self@, frame@));
        }
        r
    }
}

} // verus!
