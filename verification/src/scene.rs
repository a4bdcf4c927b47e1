//! The scene: owns the per-frame buffers, the camera and light setup, and
//! drives the per-frame pipeline (clear, transform, rasterize, publish).

use vstd::prelude::*;
use vstd::arithmetic::div_mod::lemma_div_basics_3;
use vstd::arithmetic::div_mod::lemma_div_is_ordered_by_denominator;
use vstd::arithmetic::div_mod::lemma_div_nonincreasing;
use crate::fp::{
    clampi, clamp_i128, cross3, cross3i, div_floor, dot3, dot3i, lemma_mul_bound, norm3i,
    normalize3, sub3, sub3i, v3, vec3_bounded, Vec3, COORD_BOUND, DEPTH_FAR, FAR_PLANE, FP_ONE,
    MAX_DIM, SCREEN_GUARD,
};
use crate::mesh::{corner_ok, Corner, Mesh};
use crate::raster::{
    raster_color_target, raster_depth_target, raster_triangle, sv_wf, ScreenVert, Q_MAX,
};
use crate::shading::PipelineKind;
use crate::texture::{rgb_black, Rgb, Texture};

verus! {

/// Run parameters of the enclosing application: output size, whether to
/// print frame statistics, where the assets live and which shader pipeline
/// to build the scene with.
pub struct Params {
    pub width: u32,
    pub height: u32,
    pub print_fps: bool,
    pub asset_path: String,
    pub shader_pipeline_name: &'static str,
}

#[derive(Clone, Copy, PartialEq, Eq, Structural, Debug)]
pub enum SceneError {
    /// A zero width or height was requested.
    ZeroDimension,
    /// A dimension beyond the supported maximum was requested.
    OversizedDimension,
    /// A texture map that the chosen pipeline needs was not supplied.
    MissingTexture,
}

/// Bound applied to camera-space coordinates (2^49).
pub const CAM_BOUND: i128 = 562949953421312;

/// Bound applied to normalized-device coordinates (2^52).
pub const NDC_BOUND: i128 = 4503599627370496;

/// The scene: mesh and texture maps, the selected shader pipeline, the
/// camera and light state, and the per-frame colour/depth/shadow buffers.
pub struct Scene {
    pub width: usize,
    pub height: usize,
    pub mesh: Mesh,
    pub diffuse: Texture,
    pub normal_map: Option<Texture>,
    pub normal_map_tangent: Option<Texture>,
    pub specular_map: Option<Texture>,
    pub kind: PipelineKind,
    pub frame: Vec<Rgb>,
    pub depth: Vec<i128>,
    pub shadow: Vec<i128>,
    pub eye: Vec3,
    pub axis_x: Vec3,
    pub axis_y: Vec3,
    pub axis_z: Vec3,
    pub light: Vec3,
}

/// The mesh, texture, pipeline choice and output size agree between two
/// scene states.
pub open spec fn same_setup(a: Scene, b: Scene) -> bool {
    &&& a.width == b.width
    &&& a.height == b.height
    &&& a.mesh == b.mesh
    &&& a.diffuse == b.diffuse
    &&& a.normal_map == b.normal_map
    &&& a.normal_map_tangent == b.normal_map_tangent
    &&& a.specular_map == b.specular_map
    &&& a.kind == b.kind
}

/// The camera and light agree between two scene states.
pub open spec fn same_view(a: Scene, b: Scene) -> bool {
    &&& a.eye == b.eye
    &&& a.axis_x == b.axis_x
    &&& a.axis_y == b.axis_y
    &&& a.axis_z == b.axis_z
    &&& a.light == b.light
}

/// The three buffers agree between two scene states.
pub open spec fn same_buffers(a: Scene, b: Scene) -> bool {
    &&& a.frame@ == b.frame@
    &&& a.depth@ == b.depth@
    &&& a.shadow@ == b.shadow@
}

/// The view basis vector pointing from the look-at point to the camera.
pub open spec fn camera_z(look_from: Vec3, look_at: Vec3) -> (int, int, int) {
    norm3i(sub3i(v3(look_from), v3(look_at)))
}

/// The view basis vector pointing to the camera's right.
pub open spec fn camera_x(look_from: Vec3, look_at: Vec3, up: Vec3) -> (int, int, int) {
    norm3i(cross3i(v3(up), camera_z(look_from, look_at)))
}

/// The view basis vector pointing up on screen: the cross product of the
/// other two unit axes, rescaled out of fixed point.
pub open spec fn camera_y(look_from: Vec3, look_at: Vec3, up: Vec3) -> (int, int, int) {
    let c = cross3i(camera_z(look_from, look_at), camera_x(look_from, look_at, up));
    (
        clampi(c.0 / (FP_ONE as int), -FP_ONE as int, FP_ONE as int),
        clampi(c.1 / (FP_ONE as int), -FP_ONE as int, FP_ONE as int),
        clampi(c.2 / (FP_ONE as int), -FP_ONE as int, FP_ONE as int),
    )
}

impl Scene {
    /// Well-formed scene state.
    pub open spec fn wf(self) -> bool {
        &&& 1 <= self.width <= MAX_DIM
        &&& 1 <= self.height <= MAX_DIM
        &&& self.frame@.len() == self.width * self.height
        &&& self.depth@.len() == self.width * self.height
        &&& self.shadow@.len() == self.width * self.height
        &&& self.mesh.wf()
        &&& self.diffuse.wf()
        &&& (self.normal_map is Some ==> self.normal_map->0.wf())
        &&& (self.normal_map_tangent is Some ==> self.normal_map_tangent->0.wf())
        &&& (self.specular_map is Some ==> self.specular_map->0.wf())
        &&& vec3_bounded(self.eye, COORD_BOUND as int)
        &&& vec3_bounded(self.axis_x, FP_ONE as int)
        &&& vec3_bounded(self.axis_y, FP_ONE as int)
        &&& vec3_bounded(self.axis_z, FP_ONE as int)
        &&& vec3_bounded(self.light, FP_ONE as int)
    }
}

/// Camera-space x coordinate of a world point (clamped into the working
/// range).
pub open spec fn cam_x(s: Scene, p: Vec3) -> int {
    clampi(
        dot3i(v3(s.axis_x), sub3i(v3(p), v3(s.eye))) / (FP_ONE as int),
        -CAM_BOUND as int,
        CAM_BOUND as int,
    )
}

pub open spec fn cam_y(s: Scene, p: Vec3) -> int {
    clampi(
        dot3i(v3(s.axis_y), sub3i(v3(p), v3(s.eye))) / (FP_ONE as int),
        -CAM_BOUND as int,
        CAM_BOUND as int,
    )
}

pub open spec fn cam_z(s: Scene, p: Vec3) -> int {
    clampi(
        dot3i(v3(s.axis_z), sub3i(v3(p), v3(s.eye))) / (FP_ONE as int),
        -CAM_BOUND as int,
        CAM_BOUND as int,
    )
}

/// Camera-space distance in front of the camera (the camera looks along the
/// negative z axis of its basis).
pub open spec fn cam_w(s: Scene, p: Vec3) -> int {
    -cam_z(s, p)
}

/// Perspective division: normalized device x coordinate in fixed point.
pub open spec fn ndc_x(s: Scene, p: Vec3) -> int {
    if cam_w(s, p) < 1 {
        0
    } else {
        clampi(cam_x(s, p) * (FP_ONE as int) / cam_w(s, p), -NDC_BOUND as int, NDC_BOUND as int)
    }
}

pub open spec fn ndc_y(s: Scene, p: Vec3) -> int {
    if cam_w(s, p) < 1 {
        0
    } else {
        clampi(cam_y(s, p) * (FP_ONE as int) / cam_w(s, p), -NDC_BOUND as int, NDC_BOUND as int)
    }
}

/// Viewport transform: `[-1, 1]` maps onto `[0, width]` in pixels.
pub open spec fn screen_x(s: Scene, p: Vec3) -> int {
    (ndc_x(s, p) + FP_ONE as int) * (s.width as int) / (2 * FP_ONE as int)
}

/// Viewport transform: `[-1, 1]` maps onto `[0, height]` in pixels.
pub open spec fn screen_y(s: Scene, p: Vec3) -> int {
    (ndc_y(s, p) + FP_ONE as int) * (s.height as int) / (2 * FP_ONE as int)
}

/// The perspective weight carried into interpolation: `FP_ONE^2` over the
/// camera distance.
pub open spec fn vert_q(s: Scene, p: Vec3) -> int {
    if cam_w(s, p) < 1 {
        0
    } else {
        (FP_ONE as int) * (FP_ONE as int) / cam_w(s, p)
    }
}

/// The per-vertex lighting intensity of the selected pipeline: flat shading
/// ignores lighting, Gouraud takes the clamped dot product of the normalized
/// vertex normal with the light direction.
pub open spec fn vertex_shade(s: Scene, n: Vec3) -> int {
    match s.kind {
        PipelineKind::FlatUnlit => FP_ONE as int,
        PipelineKind::Gouraud => clampi(
            dot3i(norm3i(v3(n)), v3(s.light)) / (FP_ONE as int),
            0,
            FP_ONE as int,
        ),
    }
}

/// The screen-space vertex the vertex stage produces for one polygon corner.
pub open spec fn vertex_out(s: Scene, c: Corner) -> ScreenVert {
    let p = s.mesh.positions@[c.position as int];
    let tc = s.mesh.texcoords@[c.texcoord as int];
    let n = s.mesh.normals@[c.normal as int];
    ScreenVert {
        x: screen_x(s, p) as i128,
        y: screen_y(s, p) as i128,
        z: cam_w(s, p) as i128,
        q: vert_q(s, p) as i128,
        u: tc.x,
        v: tc.y,
        shade: vertex_shade(s, n) as i128,
    }
}

/// Whether a corner survives culling: it must lie between the near and far
/// planes and project inside the screen guard band.
pub open spec fn vertex_valid(s: Scene, c: Corner) -> bool {
    let p = s.mesh.positions@[c.position as int];
    &&& 1 <= cam_w(s, p) <= FAR_PLANE
    &&& -SCREEN_GUARD as int <= screen_x(s, p) <= SCREEN_GUARD as int
    &&& -SCREEN_GUARD as int <= screen_y(s, p) <= SCREEN_GUARD as int
}

/// The screen-space triangle of polygon `k`.
pub open spec fn poly_screen(s: Scene, k: int) -> (ScreenVert, ScreenVert, ScreenVert) {
    let q = s.mesh.polygons@[k];
    (vertex_out(s, q.a), vertex_out(s, q.b), vertex_out(s, q.c))
}

/// Whether polygon `k` is rasterized at all.
pub open spec fn poly_visible(s: Scene, k: int) -> bool {
    let q = s.mesh.polygons@[k];
    vertex_valid(s, q.a) && vertex_valid(s, q.b) && vertex_valid(s, q.c)
}

/// One step of the per-frame pipeline: rasterize polygon `k` into the given
/// buffers, or leave them alone if the polygon is culled.
pub open spec fn render_step(s: Scene, fb: Seq<Rgb>, zb: Seq<i128>, k: int) -> (
    Seq<Rgb>,
    Seq<i128>,
) {
    if poly_visible(s, k) {
        (
            raster_color_target(fb, zb, s.width as int, poly_screen(s, k), s.kind, s.diffuse),
            raster_depth_target(zb, s.width as int, poly_screen(s, k)),
        )
    } else {
        (fb, zb)
    }
}

/// The buffers after rasterizing the first `k` polygons in order.
pub open spec fn render_upto(s: Scene, fb0: Seq<Rgb>, zb0: Seq<i128>, k: int) -> (
    Seq<Rgb>,
    Seq<i128>,
)
    decreases k,
{
    if k <= 0 {
        (fb0, zb0)
    } else {
        let prev = render_upto(s, fb0, zb0, k - 1);
        render_step(s, prev.0, prev.1, k - 1)
    }
}

fn filled_rgb(n: usize, value: Rgb) -> (v: Vec<Rgb>)
    ensures
        v@.len() == n,
        forall|i: int| 0 <= i < n ==> v@[i] == value,
{
    let mut v: Vec<Rgb> = Vec::new();
    while v.len() < n
        invariant
            v@.len() <= n,
            forall|i: int| 0 <= i < v@.len() ==> v@[i] == value,
        decreases n - v@.len(),
    {
        v.push(value);
    }
    v
}

fn filled_i128(n: usize, value: i128) -> (v: Vec<i128>)
    ensures
        v@.len() == n,
        forall|i: int| 0 <= i < n ==> v@[i] == value,
{
    let mut v: Vec<i128> = Vec::new();
    while v.len() < n
        invariant
            v@.len() <= n,
            forall|i: int| 0 <= i < v@.len() ==> v@[i] == value,
        decreases n - v@.len(),
    {
        v.push(value);
    }
    v
}

impl Scene {
    /// Build a scene: allocate the buffers at the requested resolution (all
    /// cleared), bind the pipeline variant, and store mesh and textures.
    /// Fails iff the resolution is unusable or the diffuse map, which every
    /// supported pipeline samples, is missing.
    pub fn new(
        width: usize,
        height: usize,
        mesh: Mesh,
        diffuse: Option<Texture>,
        normal_map: Option<Texture>,
        normal_map_tangent: Option<Texture>,
        specular_map: Option<Texture>,
        kind: PipelineKind,
    ) -> (r: Result<Scene, SceneError>)
        requires
            mesh.wf(),
            diffuse is Some ==> diffuse->0.wf(),
            normal_map is Some ==> normal_map->0.wf(),
            normal_map_tangent is Some ==> normal_map_tangent->0.wf(),
            specular_map is Some ==> specular_map->0.wf(),
        ensures
            r is Ok <==> (1 <= width <= MAX_DIM && 1 <= height <= MAX_DIM && diffuse is Some),
            r == Err::<Scene, SceneError>(SceneError::ZeroDimension) <==> (width == 0 || height
                == 0),
            r == Err::<Scene, SceneError>(SceneError::OversizedDimension) <==> (width >= 1
                && height >= 1 && (width > MAX_DIM || height > MAX_DIM)),
            r == Err::<Scene, SceneError>(SceneError::MissingTexture) <==> (1 <= width <= MAX_DIM
                && 1 <= height <= MAX_DIM && diffuse is None),
            r is Ok ==> {
                let s = r.unwrap();
                &&& s.wf()
                &&& s.width == width
                &&& s.height == height
                &&& s.mesh == mesh
                &&& s.diffuse == diffuse->0
                &&& s.normal_map == normal_map
                &&& s.normal_map_tangent == normal_map_tangent
                &&& s.specular_map == specular_map
                &&& s.kind == kind
                &&& forall|i: int|
                    0 <= i < width * height ==> #[trigger] s.frame@[i] == rgb_black()
                &&& forall|i: int| 0 <= i < width * height ==> #[trigger] s.depth@[i] == DEPTH_FAR
                &&& forall|i: int| 0 <= i < width * height ==> #[trigger] s.shadow@[i] == DEPTH_FAR
                &&& s.eye == (Vec3 { x: 0, y: 0, z: 0 })
                &&& s.axis_x == (Vec3 { x: FP_ONE, y: 0, z: 0 })
                &&& s.axis_y == (Vec3 { x: 0, y: FP_ONE, z: 0 })
                &&& s.axis_z == (Vec3 { x: 0, y: 0, z: FP_ONE })
                &&& s.light == (Vec3 { x: 0, y: 0, z: 0 })
            },
    {
        if width == 0 || height == 0 {
            return Err(SceneError::ZeroDimension);
        }
        if width > MAX_DIM || height > MAX_DIM {
            return Err(SceneError::OversizedDimension);
        }
        let diffuse_map = match diffuse {
            Some(t) => t,
            None => { return Err(SceneError::MissingTexture); },
        };
        proof {
            lemma_mul_bound(width as int, height as int, MAX_DIM as int, MAX_DIM as int);
        }
        let total = width * height;
        let frame = filled_rgb(total, Rgb { r: 0, g: 0, b: 0 });
        let depth = filled_i128(total, DEPTH_FAR);
        let shadow = filled_i128(total, DEPTH_FAR);
        Ok(
            Scene {
                width,
                height,
                mesh,
                diffuse: diffuse_map,
                normal_map,
                normal_map_tangent,
                specular_map,
                kind,
                frame,
                depth,
                shadow,
                eye: Vec3 { x: 0, y: 0, z: 0 },
                axis_x: Vec3 { x: FP_ONE, y: 0, z: 0 },
                axis_y: Vec3 { x: 0, y: FP_ONE, z: 0 },
                axis_z: Vec3 { x: 0, y: 0, z: FP_ONE },
                light: Vec3 { x: 0, y: 0, z: 0 },
            },
        )
    }

    /// Reset the colour buffer to black and the depth and shadow buffers to
    /// the far sentinel; nothing else changes. Must be called before every
    /// frame that should not accumulate onto the previous one.
    pub fn clear(&mut self)
        requires
            old(self).wf(),
        ensures
            final(self).wf(),
            same_setup(*final(self), *old(self)),
            same_view(*final(self), *old(self)),
            final(self).frame@.len() == old(self).frame@.len(),
            final(self).depth@.len() == old(self).depth@.len(),
            final(self).shadow@.len() == old(self).shadow@.len(),
            forall|i: int|
                0 <= i < final(self).frame@.len() ==> #[trigger] final(self).frame@[i]
                    == rgb_black(),
            forall|i: int|
                0 <= i < final(self).depth@.len() ==> #[trigger] final(self).depth@[i]
                    == DEPTH_FAR,
            forall|i: int|
                0 <= i < final(self).shadow@.len() ==> #[trigger] final(self).shadow@[i]
                    == DEPTH_FAR,
    {
        let ghost s0 = *self;
        let n = self.frame.len();
        let mut i: usize = 0;
        while i < n
            invariant
                same_setup(*self, s0),
                same_view(*self, s0),
                i <= n,
                self.frame@.len() == n,
                self.depth@.len() == n,
                self.shadow@.len() == n,
                n == s0.frame@.len(),
                s0.depth@.len() == n,
                s0.shadow@.len() == n,
                forall|j: int| 0 <= j < i ==> #[trigger] self.frame@[j] == rgb_black(),
                forall|j: int| 0 <= j < i ==> #[trigger] self.depth@[j] == DEPTH_FAR,
                forall|j: int| 0 <= j < i ==> #[trigger] self.shadow@[j] == DEPTH_FAR,
            decreases n - i,
        {
            self.frame.set(i, Rgb { r: 0, g: 0, b: 0 });
            self.depth.set(i, DEPTH_FAR);
            self.shadow.set(i, DEPTH_FAR);
            i += 1;
        }
    }

    /// Store the light direction, normalized defensively; the direction
    /// points from the surface towards the light source.
    pub fn set_light_direction(&mut self, direction: Vec3)
        requires
            old(self).wf(),
            vec3_bounded(direction, COORD_BOUND as int),
        ensures
            final(self).wf(),
            same_setup(*final(self), *old(self)),
            same_buffers(*final(self), *old(self)),
            final(self).eye == old(self).eye,
            final(self).axis_x == old(self).axis_x,
            final(self).axis_y == old(self).axis_y,
            final(self).axis_z == old(self).axis_z,
            v3(final(self).light) == norm3i(v3(direction)),
    {
        self.light = normalize3(direction);
    }

    /// Recompute the view basis for the upcoming frame from a look-from
    /// point, a look-at point and an up vector.
    pub fn set_camera(&mut self, look_from: Vec3, look_at: Vec3, up: Vec3)
        requires
            old(self).wf(),
            vec3_bounded(look_from, COORD_BOUND as int),
            vec3_bounded(look_at, COORD_BOUND as int),
            vec3_bounded(up, COORD_BOUND as int),
        ensures
            final(self).wf(),
            same_setup(*final(self), *old(self)),
            same_buffers(*final(self), *old(self)),
            final(self).light == old(self).light,
            final(self).eye == look_from,
            v3(final(self).axis_z) == camera_z(look_from, look_at),
            v3(final(self).axis_x) == camera_x(look_from, look_at, up),
            v3(final(self).axis_y) == camera_y(look_from, look_at, up),
    {
        let zax = normalize3(sub3(look_from, look_at));
        let xraw = cross3(up, zax);
        proof {
            crate::fp::lemma_cross_bound(up, zax, COORD_BOUND as int, FP_ONE as int);
        }
        let xax = normalize3(xraw);
        let yraw = cross3(zax, xax);
        proof {
            crate::fp::lemma_cross_bound(zax, xax, FP_ONE as int, FP_ONE as int);
        }
        let yax = Vec3 {
            x: clamp_i128(div_floor(yraw.x, FP_ONE), -FP_ONE, FP_ONE),
            y: clamp_i128(div_floor(yraw.y, FP_ONE), -FP_ONE, FP_ONE),
            z: clamp_i128(div_floor(yraw.z, FP_ONE), -FP_ONE, FP_ONE),
        };
        self.eye = look_from;
        self.axis_x = xax;
        self.axis_y = yax;
        self.axis_z = zax;
    }

    /// The vertex stage for one polygon corner: transform to camera space,
    /// cull against the near/far planes and the screen guard band, project,
    /// and attach the varyings. Returns the screen vertex, or nothing if the
    /// corner's triangle is culled.
    fn process_vertex(&self, c: Corner) -> (r: Option<ScreenVert>)
        requires
            self.wf(),
            corner_ok(
                c,
                self.mesh.positions@.len() as int,
                self.mesh.texcoords@.len() as int,
                self.mesh.normals@.len() as int,
            ),
        ensures
            r is Some <==> vertex_valid(*self, c),
            r is Some ==> r->0 == vertex_out(*self, c) && sv_wf(r->0),
    {
        let p = self.mesh.positions[c.position];
        proof {
            assert(vec3_bounded(self.mesh.positions@[c.position as int], COORD_BOUND as int));
        }
        let d = sub3(p, self.eye);
        proof {
            crate::fp::lemma_dot_bound(self.axis_x, d, FP_ONE as int, 2 * COORD_BOUND as int);
            crate::fp::lemma_dot_bound(self.axis_y, d, FP_ONE as int, 2 * COORD_BOUND as int);
            crate::fp::lemma_dot_bound(self.axis_z, d, FP_ONE as int, 2 * COORD_BOUND as int);
        }
        let cx = clamp_i128(div_floor(dot3(self.axis_x, d), FP_ONE), -CAM_BOUND, CAM_BOUND);
        let cy = clamp_i128(div_floor(dot3(self.axis_y, d), FP_ONE), -CAM_BOUND, CAM_BOUND);
        let cz = clamp_i128(div_floor(dot3(self.axis_z, d), FP_ONE), -CAM_BOUND, CAM_BOUND);
        let w = -cz;
        if w < 1 || w > FAR_PLANE {
            return None;
        }
        proof {
            lemma_mul_bound(cx as int, FP_ONE as int, CAM_BOUND as int, FP_ONE as int);
            lemma_mul_bound(cy as int, FP_ONE as int, CAM_BOUND as int, FP_ONE as int);
        }
        let nx = clamp_i128(div_floor(cx * FP_ONE, w), -NDC_BOUND, NDC_BOUND);
        let ny = clamp_i128(div_floor(cy * FP_ONE, w), -NDC_BOUND, NDC_BOUND);
        proof {
            lemma_mul_bound(
                (nx + FP_ONE) as int,
                self.width as int,
                NDC_BOUND as int + FP_ONE as int,
                MAX_DIM as int,
            );
            lemma_mul_bound(
                (ny + FP_ONE) as int,
                self.height as int,
                NDC_BOUND as int + FP_ONE as int,
                MAX_DIM as int,
            );
        }
        let sx = div_floor((nx + FP_ONE) * (self.width as i128), 2 * FP_ONE);
        let sy = div_floor((ny + FP_ONE) * (self.height as i128), 2 * FP_ONE);
        if sx < -SCREEN_GUARD || sx > SCREEN_GUARD || sy < -SCREEN_GUARD || sy > SCREEN_GUARD {
            return None;
        }
        let q = div_floor(FP_ONE * FP_ONE, w);
        proof {
            lemma_div_is_ordered_by_denominator(
                FP_ONE as int * FP_ONE as int,
                w as int,
                FP_ONE as int * FP_ONE as int,
            );
            lemma_div_basics_3(FP_ONE as int * FP_ONE as int);
            lemma_div_nonincreasing(FP_ONE as int * FP_ONE as int, w as int);
        }
        let tc = self.mesh.texcoords[c.texcoord];
        proof {
            assert(-(crate::fp::UV_BOUND as int) <= self.mesh.texcoords@[c.texcoord as int].x
                <= crate::fp::UV_BOUND as int && -(crate::fp::UV_BOUND as int)
                <= self.mesh.texcoords@[c.texcoord as int].y <= crate::fp::UV_BOUND as int);
        }
        let n = self.mesh.normals[c.normal];
        proof {
            assert(vec3_bounded(self.mesh.normals@[c.normal as int], COORD_BOUND as int));
        }
        let shade: i128 = match self.kind {
            PipelineKind::FlatUnlit => FP_ONE,
            PipelineKind::Gouraud => {
                let nh = normalize3(n);
                proof {
                    crate::fp::lemma_dot_bound(nh, self.light, FP_ONE as int, FP_ONE as int);
                }
                clamp_i128(div_floor(dot3(nh, self.light), FP_ONE), 0, FP_ONE)
            },
        };
        Some(ScreenVert { x: sx, y: sy, z: w, q, u: tc.x, v: tc.y, shade })
    }

    /// Render the mesh: for each polygon in order, run the vertex stage on
    /// its three corners, cull it if any corner fails, and otherwise
    /// rasterize it into the colour and depth buffers.
    pub fn render(&mut self)
        requires
            old(self).wf(),
        ensures
            final(self).wf(),
            same_setup(*final(self), *old(self)),
            same_view(*final(self), *old(self)),
            final(self).shadow@ == old(self).shadow@,
            ({
                let r = render_upto(
                    *old(self),
                    old(self).frame@,
                    old(self).depth@,
                    old(self).mesh.polygons@.len() as int,
                );
                final(self).frame@ == r.0 && final(self).depth@ == r.1
            }),
    {
        let ghost s0 = *self;
        let n = self.mesh.polygons.len();
        let mut k: usize = 0;
        while k < n
            invariant
                s0.wf(),
                same_setup(*self, s0),
                same_view(*self, s0),
                self.shadow@ == s0.shadow@,
                k <= n,
                n == s0.mesh.polygons@.len(),
                self.frame@.len() == s0.frame@.len(),
                self.depth@.len() == s0.depth@.len(),
                (self.frame@, self.depth@) == render_upto(s0, s0.frame@, s0.depth@, k as int),
            decreases n - k,
        {
            let poly = self.mesh.polygons[k];
            let va = self.process_vertex(poly.a);
            let vb = self.process_vertex(poly.b);
            let vc = self.process_vertex(poly.c);
            proof {
                assert(vertex_out(*self, poly.a) == vertex_out(s0, poly.a));
                assert(vertex_out(*self, poly.b) == vertex_out(s0, poly.b));
                assert(vertex_out(*self, poly.c) == vertex_out(s0, poly.c));
                assert(vertex_valid(*self, poly.a) == vertex_valid(s0, poly.a));
                assert(vertex_valid(*self, poly.b) == vertex_valid(s0, poly.b));
                assert(vertex_valid(*self, poly.c) == vertex_valid(s0, poly.c));
            }
            match (va, vb, vc) {
                (Some(a), Some(b), Some(c)) => {
                    let width = self.width;
                    let height = self.height;
                    let kind = self.kind;
                    proof {
                        assert(poly_visible(s0, k as int));
                        assert((a, b, c) == poly_screen(s0, k as int));
                    }
                    raster_triangle(
                        &mut self.frame,
                        &mut self.depth,
                        width,
                        height,
                        a,
                        b,
                        c,
                        kind,
                        &self.diffuse,
                    );
                },
                _ => {
                    proof {
                        assert(!poly_visible(s0, k as int));
                    }
                },
            }
            k += 1;
        }
    }

    /// Read-only view of the colour buffer, valid until the next clear.
    pub fn get_frame_buffer(&self) -> (r: &Vec<Rgb>)
        ensures
            r@ == self.frame@,
    {
        &self.frame
    }

    /// Read-only view of the depth buffer.
    pub fn get_z_buffer(&self) -> (r: &Vec<i128>)
        ensures
            r@ == self.depth@,
    {
        &self.depth
    }

    /// Read-only view of the (unused in this pipeline set) shadow buffer.
    pub fn get_shadow_buffer(&self) -> (r: &Vec<i128>)
        ensures
            r@ == self.shadow@,
    {
        &self.shadow
    }

    /// The colour buffer flattened to row-major RGB8 bytes for display.
    pub fn frame_buffer_bytes(&self) -> (r: Vec<u8>)
        requires
            self.wf(),
        ensures
            r@.len() == 3 * self.frame@.len(),
            forall|i: int|
                0 <= i < self.frame@.len() ==> r@[3 * i] == #[trigger] self.frame@[i].r,
            forall|i: int|
                0 <= i < self.frame@.len() ==> r@[3 * i + 1] == #[trigger] self.frame@[i].g,
            forall|i: int|
                0 <= i < self.frame@.len() ==> r@[3 * i + 2] == #[trigger] self.frame@[i].b,
    {
        let mut out: Vec<u8> = Vec::new();
        let n = self.frame.len();
        let mut i: usize = 0;
        while i < n
            invariant
                i <= n,
                n == self.frame@.len(),
                out@.len() == 3 * i,
                forall|j: int| 0 <= j < i ==> out@[3 * j] == #[trigger] self.frame@[j].r,
                forall|j: int| 0 <= j < i ==> out@[3 * j + 1] == #[trigger] self.frame@[j].g,
                forall|j: int| 0 <= j < i ==> out@[3 * j + 2] == #[trigger] self.frame@[j].b,
            decreases n - i,
        {
            let px = self.frame[i];
            let ghost prev = out@;
            out.push(px.r);
            out.push(px.g);
            out.push(px.b);
            proof {
                assert(forall|m: int| 0 <= m < prev.len() ==> #[trigger] out@[m] == prev[m]);
                assert(out@[3 * (i as int)] == self.frame@[i as int].r);
                assert(out@[3 * (i as int) + 1] == self.frame@[i as int].g);
                assert(out@[3 * (i as int) + 2] == self.frame@[i as int].b);
            }
            i += 1;
        }
        proof {
            assert(forall|j: int|
                0 <= j < self.frame@.len() ==> out@[3 * j] == #[trigger] self.frame@[j].r);
            assert(forall|j: int|
                0 <= j < self.frame@.len() ==> out@[3 * j + 1] == #[trigger] self.frame@[j].g);
            assert(forall|j: int|
                0 <= j < self.frame@.len() ==> out@[3 * j + 2] == #[trigger] self.frame@[j].b);
        }
        out
    }
}

} // verus!
