use softrender::fp::{div_floor, isqrt, normalize3, Vec2, Vec3, DEPTH_FAR, FP_ONE};
use softrender::mesh::{Corner, Mesh, MeshError, Polygon};
use softrender::raster::{raster_triangle, ScreenVert};
use softrender::scene::{Scene, SceneError};
use softrender::shading::PipelineKind;
use softrender::texture::{Rgb, Texture, TextureError};

fn rgb(r: u8, g: u8, b: u8) -> Rgb {
    Rgb { r, g, b }
}

fn v3(x: i128, y: i128, z: i128) -> Vec3 {
    Vec3 { x, y, z }
}

fn solid_texture(w: usize, h: usize, c: Rgb) -> Texture {
    Texture::new(w, h, vec![c; w * h]).unwrap()
}

fn corner(i: usize) -> Corner {
    Corner { position: i, texcoord: 0, normal: 0 }
}

fn tri(a: usize, b: usize, c: usize) -> Polygon {
    Polygon { a: corner(a), b: corner(b), c: corner(c) }
}

/// A quad spanning the whole viewport at world z = 0, camera at (0, 0, 1).
fn fullscreen_quad_mesh(polygons: Vec<Polygon>) -> Mesh {
    let positions = vec![
        v3(-FP_ONE, -FP_ONE, 0),
        v3(FP_ONE, -FP_ONE, 0),
        v3(FP_ONE, FP_ONE, 0),
        v3(-FP_ONE, FP_ONE, 0),
    ];
    let texcoords = vec![Vec2 { x: 0, y: 0 }];
    let normals = vec![v3(0, 0, FP_ONE)];
    Mesh::new(positions, texcoords, normals, polygons).unwrap()
}

fn quad_scene(kind: PipelineKind, polygons: Vec<Polygon>, tex: Texture, size: usize) -> Scene {
    let mesh = fullscreen_quad_mesh(polygons);
    let mut scene = Scene::new(size, size, mesh, Some(tex), None, None, None, kind).unwrap();
    scene.set_camera(v3(0, 0, FP_ONE), v3(0, 0, 0), v3(0, FP_ONE, 0));
    scene
}

#[test]
fn test_div_floor_rounds_down() {
    assert_eq!(div_floor(7, 2), 3);
    assert_eq!(div_floor(-7, 2), -4);
    assert_eq!(div_floor(-8, 2), -4);
    assert_eq!(div_floor(0, 5), 0);
    assert_eq!(div_floor(65536, 65536), 1);
}

#[test]
fn test_isqrt_values() {
    assert_eq!(isqrt(0), 0);
    assert_eq!(isqrt(1), 1);
    assert_eq!(isqrt(10), 3);
    assert_eq!(isqrt(16), 4);
    assert_eq!(isqrt(65536 * 65536), 65536);
}

#[test]
fn test_normalize_three_four_five() {
    let n = normalize3(v3(3 * FP_ONE, 4 * FP_ONE, 0));
    assert_eq!(n.x, 3 * FP_ONE / 5);
    assert_eq!(n.y, 4 * FP_ONE / 5);
    assert_eq!(n.z, 0);
    let z = normalize3(v3(0, 0, 0));
    assert_eq!((z.x, z.y, z.z), (0, 0, 0));
}

#[test]
fn test_texture_new_errors() {
    assert_eq!(
        Texture::new(0, 4, vec![]).err().unwrap(),
        TextureError::EmptyDimension
    );
    assert_eq!(
        Texture::new(4, 0, vec![]).err().unwrap(),
        TextureError::EmptyDimension
    );
    assert_eq!(
        Texture::new(16385, 1, vec![]).err().unwrap(),
        TextureError::OversizedDimension
    );
    assert_eq!(
        Texture::new(2, 2, vec![rgb(1, 2, 3); 3]).err().unwrap(),
        TextureError::SampleCountMismatch
    );
    let t = Texture::new(2, 2, vec![rgb(1, 2, 3); 4]).unwrap();
    assert_eq!(t.width, 2);
    assert_eq!(t.height, 2);
}

#[test]
fn test_texture_sample_clamps_and_picks_nearest() {
    let t = Texture::new(
        2,
        2,
        vec![rgb(10, 0, 0), rgb(20, 0, 0), rgb(30, 0, 0), rgb(40, 0, 0)],
    )
    .unwrap();
    // Texel grid row-major: (0,0)=10, (1,0)=20, (0,1)=30, (1,1)=40.
    assert_eq!(t.sample(0, 0).r, 10);
    assert_eq!(t.sample(FP_ONE / 2, 0).r, 20);
    assert_eq!(t.sample(0, FP_ONE / 2).r, 30);
    assert_eq!(t.sample(FP_ONE / 2, FP_ONE / 2).r, 40);
    // Out-of-range coordinates clamp into [0, 1).
    assert_eq!(t.sample(-FP_ONE, -FP_ONE).r, 10);
    assert_eq!(t.sample(3 * FP_ONE, 3 * FP_ONE).r, 40);
}

#[test]
fn test_mesh_new_errors() {
    let good = Mesh::new(
        vec![v3(0, 0, 0)],
        vec![Vec2 { x: 0, y: 0 }],
        vec![v3(0, 0, FP_ONE)],
        vec![tri(0, 0, 0)],
    );
    assert!(good.is_ok());
    let bad_index = Mesh::new(
        vec![v3(0, 0, 0)],
        vec![Vec2 { x: 0, y: 0 }],
        vec![v3(0, 0, FP_ONE)],
        vec![tri(0, 0, 1)],
    );
    assert_eq!(bad_index.err().unwrap(), MeshError::IndexOutOfRange);
    let bad_coord = Mesh::new(
        vec![v3(1 << 40, 0, 0)],
        vec![Vec2 { x: 0, y: 0 }],
        vec![v3(0, 0, FP_ONE)],
        vec![],
    );
    assert_eq!(bad_coord.err().unwrap(), MeshError::CoordinateOutOfRange);
}

#[test]
fn test_scene_new_errors() {
    let mesh = fullscreen_quad_mesh(vec![tri(0, 1, 2)]);
    let tex = solid_texture(1, 1, rgb(255, 0, 0));
    let r = Scene::new(0, 8, fullscreen_quad_mesh(vec![]), Some(tex), None, None, None, PipelineKind::FlatUnlit);
    assert_eq!(r.err().unwrap(), SceneError::ZeroDimension);
    let tex = solid_texture(1, 1, rgb(255, 0, 0));
    let r = Scene::new(20000, 8, fullscreen_quad_mesh(vec![]), Some(tex), None, None, None, PipelineKind::FlatUnlit);
    assert_eq!(r.err().unwrap(), SceneError::OversizedDimension);
    let r = Scene::new(8, 8, fullscreen_quad_mesh(vec![]), None, None, None, None, PipelineKind::FlatUnlit);
    assert_eq!(r.err().unwrap(), SceneError::MissingTexture);
    let tex = solid_texture(1, 1, rgb(255, 0, 0));
    assert!(Scene::new(8, 8, mesh, Some(tex), None, None, None, PipelineKind::FlatUnlit).is_ok());
}

#[test]
fn test_clear_resets_color_and_depth() {
    let tex = solid_texture(1, 1, rgb(255, 0, 0));
    let mut scene = quad_scene(PipelineKind::FlatUnlit, vec![tri(0, 1, 2), tri(0, 2, 3)], tex, 8);
    scene.clear();
    scene.render();
    // The render painted something.
    assert!(scene.get_z_buffer().iter().any(|&d| d != DEPTH_FAR));
    scene.clear();
    for px in scene.get_frame_buffer() {
        assert_eq!((px.r, px.g, px.b), (0, 0, 0));
    }
    for d in scene.get_z_buffer() {
        assert_eq!(*d, DEPTH_FAR);
    }
    for d in scene.get_shadow_buffer() {
        assert_eq!(*d, DEPTH_FAR);
    }
}

#[test]
fn test_flat_fullscreen_quad_uniform() {
    let tex = solid_texture(1, 1, rgb(255, 0, 0));
    let mut scene = quad_scene(PipelineKind::FlatUnlit, vec![tri(0, 1, 2), tri(0, 2, 3)], tex, 8);
    scene.clear();
    scene.render();
    for px in scene.get_frame_buffer() {
        assert_eq!((px.r, px.g, px.b), (255, 0, 0));
    }
    for d in scene.get_z_buffer() {
        assert_eq!(*d, FP_ONE);
    }
    let bytes = scene.frame_buffer_bytes();
    assert_eq!(bytes.len(), 3 * 8 * 8);
    for chunk in 0..64 {
        assert_eq!(bytes[3 * chunk], 255);
        assert_eq!(bytes[3 * chunk + 1], 0);
        assert_eq!(bytes[3 * chunk + 2], 0);
    }
}

#[test]
fn test_gouraud_perpendicular_light_black() {
    let tex = solid_texture(1, 1, rgb(255, 200, 100));
    let mut scene = quad_scene(PipelineKind::Gouraud, vec![tri(0, 1, 2), tri(0, 2, 3)], tex, 8);
    scene.set_light_direction(v3(FP_ONE, 0, 0));
    scene.clear();
    scene.render();
    for px in scene.get_frame_buffer() {
        assert_eq!((px.r, px.g, px.b), (0, 0, 0));
    }
    // Fragments were still written: the depth buffer holds the quad depth.
    for d in scene.get_z_buffer() {
        assert_eq!(*d, FP_ONE);
    }
}

#[test]
fn test_gouraud_head_on_light_full_brightness() {
    let tex = solid_texture(1, 1, rgb(200, 100, 50));
    let mut scene = quad_scene(PipelineKind::Gouraud, vec![tri(0, 1, 2), tri(0, 2, 3)], tex, 8);
    scene.set_light_direction(v3(0, 0, FP_ONE));
    scene.clear();
    scene.render();
    for px in scene.get_frame_buffer() {
        assert_eq!((px.r, px.g, px.b), (200, 100, 50));
    }
}

#[test]
fn test_render_twice_is_idempotent() {
    let tex = solid_texture(1, 1, rgb(12, 34, 56));
    let mut scene = quad_scene(PipelineKind::FlatUnlit, vec![tri(0, 1, 2), tri(0, 2, 3)], tex, 8);
    scene.clear();
    scene.render();
    let frame_once: Vec<Rgb> = scene.get_frame_buffer().clone();
    let depth_once: Vec<i128> = scene.get_z_buffer().clone();
    scene.render();
    assert_eq!(scene.get_frame_buffer().len(), frame_once.len());
    for i in 0..frame_once.len() {
        assert_eq!(scene.get_frame_buffer()[i], frame_once[i]);
        assert_eq!(scene.get_z_buffer()[i], depth_once[i]);
    }
}

#[test]
fn test_mirror_winding_same_fragments() {
    let tex = solid_texture(1, 1, rgb(9, 9, 9));
    let mut a = quad_scene(PipelineKind::FlatUnlit, vec![tri(0, 1, 2)], tex, 8);
    a.clear();
    a.render();
    let tex = solid_texture(1, 1, rgb(9, 9, 9));
    let mut b = quad_scene(PipelineKind::FlatUnlit, vec![tri(0, 2, 1)], tex, 8);
    b.clear();
    b.render();
    for i in 0..64 {
        assert_eq!(a.get_frame_buffer()[i], b.get_frame_buffer()[i]);
        assert_eq!(a.get_z_buffer()[i], b.get_z_buffer()[i]);
    }
}

#[test]
fn test_shared_edge_claimed_exactly_once() {
    let tex = solid_texture(1, 1, rgb(1, 1, 1));
    let mut first = quad_scene(PipelineKind::FlatUnlit, vec![tri(0, 1, 2)], tex, 8);
    first.clear();
    first.render();
    let tex = solid_texture(1, 1, rgb(1, 1, 1));
    let mut second = quad_scene(PipelineKind::FlatUnlit, vec![tri(0, 2, 3)], tex, 8);
    second.clear();
    second.render();
    let mut painted = 0;
    for i in 0..64 {
        let in_first = first.get_z_buffer()[i] != DEPTH_FAR;
        let in_second = second.get_z_buffer()[i] != DEPTH_FAR;
        // Every pixel of the full-viewport quad belongs to exactly one of the
        // two triangles: no gaps and no double paint along the diagonal.
        assert!(in_first != in_second, "pixel {} painted {} times", i, (in_first as u32) + (in_second as u32));
        painted += 1;
    }
    assert_eq!(painted, 64);
}

#[test]
fn test_perspective_correct_uv_interpolation() {
    // A triangle spanning pixels (0,0)..(100,0)..(0,100); its left vertex sits
    // at depth 1 (q = FP_ONE) and its right vertex four times farther
    // (q = FP_ONE / 4). At the screen midpoint of the bottom edge the
    // analytically correct perspective-divided u is
    //   (0.5 * 0 * 1 + 0.5 * 1 * 1/4) / (0.5 * 1 + 0.5 * 1/4) = 1/5,
    // not the screen-linear 1/2.
    let mut fb = vec![Rgb { r: 0, g: 0, b: 0 }; 100];
    let mut zb = vec![DEPTH_FAR; 100];
    let texels: Vec<Rgb> = (0..10).map(|i| rgb(10 * i as u8, 0, 0)).collect();
    let tex = Texture::new(10, 1, texels).unwrap();
    let v0 = ScreenVert { x: 0, y: 0, z: FP_ONE, q: FP_ONE, u: 0, v: 0, shade: FP_ONE };
    let v1 = ScreenVert { x: 100, y: 0, z: 4 * FP_ONE, q: FP_ONE / 4, u: FP_ONE, v: 0, shade: FP_ONE };
    let v2 = ScreenVert { x: 0, y: 100, z: FP_ONE, q: FP_ONE, u: 0, v: 0, shade: FP_ONE };
    raster_triangle(&mut fb, &mut zb, 100, 1, v0, v1, v2, PipelineKind::FlatUnlit, &tex);
    // u at pixel 50 is 1/5 in fixed point (13107), so texel 1 of 10; the
    // screen-linear value 1/2 would have sampled texel 5.
    assert_eq!(fb[50].r, 10);
    // Depth interpolates screen-linearly: halfway between 1 and 4.
    assert_eq!(zb[50], (FP_ONE + 4 * FP_ONE) / 2);
}

#[test]
fn test_quad_behind_camera_is_culled() {
    let positions = vec![
        v3(-FP_ONE, -FP_ONE, 2 * FP_ONE),
        v3(FP_ONE, -FP_ONE, 2 * FP_ONE),
        v3(FP_ONE, FP_ONE, 2 * FP_ONE),
    ];
    let mesh = Mesh::new(
        positions,
        vec![Vec2 { x: 0, y: 0 }],
        vec![v3(0, 0, FP_ONE)],
        vec![tri(0, 1, 2)],
    )
    .unwrap();
    let tex = solid_texture(1, 1, rgb(255, 0, 0));
    let mut scene = Scene::new(8, 8, mesh, Some(tex), None, None, None, PipelineKind::FlatUnlit).unwrap();
    scene.set_camera(v3(0, 0, FP_ONE), v3(0, 0, 0), v3(0, FP_ONE, 0));
    scene.clear();
    scene.render();
    for d in scene.get_z_buffer() {
        assert_eq!(*d, DEPTH_FAR);
    }
}

#[test]
fn test_degenerate_triangle_writes_nothing() {
    let tex = solid_texture(1, 1, rgb(255, 0, 0));
    // All three corners at the same position: zero screen-space area.
    let mut scene = quad_scene(PipelineKind::FlatUnlit, vec![tri(0, 0, 0)], tex, 8);
    scene.clear();
    scene.render();
    for d in scene.get_z_buffer() {
        assert_eq!(*d, DEPTH_FAR);
    }
    for px in scene.get_frame_buffer() {
        assert_eq!((px.r, px.g, px.b), (0, 0, 0));
    }
}

#[test]
fn test_nearer_triangle_wins_depth_test() {
    // Two full-viewport quads at different depths, drawn far-then-near and
    // near-then-far: the near one must win in both orders.
    let positions = vec![
        v3(-FP_ONE, -FP_ONE, 0),
        v3(FP_ONE, -FP_ONE, 0),
        v3(FP_ONE, FP_ONE, 0),
        v3(-FP_ONE, FP_ONE, 0),
        v3(-2 * FP_ONE, -2 * FP_ONE, -FP_ONE),
        v3(2 * FP_ONE, -2 * FP_ONE, -FP_ONE),
        v3(2 * FP_ONE, 2 * FP_ONE, -FP_ONE),
        v3(-2 * FP_ONE, 2 * FP_ONE, -FP_ONE),
    ];
    // The far quad (world z = -1, twice the size so it still fills the view)
    // is red; the near quad (world z = 0) is green.
    let texcoords = vec![Vec2 { x: 0, y: 0 }, Vec2 { x: FP_ONE / 2, y: 0 }];
    let normals = vec![v3(0, 0, FP_ONE)];
    let far_first = vec![
        // far quad first
        Polygon { a: Corner { position: 4, texcoord: 1, normal: 0 }, b: Corner { position: 5, texcoord: 1, normal: 0 }, c: Corner { position: 6, texcoord: 1, normal: 0 } },
        Polygon { a: Corner { position: 4, texcoord: 1, normal: 0 }, b: Corner { position: 6, texcoord: 1, normal: 0 }, c: Corner { position: 7, texcoord: 1, normal: 0 } },
        // near quad second
        tri(0, 1, 2),
        tri(0, 2, 3),
    ];
    let mesh = Mesh::new(positions, texcoords, normals, far_first).unwrap();
    let tex = Texture::new(2, 1, vec![rgb(0, 255, 0), rgb(255, 0, 0)]).unwrap();
    let mut scene = Scene::new(8, 8, mesh, Some(tex), None, None, None, PipelineKind::FlatUnlit).unwrap();
    scene.set_camera(v3(0, 0, FP_ONE), v3(0, 0, 0), v3(0, FP_ONE, 0));
    scene.clear();
    scene.render();
    for px in scene.get_frame_buffer() {
        assert_eq!((px.r, px.g, px.b), (0, 255, 0));
    }
    for d in scene.get_z_buffer() {
        assert_eq!(*d, FP_ONE);
    }
}
