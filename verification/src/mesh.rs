//! Mesh data: vertex positions, texture coordinates, normals, and polygons
//! holding indices into those attribute arrays.

use vstd::prelude::*;
use crate::fp::{Vec2, Vec3, COORD_BOUND, UV_BOUND};

verus! {

/// One polygon corner: indices into the mesh attribute arrays.
#[derive(Clone, Copy, PartialEq, Eq, Structural, Debug)]
pub struct Corner {
    pub position: usize,
    pub texcoord: usize,
    pub normal: usize,
}

/// A triangle of corners.
#[derive(Clone, Copy, PartialEq, Eq, Structural, Debug)]
pub struct Polygon {
    pub a: Corner,
    pub b: Corner,
    pub c: Corner,
}

#[derive(Clone, Copy, PartialEq, Eq, Structural, Debug)]
pub enum MeshError {
    /// Some attribute value lies outside the supported coordinate range.
    CoordinateOutOfRange,
    /// Some polygon corner indexes past the end of an attribute array.
    IndexOutOfRange,
}

/// An immutable triangle mesh, loaded once and borrowed read-only while
/// rendering.
pub struct Mesh {
    pub positions: Vec<Vec3>,
    pub texcoords: Vec<Vec2>,
    pub normals: Vec<Vec3>,
    pub polygons: Vec<Polygon>,
}

pub open spec fn corner_ok(
    c: Corner,
    n_positions: int,
    n_texcoords: int,
    n_normals: int,
) -> bool {
    &&& (c.position as int) < n_positions
    &&& (c.texcoord as int) < n_texcoords
    &&& (c.normal as int) < n_normals
}

pub open spec fn positions_ok(positions: Seq<Vec3>) -> bool {
    forall|i: int|
        0 <= i < positions.len() ==> #[trigger] crate::fp::vec3_bounded(
            positions[i],
            COORD_BOUND as int,
        )
}

pub open spec fn texcoords_ok(texcoords: Seq<Vec2>) -> bool {
    forall|i: int|
        0 <= i < texcoords.len() ==> (-(UV_BOUND as int) <= #[trigger] texcoords[i].x
            <= UV_BOUND as int && -(UV_BOUND as int) <= texcoords[i].y <= UV_BOUND as int)
}

pub open spec fn normals_ok(normals: Seq<Vec3>) -> bool {
    forall|i: int|
        0 <= i < normals.len() ==> #[trigger] crate::fp::vec3_bounded(
            normals[i],
            COORD_BOUND as int,
        )
}

pub open spec fn polygons_ok(
    polygons: Seq<Polygon>,
    n_positions: int,
    n_texcoords: int,
    n_normals: int,
) -> bool {
    forall|i: int|
        0 <= i < polygons.len() ==> (corner_ok(
            #[trigger] polygons[i].a,
            n_positions,
            n_texcoords,
            n_normals,
        ) && corner_ok(polygons[i].b, n_positions, n_texcoords, n_normals) && corner_ok(
            polygons[i].c,
            n_positions,
            n_texcoords,
            n_normals,
        ))
}

impl Mesh {
    /// Well-formed: every attribute value in range, every polygon index valid.
    pub open spec fn wf(self) -> bool {
        &&& positions_ok(self.positions@)
        &&& texcoords_ok(self.texcoords@)
        &&& normals_ok(self.normals@)
        &&& polygons_ok(
            self.polygons@,
            self.positions@.len() as int,
            self.texcoords@.len() as int,
            self.normals@.len() as int,
        )
    }

    /// Build a mesh, validating attribute ranges first and index validity
    /// second.
    pub fn new(
        positions: Vec<Vec3>,
        texcoords: Vec<Vec2>,
        normals: Vec<Vec3>,
        polygons: Vec<Polygon>,
    ) -> (r: Result<Mesh, MeshError>)
        ensures
            r is Ok <==> (positions_ok(positions@) && texcoords_ok(texcoords@) && normals_ok(
                normals@,
            ) && polygons_ok(
                polygons@,
                positions@.len() as int,
                texcoords@.len() as int,
                normals@.len() as int,
            )),
            r == Err::<Mesh, MeshError>(MeshError::CoordinateOutOfRange) <==> !(positions_ok(
                positions@,
            ) && texcoords_ok(texcoords@) && normals_ok(normals@)),
            r == Err::<Mesh, MeshError>(MeshError::IndexOutOfRange) <==> (positions_ok(positions@)
                && texcoords_ok(texcoords@) && normals_ok(normals@) && !polygons_ok(
                polygons@,
                positions@.len() as int,
                texcoords@.len() as int,
                normals@.len() as int,
            )),
            r is Ok ==> r.unwrap() == (Mesh { positions, texcoords, normals, polygons })
                && r.unwrap().wf(),
    {
        let mut i: usize = 0;
        let n = positions.len();
        while i < n
            invariant
                i <= n,
                n == positions@.len(),
                forall|j: int|
                    0 <= j < i ==> #[trigger] crate::fp::vec3_bounded(
                        positions@[j],
                        COORD_BOUND as int,
                    ),
            decreases n - i,
        {
            let p = positions[i];
            if p.x < -COORD_BOUND || p.x > COORD_BOUND || p.y < -COORD_BOUND || p.y > COORD_BOUND
                || p.z < -COORD_BOUND || p.z > COORD_BOUND {
                assert(!crate::fp::vec3_bounded(positions@[i as int], COORD_BOUND as int));
                return Err(MeshError::CoordinateOutOfRange);
            }
            i += 1;
        }
        let mut i: usize = 0;
        let n = texcoords.len();
        while i < n
            invariant
                i <= n,
                n == texcoords@.len(),
                forall|j: int|
                    0 <= j < i ==> (-(UV_BOUND as int) <= #[trigger] texcoords@[j].x
                        <= UV_BOUND as int && -(UV_BOUND as int) <= texcoords@[j].y
                        <= UV_BOUND as int),
            decreases n - i,
        {
            let t = texcoords[i];
            if t.x < -UV_BOUND || t.x > UV_BOUND || t.y < -UV_BOUND || t.y > UV_BOUND {
                assert(!(-(UV_BOUND as int) <= texcoords@[i as int].x <= UV_BOUND as int && -(
                UV_BOUND as int) <= texcoords@[i as int].y <= UV_BOUND as int));
                return Err(MeshError::CoordinateOutOfRange);
            }
            i += 1;
        }
        let mut i: usize = 0;
        let n = normals.len();
        while i < n
            invariant
                i <= n,
                n == normals@.len(),
                forall|j: int|
                    0 <= j < i ==> #[trigger] crate::fp::vec3_bounded(
                        normals@[j],
                        COORD_BOUND as int,
                    ),
            decreases n - i,
        {
            let p = normals[i];
            if p.x < -COORD_BOUND || p.x > COORD_BOUND || p.y < -COORD_BOUND || p.y > COORD_BOUND
                || p.z < -COORD_BOUND || p.z > COORD_BOUND {
                assert(!crate::fp::vec3_bounded(normals@[i as int], COORD_BOUND as int));
                return Err(MeshError::CoordinateOutOfRange);
            }
            i += 1;
        }
        let np = positions.len();
        let nt = texcoords.len();
        let nn = normals.len();
        let mut i: usize = 0;
        let n = polygons.len();
        while i < n
            invariant
                i <= n,
                n == polygons@.len(),
                np == positions@.len(),
                nt == texcoords@.len(),
                nn == normals@.len(),
                positions_ok(positions@),
                texcoords_ok(texcoords@),
                normals_ok(normals@),
                forall|j: int|
                    0 <= j < i ==> (corner_ok(
                        #[trigger] polygons@[j].a,
                        np as int,
                        nt as int,
                        nn as int,
                    ) && corner_ok(polygons@[j].b, np as int, nt as int, nn as int) && corner_ok(
                        polygons@[j].c,
                        np as int,
                        nt as int,
                        nn as int,
                    )),
            decreases n - i,
        {
            let q = polygons[i];
            if q.a.position >= np || q.a.texcoord >= nt || q.a.normal >= nn || q.b.position >= np
                || q.b.texcoord >= nt || q.b.normal >= nn || q.c.position >= np || q.c.texcoord
                >= nt || q.c.normal >= nn {
                assert(!(corner_ok(polygons@[i as int].a, np as int, nt as int, nn as int)
                    && corner_ok(polygons@[i as int].b, np as int, nt as int, nn as int)
                    && corner_ok(polygons@[i as int].c, np as int, nt as int, nn as int)));
                return Err(MeshError::IndexOutOfRange);
            }
            proof {
                assert forall|j: int| 0 <= j < i as int + 1 implies (corner_ok(
                    #[trigger] polygons@[j].a,
                    np as int,
                    nt as int,
                    nn as int,
                ) && corner_ok(polygons@[j].b, np as int, nt as int, nn as int) && corner_ok(
                    polygons@[j].c,
                    np as int,
                    nt as int,
                    nn as int,
                )) by {
                    if j == i as int {
                        assert(polygons@[j] == q);
                    }
                }
            }
            i += 1;
        }
        Ok(Mesh { positions, texcoords, normals, polygons })
    }
}

} // verus!
