//! The payload decoder registry: maps every tag to a decoder.
//!
//! The mapping is total: each known leaf tag has its specific decoder, the
//! root marker decodes to an empty container payload, and every other tag
//! falls back to the empty `Skip` container payload, so no tag value can
//! make a decode fail by itself.
use crate::bytes::DecodeError;
use crate::chunks::{
    decode_collisionvec, decode_cylinder, decode_intersect, decode_obbox, decode_sphere,
    decode_wall, spec_collisionvec_payload, spec_cylinder_payload, spec_intersect_payload,
    spec_obbox_payload, spec_sphere_payload, spec_wall_payload, CollisionVec, Cylinder, Fence,
    Intersect, IntersectModel, Matrix3f, OBbox, P3d, Skip, Sphere, Vec3f, Wall, COLLISIONVEC,
    CYLINDER, FENCE, INTERSECT, LOCATOR, OBBOX, P3D, SPHERE,
};
use crate::triggers::{decode_locator, spec_locator_payload, Locator, LocatorModel};
use vstd::prelude::*;

verus! {

/// One decoded chunk payload: the closed union of the known tags plus the
/// open `Skip` fallback for every unrecognized tag.
#[derive(Debug, PartialEq, Eq)]
pub enum Chunk {
    P3d(P3d),
    Fence(Wall),
    OBbox(OBbox, Vec3f, Matrix3f),
    Sphere(Sphere, Vec3f),
    Cylinder(Cylinder),
    CollisionVec(CollisionVec),
    Intersect(Intersect),
    Locator(Locator),
    Skip(Skip),
}

/// The mathematical image of a `Chunk`.
pub ghost enum ChunkModel {
    P3d,
    Fence(Wall),
    OBbox(OBbox, Vec3f, Matrix3f),
    Sphere(Sphere, Vec3f),
    Cylinder(Cylinder),
    CollisionVec(CollisionVec),
    Intersect(IntersectModel),
    Locator(LocatorModel),
    Skip,
}

impl Chunk {
    pub open spec fn model(self) -> ChunkModel {
        match self {
            Chunk::P3d(_) => ChunkModel::P3d,
            Chunk::Fence(w) => ChunkModel::Fence(w),
            Chunk::OBbox(o, p, m) => ChunkModel::OBbox(o, p, m),
            Chunk::Sphere(s, p) => ChunkModel::Sphere(s, p),
            Chunk::Cylinder(c) => ChunkModel::Cylinder(c),
            Chunk::CollisionVec(v) => ChunkModel::CollisionVec(v),
            Chunk::Intersect(i) => ChunkModel::Intersect(i.model()),
            Chunk::Locator(l) => ChunkModel::Locator(l.model()),
            Chunk::Skip(_) => ChunkModel::Skip,
        }
    }
}

impl Clone for Chunk {
    fn clone(&self) -> (r: Self)
        ensures
            r.model() == self.model(),
    {
        match self {
            Chunk::P3d(p) => Chunk::P3d(*p),
            Chunk::Fence(w) => Chunk::Fence(*w),
            Chunk::OBbox(o, p, m) => Chunk::OBbox(*o, *p, *m),
            Chunk::Sphere(s, p) => Chunk::Sphere(*s, *p),
            Chunk::Cylinder(c) => Chunk::Cylinder(*c),
            Chunk::CollisionVec(v) => Chunk::CollisionVec(*v),
            Chunk::Intersect(i) => Chunk::Intersect(i.clone()),
            Chunk::Locator(l) => Chunk::Locator(l.clone()),
            Chunk::Skip(s) => Chunk::Skip(*s),
        }
    }
}

/// Whether a tag names one of the catalog's specific decoders.
pub open spec fn spec_is_known_tag(tag: u32) -> bool {
    tag == P3D || tag == FENCE || tag == OBBOX || tag == SPHERE || tag == CYLINDER || tag
        == COLLISIONVEC || tag == INTERSECT || tag == LOCATOR
}

/// Whether a chunk with this tag may own nested child chunks.  Only the
/// root marker and the fallback are containers; every specific geometry or
/// locator tag is a leaf.
pub open spec fn spec_is_container(tag: u32) -> bool {
    tag == P3D || !spec_is_known_tag(tag)
}

/// Classifies a tag as container or leaf.
pub fn is_container(tag: u32) -> (r: bool)
    ensures
        r == spec_is_container(tag),
{
    tag == P3D || !(tag == FENCE || tag == OBBOX || tag == SPHERE || tag == CYLINDER || tag
        == COLLISIONVEC || tag == INTERSECT || tag == LOCATOR)
}

/// The default (all-zero, empty) payload value a tag maps to before any
/// bytes are read.
pub open spec fn spec_default_chunk(tag: u32) -> ChunkModel {
    if tag == P3D {
        ChunkModel::P3d
    } else if tag == FENCE {
        ChunkModel::Fence(Wall { start: zero_vec3(), end: zero_vec3(), normal: zero_vec3() })
    } else if tag == OBBOX {
        ChunkModel::OBbox(
            OBbox { l1: 0, l2: 0, l3: 0 },
            zero_vec3(),
            Matrix3f {
                r0: Vec3f { x: 0x3F80_0000, y: 0, z: 0 },
                r1: Vec3f { x: 0, y: 0x3F80_0000, z: 0 },
                r2: Vec3f { x: 0, y: 0, z: 0x3F80_0000 },
            },
        )
    } else if tag == SPHERE {
        ChunkModel::Sphere(Sphere { radius: 0 }, zero_vec3())
    } else if tag == CYLINDER {
        ChunkModel::Cylinder(
            Cylinder { position: zero_vec3(), axis: zero_vec3(), radius: 0, length: 0, flat_end: false },
        )
    } else if tag == COLLISIONVEC {
        ChunkModel::CollisionVec(CollisionVec { x: 0, y: 0, z: 0 })
    } else if tag == INTERSECT {
        ChunkModel::Intersect(
            IntersectModel { indices: Seq::empty(), positions: Seq::empty(), normals: Seq::empty() },
        )
    } else if tag == LOCATOR {
        ChunkModel::Locator(
            LocatorModel {
                name: Seq::empty(),
                ttype: 0,
                elements: crate::triggers::TtypeModel::Skip,
                position: zero_vec3(),
                triggers: Seq::empty(),
            },
        )
    } else {
        ChunkModel::Skip
    }
}

/// The all-zero vector.
pub open spec fn zero_vec3() -> Vec3f {
    Vec3f { x: 0, y: 0, z: 0 }
}

impl Chunk {
    /// Maps a tag to its variant with a default payload; unrecognized tags
    /// fall back to `Skip`.
    pub fn id(tag: u32) -> (r: Chunk)
        ensures
            r.model() == spec_default_chunk(tag),
    {
        if tag == P3D {
            Chunk::P3d(P3d::new())
        } else if tag == FENCE {
            Chunk::Fence(Wall::new())
        } else if tag == OBBOX {
            Chunk::OBbox(OBbox::new(), Vec3f::new(), Matrix3f::identity())
        } else if tag == SPHERE {
            Chunk::Sphere(Sphere::new(), Vec3f::new())
        } else if tag == CYLINDER {
            Chunk::Cylinder(Cylinder::new())
        } else if tag == COLLISIONVEC {
            Chunk::CollisionVec(CollisionVec::new())
        } else if tag == INTERSECT {
            Chunk::Intersect(Intersect::new())
        } else if tag == LOCATOR {
            let l = Locator::new();
            proof {
                assert(crate::triggers::trigger_models(l.triggers@) =~= Seq::empty());
            }
            Chunk::Locator(l)
        } else {
            Chunk::Skip(Skip::new())
        }
    }
}

/// What the registry yields for a tag on the payload range `[pos, end)`.
/// Total in the tag: container tags read nothing and yield their empty
/// variant, each leaf tag runs its specific decoder, and unrecognized tags
/// yield the `Skip` fallback.
#[verifier::opaque]
pub open spec fn spec_payload(tag: u32, b: Seq<u8>, pos: int, end: int) -> Result<
    ChunkModel,
    DecodeError,
> {
    if tag == P3D {
        Ok(ChunkModel::P3d)
    } else if tag == FENCE {
        match spec_wall_payload(b, pos, end) {
            Ok(w) => Ok(ChunkModel::Fence(w)),
            Err(e) => Err(e),
        }
    } else if tag == OBBOX {
        match spec_obbox_payload(b, pos, end) {
            Ok((o, p, m)) => Ok(ChunkModel::OBbox(o, p, m)),
            Err(e) => Err(e),
        }
    } else if tag == SPHERE {
        match spec_sphere_payload(b, pos, end) {
            Ok((s, p)) => Ok(ChunkModel::Sphere(s, p)),
            Err(e) => Err(e),
        }
    } else if tag == CYLINDER {
        match spec_cylinder_payload(b, pos, end) {
            Ok(c) => Ok(ChunkModel::Cylinder(c)),
            Err(e) => Err(e),
        }
    } else if tag == COLLISIONVEC {
        match spec_collisionvec_payload(b, pos, end) {
            Ok(v) => Ok(ChunkModel::CollisionVec(v)),
            Err(e) => Err(e),
        }
    } else if tag == INTERSECT {
        match spec_intersect_payload(b, pos, end) {
            Ok(i) => Ok(ChunkModel::Intersect(i)),
            Err(e) => Err(e),
        }
    } else if tag == LOCATOR {
        match spec_locator_payload(b, pos, end) {
            Ok(l) => Ok(ChunkModel::Locator(l)),
            Err(e) => Err(e),
        }
    } else {
        Ok(ChunkModel::Skip)
    }
}

/// Runs the decoder a tag names on the payload range `[pos, end)`.
pub fn decode_payload(tag: u32, b: &Vec<u8>, pos: usize, end: usize) -> (r: Result<
    Chunk,
    DecodeError,
>)
    requires
        pos <= end <= b.len(),
    ensures
        match r {
            Ok(c) => spec_payload(tag, b@, pos as int, end as int) == Ok::<
                ChunkModel,
                DecodeError,
            >(c.model()),
            Err(e) => spec_payload(tag, b@, pos as int, end as int) == Err::<
                ChunkModel,
                DecodeError,
            >(e),
        },
{
    proof {
        reveal(spec_payload);
    }
    if tag == P3D {
        Ok(Chunk::P3d(P3d::new()))
    } else if tag == FENCE {
        match decode_wall(b, pos, end) {
            Ok(w) => Ok(Chunk::Fence(w)),
            Err(e) => Err(e),
        }
    } else if tag == OBBOX {
        match decode_obbox(b, pos, end) {
            Ok((o, p, m)) => Ok(Chunk::OBbox(o, p, m)),
            Err(e) => Err(e),
        }
    } else if tag == SPHERE {
        match decode_sphere(b, pos, end) {
            Ok((s, p)) => Ok(Chunk::Sphere(s, p)),
            Err(e) => Err(e),
        }
    } else if tag == CYLINDER {
        match decode_cylinder(b, pos, end) {
            Ok(c) => Ok(Chunk::Cylinder(c)),
            Err(e) => Err(e),
        }
    } else if tag == COLLISIONVEC {
        match decode_collisionvec(b, pos, end) {
            Ok(v) => Ok(Chunk::CollisionVec(v)),
            Err(e) => Err(e),
        }
    } else if tag == INTERSECT {
        match decode_intersect(b, pos, end) {
            Ok(i) => Ok(Chunk::Intersect(i)),
            Err(e) => Err(e),
        }
    } else if tag == LOCATOR {
        match decode_locator(b, pos, end) {
            Ok(l) => Ok(Chunk::Locator(l)),
            Err(e) => Err(e),
        }
    } else {
        Ok(Chunk::Skip(Skip::new()))
    }
}

/// Law: no tag value can fail a decode by itself.  Every tag outside the
/// known catalog resolves to the fallback: its payload decodes to the empty
/// `Skip` container variant, whatever the payload bytes hold.
pub proof fn lemma_fallback_totality(tag: u32, b: Seq<u8>, pos: int, end: int)
    requires
        !spec_is_known_tag(tag),
    ensures
        spec_is_container(tag),
        spec_payload(tag, b, pos, end) == Ok::<ChunkModel, DecodeError>(ChunkModel::Skip),
{
    reveal(spec_payload);
}

} // verus!
