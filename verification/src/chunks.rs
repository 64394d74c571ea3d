//! Tags of the chunk catalog and the geometry payloads of the leaf chunks.
//!
//! Scalars that the wire format stores as IEEE-754 singles are held as their
//! 32-bit little-endian bit patterns: the decoder never computes with them,
//! it only carries them, so the tree stays an exact image of the bytes.
use crate::bytes::{le16_at, le32_at, read_u16, read_u32, DecodeError};
use vstd::prelude::*;

verus! {

pub const P3D: u32 = 0xFF_44_33_50;

pub const FENCE: u32 = 0x03_F0_00_07;

pub const WALL: u32 = 0x03_00_00_00;

pub const OBBOX: u32 = 0x07_01_00_04;

pub const SPHERE: u32 = 0x07_01_00_02;

pub const CYLINDER: u32 = 0x07_01_00_03;

pub const COLLISIONVEC: u32 = 0x07_01_00_07;

pub const INTERSECT: u32 = 0x03_f0_00_03;

pub const LOCATOR: u32 = 0x03_00_00_05;

pub const TRIGGER: u32 = 0x03_00_00_06;

/// A 3-component vector; each component is an IEEE-754 single held as its
/// bit pattern.
#[derive(Copy, Debug, Default, PartialEq, Eq, Structural)]
pub struct Vec3f {
    pub x: u32,
    pub y: u32,
    pub z: u32,
}

impl Clone for Vec3f {
    fn clone(&self) -> (r: Self)
        ensures
            r == *self,
    {
        *self
    }
}

impl Vec3f {
    pub fn new() -> (r: Self)
        ensures
            r == (Vec3f { x: 0u32, y: 0u32, z: 0u32 }),
    {
        Vec3f { x: 0, y: 0, z: 0 }
    }
}

/// A 4-component vector of IEEE-754 bit patterns.
#[derive(Clone, Copy, Debug, Default, PartialEq, Eq, Structural)]
pub struct Vec4f {
    pub x: u32,
    pub y: u32,
    pub z: u32,
    pub w: u32,
}

impl Vec4f {
    pub fn new() -> (r: Self)
        ensures
            r == (Vec4f { x: 0u32, y: 0u32, z: 0u32, w: 0u32 }),
    {
        Vec4f { x: 0, y: 0, z: 0, w: 0 }
    }

    /// The vector without its fourth component.
    pub fn to_vec3f(&self) -> (r: Vec3f)
        ensures
            r == (Vec3f { x: self.x, y: self.y, z: self.z }),
    {
        Vec3f { x: self.x, y: self.y, z: self.z }
    }
}

/// A 3x3 matrix as three row vectors.
#[derive(Clone, Copy, Debug, Default, PartialEq, Eq, Structural)]
pub struct Matrix3f {
    pub r0: Vec3f,
    pub r1: Vec3f,
    pub r2: Vec3f,
}

impl Matrix3f {
    /// The identity matrix's bit image (1.0f32 is 0x3F800000).
    pub fn identity() -> (r: Self)
        ensures
            r.r0 == (Vec3f { x: 0x3F80_0000u32, y: 0u32, z: 0u32 }),
            r.r1 == (Vec3f { x: 0u32, y: 0x3F80_0000u32, z: 0u32 }),
            r.r2 == (Vec3f { x: 0u32, y: 0u32, z: 0x3F80_0000u32 }),
    {
        Matrix3f {
            r0: Vec3f { x: 0x3F80_0000, y: 0, z: 0 },
            r1: Vec3f { x: 0, y: 0x3F80_0000, z: 0 },
            r2: Vec3f { x: 0, y: 0, z: 0x3F80_0000 },
        }
    }

    /// Builds the matrix whose rows are the three given vectors.
    pub fn from_3_vec3f(v1: Vec3f, v2: Vec3f, v3: Vec3f) -> (r: Self)
        ensures
            r == (Matrix3f { r0: v1, r1: v2, r2: v3 }),
    {
        Matrix3f { r0: v1, r1: v2, r2: v3 }
    }
}

/// A 4x4 matrix as four row vectors.
#[derive(Clone, Copy, Debug, Default, PartialEq, Eq, Structural)]
pub struct Matrix4f {
    pub r0: Vec4f,
    pub r1: Vec4f,
    pub r2: Vec4f,
    pub r3: Vec4f,
}

impl Matrix4f {
    /// The all-zero matrix.
    pub fn new() -> (r: Self)
        ensures
            r.r0 == (Vec4f { x: 0u32, y: 0u32, z: 0u32, w: 0u32 }),
            r.r1 == (Vec4f { x: 0u32, y: 0u32, z: 0u32, w: 0u32 }),
            r.r2 == (Vec4f { x: 0u32, y: 0u32, z: 0u32, w: 0u32 }),
            r.r3 == (Vec4f { x: 0u32, y: 0u32, z: 0u32, w: 0u32 }),
    {
        Matrix4f { r0: Vec4f::new(), r1: Vec4f::new(), r2: Vec4f::new(), r3: Vec4f::new() }
    }
}

/// The placeholder payload of an unrecognized (fallback) container chunk.
#[derive(Clone, Copy, Debug, Default, PartialEq, Eq, Structural)]
pub struct Skip {}

impl Skip {
    pub fn new() -> (r: Self)
        ensures
            r == (Skip {  }),
    {
        Skip {  }
    }
}

/// The empty payload of the root container chunk.
#[derive(Clone, Copy, Debug, Default, PartialEq, Eq, Structural)]
pub struct P3d {}

impl P3d {
    pub fn new() -> (r: Self)
        ensures
            r == (P3d {  }),
    {
        P3d {  }
    }
}

/// The marker type of a fence chunk; its decoded payload is a `Wall`.
#[derive(Clone, Copy, Debug, Default, PartialEq, Eq, Structural)]
pub struct Fence {}

impl Fence {
    pub fn new() -> (r: Self)
        ensures
            r == (Fence {  }),
    {
        Fence {  }
    }
}

/// A fence wall segment: two endpoints and a normal.
#[derive(Clone, Copy, Debug, Default, PartialEq, Eq, Structural)]
pub struct Wall {
    pub start: Vec3f,
    pub end: Vec3f,
    pub normal: Vec3f,
}

impl Wall {
    pub fn new() -> (r: Self)
        ensures
            r == (Wall {
                start: Vec3f { x: 0u32, y: 0u32, z: 0u32 },
                end: Vec3f { x: 0u32, y: 0u32, z: 0u32 },
                normal: Vec3f { x: 0u32, y: 0u32, z: 0u32 },
            }),
    {
        Wall { start: Vec3f::new(), end: Vec3f::new(), normal: Vec3f::new() }
    }
}

/// The three extents of an oriented bounding box.
#[derive(Clone, Copy, Debug, Default, PartialEq, Eq, Structural)]
pub struct OBbox {
    pub l1: u32,
    pub l2: u32,
    pub l3: u32,
}

impl OBbox {
    pub fn new() -> (r: Self)
        ensures
            r == (OBbox { l1: 0u32, l2: 0u32, l3: 0u32 }),
    {
        OBbox { l1: 0, l2: 0, l3: 0 }
    }
}

/// A collision sphere's radius; its position rides in a nested sub-record.
#[derive(Clone, Copy, Debug, Default, PartialEq, Eq, Structural)]
pub struct Sphere {
    pub radius: u32,
}

impl Sphere {
    pub fn new() -> (r: Self)
        ensures
            r == (Sphere { radius: 0u32 }),
    {
        Sphere { radius: 0 }
    }
}

/// A collision cylinder.
#[derive(Clone, Copy, Debug, Default, PartialEq, Eq, Structural)]
pub struct Cylinder {
    pub position: Vec3f,
    pub axis: Vec3f,
    pub radius: u32,
    pub length: u32,
    pub flat_end: bool,
}

/// A bare 3-component collision vector; reused standalone and as the nested
/// sub-record inside boxes, spheres and cylinders.
#[derive(Clone, Copy, Debug, Default, PartialEq, Eq, Structural)]
pub struct CollisionVec {
    pub x: u32,
    pub y: u32,
    pub z: u32,
}

impl Cylinder {
    pub fn new() -> (r: Self)
        ensures
            r == (Cylinder {
                position: Vec3f { x: 0u32, y: 0u32, z: 0u32 },
                axis: Vec3f { x: 0u32, y: 0u32, z: 0u32 },
                radius: 0u32,
                length: 0u32,
                flat_end: false,
            }),
    {
        Cylinder {
            position: Vec3f::new(),
            axis: Vec3f::new(),
            radius: 0,
            length: 0,
            flat_end: false,
        }
    }
}

impl CollisionVec {
    pub fn new() -> (r: Self)
        ensures
            r == (CollisionVec { x: 0u32, y: 0u32, z: 0u32 }),
    {
        CollisionVec { x: 0, y: 0, z: 0 }
    }

    pub fn to_vec3f(&self) -> (r: Vec3f)
        ensures
            r == (Vec3f { x: self.x, y: self.y, z: self.z }),
    {
        Vec3f { x: self.x, y: self.y, z: self.z }
    }
}

/// An intersection mesh: index list plus position and normal vectors, each
/// preceded on the wire by its own 32-bit count.
#[derive(Debug, Default, PartialEq, Eq)]
pub struct Intersect {
    pub indices: Vec<u32>,
    pub positions: Vec<Vec3f>,
    pub normals: Vec<Vec3f>,
}

impl Clone for Intersect {
    fn clone(&self) -> (r: Self)
        ensures
            r.model() == self.model(),
    {
        let r = Intersect {
            indices: self.indices.clone(),
            positions: self.positions.clone(),
            normals: self.normals.clone(),
        };
        proof {
            assert(r.indices@ =~= self.indices@);
            assert(r.positions@ =~= self.positions@);
            assert(r.normals@ =~= self.normals@);
        }
        r
    }
}

/// The mathematical image of an `Intersect`.
pub ghost struct IntersectModel {
    pub indices: Seq<u32>,
    pub positions: Seq<Vec3f>,
    pub normals: Seq<Vec3f>,
}

impl Intersect {
    pub open spec fn model(self) -> IntersectModel {
        IntersectModel { indices: self.indices@, positions: self.positions@, normals: self.normals@ }
    }

    pub fn new() -> (r: Self)
        ensures
            r.indices@ == Seq::<u32>::empty(),
            r.positions@ == Seq::<Vec3f>::empty(),
            r.normals@ == Seq::<Vec3f>::empty(),
    {
        Intersect { indices: Vec::new(), positions: Vec::new(), normals: Vec::new() }
    }
}

/// The vector stored at `b[i..i+12]` as three little-endian words.
pub open spec fn spec_vec3_at(b: Seq<u8>, i: int) -> Vec3f {
    Vec3f { x: le32_at(b, i), y: le32_at(b, i + 4), z: le32_at(b, i + 8) }
}

/// The vector stored at `b[i..i+16]` as four little-endian words.
pub open spec fn spec_vec4_at(b: Seq<u8>, i: int) -> Vec4f {
    Vec4f { x: le32_at(b, i), y: le32_at(b, i + 4), z: le32_at(b, i + 8), w: le32_at(b, i + 12) }
}

/// The row-major 4x4 matrix stored at `b[i..i+64]`.
pub open spec fn spec_matrix4_at(b: Seq<u8>, i: int) -> Matrix4f {
    Matrix4f {
        r0: spec_vec4_at(b, i),
        r1: spec_vec4_at(b, i + 16),
        r2: spec_vec4_at(b, i + 32),
        r3: spec_vec4_at(b, i + 48),
    }
}

/// Decodes a 12-byte vector.
pub fn read_vec3(b: &Vec<u8>, pos: usize) -> (r: Vec3f)
    requires
        pos + 12 <= b.len(),
    ensures
        r == spec_vec3_at(b@, pos as int),
{
    Vec3f { x: read_u32(b, pos), y: read_u32(b, pos + 4), z: read_u32(b, pos + 8) }
}

/// Decodes a 16-byte vector.
pub fn read_vec4(b: &Vec<u8>, pos: usize) -> (r: Vec4f)
    requires
        pos + 16 <= b.len(),
    ensures
        r == spec_vec4_at(b@, pos as int),
{
    Vec4f {
        x: read_u32(b, pos),
        y: read_u32(b, pos + 4),
        z: read_u32(b, pos + 8),
        w: read_u32(b, pos + 12),
    }
}

/// Decodes a 64-byte row-major matrix.
pub fn read_matrix4(b: &Vec<u8>, pos: usize) -> (r: Matrix4f)
    requires
        pos + 64 <= b.len(),
    ensures
        r == spec_matrix4_at(b@, pos as int),
{
    Matrix4f {
        r0: read_vec4(b, pos),
        r1: read_vec4(b, pos + 16),
        r2: read_vec4(b, pos + 32),
        r3: read_vec4(b, pos + 48),
    }
}

/// A fence payload: a 12-byte inline sub-header, then the wall's three
/// vectors.  Trailing payload bytes are ignored.
pub open spec fn spec_wall_payload(b: Seq<u8>, pos: int, end: int) -> Result<Wall, DecodeError> {
    if pos + 48 <= end {
        Ok(
            Wall {
                start: spec_vec3_at(b, pos + 12),
                end: spec_vec3_at(b, pos + 24),
                normal: spec_vec3_at(b, pos + 36),
            },
        )
    } else {
        Err(DecodeError::TruncatedInput)
    }
}

/// Decodes a fence payload.
pub fn decode_wall(b: &Vec<u8>, pos: usize, end: usize) -> (r: Result<Wall, DecodeError>)
    requires
        pos <= end <= b.len(),
    ensures
        r == spec_wall_payload(b@, pos as int, end as int),
{
    if end - pos < 48 {
        return Err(DecodeError::TruncatedInput);
    }
    Ok(
        Wall {
            start: read_vec3(b, pos + 12),
            end: read_vec3(b, pos + 24),
            normal: read_vec3(b, pos + 36),
        },
    )
}

/// An oriented-box payload: three extents, then four nested collision-vector
/// sub-records (position and the three orientation rows), each behind its
/// own 12-byte inline sub-header.
pub open spec fn spec_obbox_payload(b: Seq<u8>, pos: int, end: int) -> Result<
    (OBbox, Vec3f, Matrix3f),
    DecodeError,
> {
    if pos + 108 <= end {
        Ok(
            (
                OBbox { l1: le32_at(b, pos), l2: le32_at(b, pos + 4), l3: le32_at(b, pos + 8) },
                spec_vec3_at(b, pos + 24),
                Matrix3f {
                    r0: spec_vec3_at(b, pos + 48),
                    r1: spec_vec3_at(b, pos + 72),
                    r2: spec_vec3_at(b, pos + 96),
                },
            ),
        )
    } else {
        Err(DecodeError::TruncatedInput)
    }
}

/// Decodes an oriented-box payload.
pub fn decode_obbox(b: &Vec<u8>, pos: usize, end: usize) -> (r: Result<
    (OBbox, Vec3f, Matrix3f),
    DecodeError,
>)
    requires
        pos <= end <= b.len(),
    ensures
        r == spec_obbox_payload(b@, pos as int, end as int),
{
    if end - pos < 108 {
        return Err(DecodeError::TruncatedInput);
    }
    let obbox = OBbox { l1: read_u32(b, pos), l2: read_u32(b, pos + 4), l3: read_u32(b, pos + 8) };
    let position = read_vec3(b, pos + 24);
    let v1 = read_vec3(b, pos + 48);
    let v2 = read_vec3(b, pos + 72);
    let v3 = read_vec3(b, pos + 96);
    Ok((obbox, position, Matrix3f::from_3_vec3f(v1, v2, v3)))
}

/// A sphere payload: the radius, then one nested collision-vector
/// sub-record holding the position.
pub open spec fn spec_sphere_payload(b: Seq<u8>, pos: int, end: int) -> Result<
    (Sphere, Vec3f),
    DecodeError,
> {
    if pos + 28 <= end {
        Ok((Sphere { radius: le32_at(b, pos) }, spec_vec3_at(b, pos + 16)))
    } else {
        Err(DecodeError::TruncatedInput)
    }
}

/// Decodes a sphere payload.
pub fn decode_sphere(b: &Vec<u8>, pos: usize, end: usize) -> (r: Result<
    (Sphere, Vec3f),
    DecodeError,
>)
    requires
        pos <= end <= b.len(),
    ensures
        r == spec_sphere_payload(b@, pos as int, end as int),
{
    if end - pos < 28 {
        return Err(DecodeError::TruncatedInput);
    }
    Ok((Sphere { radius: read_u32(b, pos) }, read_vec3(b, pos + 16)))
}

/// A cylinder payload: radius, length and a 16-bit flat-end flag, then two
/// nested collision-vector sub-records (position, axis).
pub open spec fn spec_cylinder_payload(b: Seq<u8>, pos: int, end: int) -> Result<
    Cylinder,
    DecodeError,
> {
    if pos + 58 <= end {
        Ok(
            Cylinder {
                position: spec_vec3_at(b, pos + 22),
                axis: spec_vec3_at(b, pos + 46),
                radius: le32_at(b, pos),
                length: le32_at(b, pos + 4),
                flat_end: le16_at(b, pos + 8) == 1,
            },
        )
    } else {
        Err(DecodeError::TruncatedInput)
    }
}

/// Decodes a cylinder payload.
pub fn decode_cylinder(b: &Vec<u8>, pos: usize, end: usize) -> (r: Result<Cylinder, DecodeError>)
    requires
        pos <= end <= b.len(),
    ensures
        r == spec_cylinder_payload(b@, pos as int, end as int),
{
    if end - pos < 58 {
        return Err(DecodeError::TruncatedInput);
    }
    let flat_end_u16 = read_u16(b, pos + 8);
    Ok(
        Cylinder {
            position: read_vec3(b, pos + 22),
            axis: read_vec3(b, pos + 46),
            radius: read_u32(b, pos),
            length: read_u32(b, pos + 4),
            flat_end: flat_end_u16 == 1,
        },
    )
}

/// A standalone collision-vector payload: three words, no sub-header.
pub open spec fn spec_collisionvec_payload(b: Seq<u8>, pos: int, end: int) -> Result<
    CollisionVec,
    DecodeError,
> {
    if pos + 12 <= end {
        Ok(CollisionVec { x: le32_at(b, pos), y: le32_at(b, pos + 4), z: le32_at(b, pos + 8) })
    } else {
        Err(DecodeError::TruncatedInput)
    }
}

/// Decodes a standalone collision-vector payload.
pub fn decode_collisionvec(b: &Vec<u8>, pos: usize, end: usize) -> (r: Result<
    CollisionVec,
    DecodeError,
>)
    requires
        pos <= end <= b.len(),
    ensures
        r == spec_collisionvec_payload(b@, pos as int, end as int),
{
    if end - pos < 12 {
        return Err(DecodeError::TruncatedInput);
    }
    Ok(CollisionVec { x: read_u32(b, pos), y: read_u32(b, pos + 4), z: read_u32(b, pos + 8) })
}

/// An intersection-mesh payload: a count and that many 32-bit indices, a
/// count and that many vectors of positions, the same for normals.
pub open spec fn spec_intersect_payload(b: Seq<u8>, pos: int, end: int) -> Result<
    IntersectModel,
    DecodeError,
> {
    if pos + 4 > end {
        Err(DecodeError::TruncatedInput)
    } else {
        let n1 = le32_at(b, pos) as int;
        let p1 = pos + 4;
        if p1 + n1 * 4 > end {
            Err(DecodeError::TruncatedInput)
        } else {
            let indices = Seq::new(n1 as nat, |j: int| le32_at(b, p1 + j * 4));
            let p2 = p1 + n1 * 4;
            if p2 + 4 > end {
                Err(DecodeError::TruncatedInput)
            } else {
                let n2 = le32_at(b, p2) as int;
                let p3 = p2 + 4;
                if p3 + n2 * 12 > end {
                    Err(DecodeError::TruncatedInput)
                } else {
                    let positions = Seq::new(n2 as nat, |j: int| spec_vec3_at(b, p3 + j * 12));
                    let p4 = p3 + n2 * 12;
                    if p4 + 4 > end {
                        Err(DecodeError::TruncatedInput)
                    } else {
                        let n3 = le32_at(b, p4) as int;
                        let p5 = p4 + 4;
                        if p5 + n3 * 12 > end {
                            Err(DecodeError::TruncatedInput)
                        } else {
                            let normals = Seq::new(
                                n3 as nat,
                                |j: int| spec_vec3_at(b, p5 + j * 12),
                            );
                            Ok(IntersectModel { indices, positions, normals })
                        }
                    }
                }
            }
        }
    }
}

/// Decodes that many 32-bit words into a vector.
fn read_u32_run(b: &Vec<u8>, pos: usize, n: usize) -> (r: Vec<u32>)
    requires
        pos + n * 4 <= b.len(),
    ensures
        r@ == Seq::new(n as nat, |j: int| le32_at(b@, pos + j * 4)),
{
    let mut out: Vec<u32> = Vec::new();
    let mut i: usize = 0;
    while i < n
        invariant
            i <= n,
            pos + n * 4 <= b.len(),
            out@ == Seq::new(i as nat, |j: int| le32_at(b@, pos + j * 4)),
        decreases n - i,
    {
        out.push(read_u32(b, pos + i * 4));
        assert(out@ =~= Seq::new((i + 1) as nat, |j: int| le32_at(b@, pos as int + j * 4)));
        i += 1;
    }
    out
}

/// Decodes that many 12-byte vectors into a vector.
fn read_vec3_run(b: &Vec<u8>, pos: usize, n: usize) -> (r: Vec<Vec3f>)
    requires
        pos + n * 12 <= b.len(),
    ensures
        r@ == Seq::new(n as nat, |j: int| spec_vec3_at(b@, pos + j * 12)),
{
    let mut out: Vec<Vec3f> = Vec::new();
    let mut i: usize = 0;
    while i < n
        invariant
            i <= n,
            pos + n * 12 <= b.len(),
            out@ == Seq::new(i as nat, |j: int| spec_vec3_at(b@, pos + j * 12)),
        decreases n - i,
    {
        out.push(read_vec3(b, pos + i * 12));
        assert(out@ =~= Seq::new((i + 1) as nat, |j: int| spec_vec3_at(b@, pos as int + j * 12)));
        i += 1;
    }
    out
}

/// Decodes an intersection-mesh payload.
pub fn decode_intersect(b: &Vec<u8>, pos: usize, end: usize) -> (r: Result<Intersect, DecodeError>)
    requires
        pos <= end <= b.len(),
    ensures
        match r {
            Ok(v) => spec_intersect_payload(b@, pos as int, end as int) == Ok::<
                IntersectModel,
                DecodeError,
            >(v.model()),
            Err(e) => spec_intersect_payload(b@, pos as int, end as int) == Err::<
                IntersectModel,
                DecodeError,
            >(e),
        },
{
    if end - pos < 4 {
        return Err(DecodeError::TruncatedInput);
    }
    let n1 = read_u32(b, pos) as usize;
    let p1 = pos + 4;
    if n1 > (end - p1) / 4 {
        return Err(DecodeError::TruncatedInput);
    }
    let indices = read_u32_run(b, p1, n1);
    let p2 = p1 + n1 * 4;
    if end - p2 < 4 {
        return Err(DecodeError::TruncatedInput);
    }
    let n2 = read_u32(b, p2) as usize;
    let p3 = p2 + 4;
    if n2 > (end - p3) / 12 {
        return Err(DecodeError::TruncatedInput);
    }
    let positions = read_vec3_run(b, p3, n2);
    let p4 = p3 + n2 * 12;
    if end - p4 < 4 {
        return Err(DecodeError::TruncatedInput);
    }
    let n3 = read_u32(b, p4) as usize;
    let p5 = p4 + 4;
    if n3 > (end - p5) / 12 {
        return Err(DecodeError::TruncatedInput);
    }
    let normals = read_vec3_run(b, p5, n3);
    Ok(Intersect { indices, positions, normals })
}

} // verus!
