use chunktree::chunks::{COLLISIONVEC, CYLINDER, FENCE, INTERSECT, OBBOX};
use chunktree::registry::Chunk;
use chunktree::walker::decode;

fn push_u32(out: &mut Vec<u8>, v: u32) {
    out.extend_from_slice(&v.to_le_bytes());
}

fn push_f32(out: &mut Vec<u8>, v: f32) {
    out.extend_from_slice(&v.to_bits().to_le_bytes());
}

fn header(out: &mut Vec<u8>, tag: u32, data_size: u32, chunk_size: u32) {
    push_u32(out, tag);
    push_u32(out, data_size);
    push_u32(out, chunk_size);
}

#[test]
fn fence_decodes_its_wall() {
    let mut b: Vec<u8> = Vec::new();
    header(&mut b, FENCE, 0x0c, 12 + 48);
    header(&mut b, 0x0300_0000, 0x0c, 0x0c); // inline sub-header, ignored
    for v in [1.0f32, 2.0, 3.0, 4.0, 5.0, 6.0, 7.0, 8.0, 9.0] {
        push_f32(&mut b, v);
    }
    let tree = decode(&b).expect("decode");
    match &tree.variant {
        Chunk::Fence(w) => {
            assert_eq!(f32::from_bits(w.start.x), 1.0);
            assert_eq!(f32::from_bits(w.end.x), 4.0);
            assert_eq!(f32::from_bits(w.normal.z), 9.0);
        },
        other => panic!("expected a fence, got {:?}", other),
    }
}

#[test]
fn obbox_builds_its_orientation_from_three_vectors() {
    let mut b: Vec<u8> = Vec::new();
    header(&mut b, OBBOX, 0x0c, 12 + 108);
    push_f32(&mut b, 10.0);
    push_f32(&mut b, 20.0);
    push_f32(&mut b, 30.0);
    // four nested collision-vector sub-chunks: position then three rows
    for base in [100.0f32, 1.0, 2.0, 3.0] {
        header(&mut b, COLLISIONVEC, 0x18, 0x18);
        push_f32(&mut b, base);
        push_f32(&mut b, base + 0.25);
        push_f32(&mut b, base + 0.5);
    }
    let tree = decode(&b).expect("decode");
    match &tree.variant {
        Chunk::OBbox(o, pos, m) => {
            assert_eq!(f32::from_bits(o.l1), 10.0);
            assert_eq!(f32::from_bits(o.l3), 30.0);
            assert_eq!(f32::from_bits(pos.x), 100.0);
            assert_eq!(f32::from_bits(m.r0.x), 1.0);
            assert_eq!(f32::from_bits(m.r1.y), 2.25);
            assert_eq!(f32::from_bits(m.r2.z), 3.5);
        },
        other => panic!("expected a box, got {:?}", other),
    }
}

#[test]
fn cylinder_reads_its_flag_and_vectors() {
    let mut b: Vec<u8> = Vec::new();
    header(&mut b, CYLINDER, 0x0c, 12 + 58);
    push_f32(&mut b, 1.5); // radius
    push_f32(&mut b, 9.0); // length
    b.extend_from_slice(&1u16.to_le_bytes()); // flat end
    header(&mut b, COLLISIONVEC, 0x18, 0x18);
    push_f32(&mut b, 7.0);
    push_f32(&mut b, 8.0);
    push_f32(&mut b, 9.0);
    header(&mut b, COLLISIONVEC, 0x18, 0x18);
    push_f32(&mut b, 0.0);
    push_f32(&mut b, 1.0);
    push_f32(&mut b, 0.0);
    let tree = decode(&b).expect("decode");
    match &tree.variant {
        Chunk::Cylinder(c) => {
            assert_eq!(f32::from_bits(c.radius), 1.5);
            assert_eq!(f32::from_bits(c.length), 9.0);
            assert!(c.flat_end);
            assert_eq!(f32::from_bits(c.position.x), 7.0);
            assert_eq!(f32::from_bits(c.axis.y), 1.0);
        },
        other => panic!("expected a cylinder, got {:?}", other),
    }
}

#[test]
fn collisionvec_leaf_decodes_bare() {
    let mut b: Vec<u8> = Vec::new();
    header(&mut b, COLLISIONVEC, 0x0c, 12 + 12);
    push_f32(&mut b, -1.0);
    push_f32(&mut b, 0.5);
    push_f32(&mut b, 2.0);
    let tree = decode(&b).expect("decode");
    match &tree.variant {
        Chunk::CollisionVec(v) => {
            assert_eq!(f32::from_bits(v.x), -1.0);
            assert_eq!(f32::from_bits(v.y), 0.5);
            assert_eq!(f32::from_bits(v.z), 2.0);
        },
        other => panic!("expected a collision vector, got {:?}", other),
    }
}

#[test]
fn intersect_reads_three_counted_runs() {
    let mut b: Vec<u8> = Vec::new();
    let payload: u32 = 4 + 8 + 4 + 12 + 4 + 24;
    header(&mut b, INTERSECT, 0x0c, 12 + payload);
    push_u32(&mut b, 2); // two indices
    push_u32(&mut b, 7);
    push_u32(&mut b, 8);
    push_u32(&mut b, 1); // one position
    push_f32(&mut b, 1.0);
    push_f32(&mut b, 2.0);
    push_f32(&mut b, 3.0);
    push_u32(&mut b, 2); // two normals
    for _ in 0..6 {
        push_f32(&mut b, 0.0);
    }
    let tree = decode(&b).expect("decode");
    match &tree.variant {
        Chunk::Intersect(i) => {
            assert_eq!(i.indices, vec![7, 8]);
            assert_eq!(i.positions.len(), 1);
            assert_eq!(f32::from_bits(i.positions[0].y), 2.0);
            assert_eq!(i.normals.len(), 2);
        },
        other => panic!("expected an intersection mesh, got {:?}", other),
    }
}

#[test]
fn intersect_with_overlong_count_truncates() {
    let mut b: Vec<u8> = Vec::new();
    header(&mut b, INTERSECT, 0x0c, 12 + 4);
    push_u32(&mut b, 100); // declares 100 indices, carries none
    assert_eq!(
        decode(&b),
        Err(chunktree::bytes::DecodeError::TruncatedInput)
    );
}

#[test]
fn leaf_payloads_ignore_trailing_bytes() {
    // a collision vector with four spare payload bytes: still a leaf, and
    // the spare bytes are accounted to the chunk, not to a sibling
    let mut b: Vec<u8> = Vec::new();
    header(&mut b, COLLISIONVEC, 0x0c, 12 + 16);
    push_f32(&mut b, 1.0);
    push_f32(&mut b, 2.0);
    push_f32(&mut b, 3.0);
    push_u32(&mut b, 0xdddd_dddd);
    let tree = decode(&b).expect("decode");
    assert!(matches!(tree.variant, Chunk::CollisionVec(_)));
    assert!(tree.children.is_empty());
}
