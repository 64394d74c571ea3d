use chunktree::bytes::DecodeError;
use chunktree::chunks::{COLLISIONVEC, CYLINDER, FENCE, INTERSECT, LOCATOR, OBBOX, P3D, SPHERE};
use chunktree::extract::{extract, ChunkKind};
use chunktree::registry::{is_container, Chunk};
use chunktree::triggers::Ttype;
use chunktree::walker::decode;

fn le32(v: u32) -> [u8; 4] {
    v.to_le_bytes()
}

fn push_u32(out: &mut Vec<u8>, v: u32) {
    out.extend_from_slice(&le32(v));
}

fn header(out: &mut Vec<u8>, tag: u32, data_size: u32, chunk_size: u32) {
    push_u32(out, tag);
    push_u32(out, data_size);
    push_u32(out, chunk_size);
}

/// A root container holding one sphere leaf: the sphere's payload is its
/// radius, then a nested collision-vector sub-chunk holding its position.
fn sphere_file() -> Vec<u8> {
    let mut b: Vec<u8> = Vec::new();
    // root: unknown tag, no own payload, one 40-byte child
    header(&mut b, 0x0000_0000, 0x0c, 0x34);
    // sphere leaf: 12-byte header + 28-byte region
    header(&mut b, SPHERE, 0x10, 0x28);
    push_u32(&mut b, 2.5f32.to_bits());
    // nested collision-vector sub-chunk: header then the vector
    header(&mut b, COLLISIONVEC, 0x18, 0x18);
    push_u32(&mut b, 1.0f32.to_bits());
    push_u32(&mut b, 2.0f32.to_bits());
    push_u32(&mut b, 3.0f32.to_bits());
    b
}

#[test]
fn decodes_root_with_one_sphere() {
    let b = sphere_file();
    let tree = decode(&b).expect("decode");
    assert!(matches!(tree.variant, Chunk::Skip(_)));
    assert_eq!(tree.children.len(), 1);
    let child = &tree.children[0];
    assert!(child.children.is_empty());
    match &child.variant {
        Chunk::Sphere(s, pos) => {
            assert_eq!(f32::from_bits(s.radius), 2.5);
            assert_eq!(f32::from_bits(pos.x), 1.0);
            assert_eq!(f32::from_bits(pos.y), 2.0);
            assert_eq!(f32::from_bits(pos.z), 3.0);
        },
        other => panic!("expected a sphere, got {:?}", other),
    }
}

#[test]
fn extract_returns_exactly_the_sphere() {
    let b = sphere_file();
    let tree = decode(&b).expect("decode");
    let found = extract(&tree, ChunkKind::Sphere);
    assert_eq!(found.len(), 1);
    match &found[0] {
        Chunk::Sphere(s, _) => assert_eq!(f32::from_bits(s.radius), 2.5),
        other => panic!("expected a sphere, got {:?}", other),
    }
}

/// The same scenario with the sphere's chunk size understating its inline
/// sub-chunk: the region is too short for the payload, so the decode is
/// abandoned with a truncation error.
#[test]
fn understated_sizes_truncate() {
    let mut b: Vec<u8> = Vec::new();
    header(&mut b, 0x0000_0000, 0x0c, 0x20);
    header(&mut b, SPHERE, 0x10, 0x20);
    b.extend_from_slice(&[0u8; 8]);
    assert_eq!(b.len(), 32);
    assert_eq!(decode(&b), Err(DecodeError::TruncatedInput));
}

#[test]
fn locator_dynamic_zone_reads_its_name() {
    let mut b: Vec<u8> = Vec::new();
    // leaf locator as the root chunk; payload is 36 bytes
    header(&mut b, LOCATOR, 0x0c, 12 + 36);
    b.push(3);
    b.extend_from_slice(b"loc");
    push_u32(&mut b, 5); // element type: dynamic zone
    push_u32(&mut b, 2); // two 4-byte units
    b.extend_from_slice(b"ab\0\0\0\0\0\0");
    push_u32(&mut b, 0); // position x
    push_u32(&mut b, 0);
    push_u32(&mut b, 0);
    push_u32(&mut b, 0); // no triggers
    let tree = decode(&b).expect("decode");
    match &tree.variant {
        Chunk::Locator(l) => {
            assert_eq!(l.name, "loc");
            assert_eq!(l.ttype, 5);
            assert_eq!(l.elements, Ttype::DynamicZone(String::from("ab")));
            assert!(l.triggers.is_empty());
        },
        other => panic!("expected a locator, got {:?}", other),
    }
}

#[test]
fn locator_other_element_types_skip_their_block() {
    let mut b: Vec<u8> = Vec::new();
    header(&mut b, LOCATOR, 0x0c, 12 + 36);
    b.push(3);
    b.extend_from_slice(b"loc");
    push_u32(&mut b, 7); // interior entrance: opaque skip
    push_u32(&mut b, 2);
    b.extend_from_slice(b"ab\0\0\0\0\0\0");
    push_u32(&mut b, 0);
    push_u32(&mut b, 0);
    push_u32(&mut b, 0);
    push_u32(&mut b, 0);
    let tree = decode(&b).expect("decode");
    match &tree.variant {
        Chunk::Locator(l) => assert_eq!(l.elements, Ttype::Skip),
        other => panic!("expected a locator, got {:?}", other),
    }
}

#[test]
fn trigger_magic_mismatch_aborts_the_file() {
    let mut b: Vec<u8> = Vec::new();
    // locator with one trigger whose inline header carries a wrong tag
    let payload: u32 = 1 + 3 + 4 + 4 + 8 + 12 + 4 + 12 + 1 + 4 + 12 + 64;
    header(&mut b, LOCATOR, 0x0c, 12 + payload);
    b.push(3);
    b.extend_from_slice(b"loc");
    push_u32(&mut b, 5);
    push_u32(&mut b, 2);
    b.extend_from_slice(b"ab\0\0\0\0\0\0");
    push_u32(&mut b, 0);
    push_u32(&mut b, 0);
    push_u32(&mut b, 0);
    push_u32(&mut b, 1); // one trigger
    header(&mut b, 0xdead_beef, 0x0c, 0x0c); // wrong magic
    b.push(0); // empty name
    push_u32(&mut b, 0); // type_of
    b.extend_from_slice(&[0u8; 12]); // scale
    b.extend_from_slice(&[0u8; 64]); // matrix
    assert_eq!(decode(&b), Err(DecodeError::MagicMismatch));
}

#[test]
fn trigger_with_magic_decodes() {
    let mut b: Vec<u8> = Vec::new();
    let payload: u32 = 1 + 3 + 4 + 4 + 8 + 12 + 4 + 12 + 1 + 2 + 4 + 12 + 64;
    header(&mut b, LOCATOR, 0x0c, 12 + payload);
    b.push(3);
    b.extend_from_slice(b"loc");
    push_u32(&mut b, 5);
    push_u32(&mut b, 2);
    b.extend_from_slice(b"ab\0\0\0\0\0\0");
    push_u32(&mut b, 0);
    push_u32(&mut b, 0);
    push_u32(&mut b, 0);
    push_u32(&mut b, 1);
    header(&mut b, 0x0300_0006, 0x0c, 0x0c);
    b.push(2);
    b.extend_from_slice(b"tr");
    push_u32(&mut b, 9);
    b.extend_from_slice(&[0u8; 12]);
    b.extend_from_slice(&[0u8; 64]);
    let tree = decode(&b).expect("decode");
    match &tree.variant {
        Chunk::Locator(l) => {
            assert_eq!(l.triggers.len(), 1);
            assert_eq!(l.triggers[0].name, "tr");
            assert_eq!(l.triggers[0].type_of, 9);
        },
        other => panic!("expected a locator, got {:?}", other),
    }
}

#[test]
fn name_trimming_strips_only_the_trailing_run() {
    let mut b: Vec<u8> = Vec::new();
    // locator whose name has an embedded NUL and trailing padding
    let payload: u32 = 1 + 7 + 4 + 4 + 0 + 12 + 4;
    header(&mut b, LOCATOR, 0x0c, 12 + payload);
    b.push(7);
    b.extend_from_slice(b"ab\0cd\0\0");
    push_u32(&mut b, 1);
    push_u32(&mut b, 0); // empty element block
    b.extend_from_slice(&[0u8; 12]);
    push_u32(&mut b, 0);
    let tree = decode(&b).expect("decode");
    match &tree.variant {
        Chunk::Locator(l) => assert_eq!(l.name, "ab\0cd"),
        other => panic!("expected a locator, got {:?}", other),
    }
}

#[test]
fn identical_bytes_decode_identically() {
    let b = sphere_file();
    let first = decode(&b).expect("decode");
    let second = decode(&b).expect("decode");
    assert_eq!(first, second);
}

#[test]
fn unknown_tags_fall_back_to_containers() {
    for tag in [0x0000_0001u32, 0xffff_ffff, 0x0300_0000, 0x1234_5678] {
        assert!(is_container(tag));
        assert!(matches!(Chunk::id(tag), Chunk::Skip(_)));
        // an empty chunk of any unknown tag decodes as an empty container
        let mut b: Vec<u8> = Vec::new();
        header(&mut b, tag, 0x0c, 0x0c);
        let tree = decode(&b).expect("decode");
        assert!(matches!(tree.variant, Chunk::Skip(_)));
        assert!(tree.children.is_empty());
    }
    assert!(is_container(P3D));
    for tag in [FENCE, OBBOX, SPHERE, CYLINDER, COLLISIONVEC, INTERSECT, LOCATOR] {
        assert!(!is_container(tag));
    }
}

#[test]
fn contradictory_sizes_are_inconsistent() {
    // declared chunk size below declared data size
    let mut b: Vec<u8> = Vec::new();
    header(&mut b, 0, 0x14, 0x10);
    b.extend_from_slice(&[0u8; 8]);
    assert_eq!(decode(&b), Err(DecodeError::SizeInconsistency));
    // declared data size below the header's own 12 bytes
    let mut b2: Vec<u8> = Vec::new();
    header(&mut b2, 0, 0x08, 0x10);
    b2.extend_from_slice(&[0u8; 4]);
    assert_eq!(decode(&b2), Err(DecodeError::SizeInconsistency));
}

#[test]
fn child_region_must_exhaust_exactly() {
    // a container whose child region holds four stray bytes
    let mut b: Vec<u8> = Vec::new();
    header(&mut b, 0, 0x0c, 0x10);
    b.extend_from_slice(&[0u8; 4]);
    assert_eq!(decode(&b), Err(DecodeError::SizeInconsistency));
}

#[test]
fn short_header_truncates() {
    let b: Vec<u8> = vec![1, 2, 3];
    assert_eq!(decode(&b), Err(DecodeError::TruncatedInput));
}

#[test]
fn trailing_bytes_after_the_root_are_ignored() {
    let mut b = sphere_file();
    b.extend_from_slice(&[9, 9, 9, 9]);
    let tree = decode(&b).expect("decode");
    assert_eq!(tree.children.len(), 1);
}

#[test]
fn nesting_beyond_the_limit_is_refused() {
    // 501 containers, each wrapping the next
    let depth = 501u32;
    let mut b: Vec<u8> = Vec::new();
    for level in 0..depth {
        let remaining = depth - level;
        header(&mut b, 0, 0x0c, remaining * 12);
    }
    assert_eq!(decode(&b), Err(DecodeError::DepthLimit));
}

#[test]
fn nesting_within_the_limit_decodes() {
    let depth = 400u32;
    let mut b: Vec<u8> = Vec::new();
    for level in 0..depth {
        let remaining = depth - level;
        header(&mut b, 0, 0x0c, remaining * 12);
    }
    let mut node = decode(&b).expect("decode");
    let mut count = 1;
    while !node.children.is_empty() {
        assert_eq!(node.children.len(), 1);
        node = node.children.into_iter().next().unwrap();
        count += 1;
    }
    assert_eq!(count, 400);
}

#[test]
fn extraction_is_preorder_and_prunes_below_matches() {
    // root
    //  +- skip A
    //  |   +- sphere 1
    //  +- sphere 2
    let mut sphere1: Vec<u8> = Vec::new();
    header(&mut sphere1, SPHERE, 0x10, 0x28);
    push_u32(&mut sphere1, 1.0f32.to_bits());
    header(&mut sphere1, COLLISIONVEC, 0x18, 0x18);
    sphere1.extend_from_slice(&[0u8; 12]);
    let mut sphere2: Vec<u8> = Vec::new();
    header(&mut sphere2, SPHERE, 0x10, 0x28);
    push_u32(&mut sphere2, 2.0f32.to_bits());
    header(&mut sphere2, COLLISIONVEC, 0x18, 0x18);
    sphere2.extend_from_slice(&[0u8; 12]);
    let mut skip_a: Vec<u8> = Vec::new();
    header(&mut skip_a, 0x0000_0001, 0x0c, 12 + sphere1.len() as u32);
    skip_a.extend_from_slice(&sphere1);
    let mut b: Vec<u8> = Vec::new();
    header(&mut b, 0, 0x0c, 12 + (skip_a.len() + sphere2.len()) as u32);
    b.extend_from_slice(&skip_a);
    b.extend_from_slice(&sphere2);
    let tree = decode(&b).expect("decode");

    // pre-order: the nested sphere comes before its sibling
    let spheres = extract(&tree, ChunkKind::Sphere);
    assert_eq!(spheres.len(), 2);
    match (&spheres[0], &spheres[1]) {
        (Chunk::Sphere(a, _), Chunk::Sphere(c, _)) => {
            assert_eq!(f32::from_bits(a.radius), 1.0);
            assert_eq!(f32::from_bits(c.radius), 2.0);
        },
        other => panic!("expected two spheres, got {:?}", other),
    }

    // pruning: the root itself matches Skip, so nothing below is searched
    let skips = extract(&tree, ChunkKind::Skip);
    assert_eq!(skips.len(), 1);
}
