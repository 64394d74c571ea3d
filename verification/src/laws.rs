//! The structural laws of the chunk format, proved of the decoder's
//! specification.
use crate::bytes::{le32_at, trim_trailing_zeros};
use crate::chunks::{
    spec_collisionvec_payload, spec_cylinder_payload, spec_intersect_payload, spec_obbox_payload,
    spec_sphere_payload, spec_vec3_at, spec_wall_payload,
};
use crate::registry::spec_payload;
use crate::triggers::{spec_elements, spec_name, spec_trigger, spec_triggers};
use crate::walker::{spec_children, spec_chunk};
use vstd::prelude::*;

verus! {

/// Law: trimming a trailing-NUL run is idempotent: what one trim leaves,
/// a second trim leaves untouched.
pub proof fn lemma_trim_idempotent(s: Seq<u8>)
    ensures
        trim_trailing_zeros(trim_trailing_zeros(s)) == trim_trailing_zeros(s),
    decreases s.len(),
{
    if s.len() > 0 && s[s.len() - 1] == 0 {
        lemma_trim_idempotent(s.drop_last());
    }
}

/// Law: trimming strips only the trailing NUL run.  A name whose body ends
/// in a non-NUL byte loses exactly its padding, and NULs embedded in the
/// body survive.
pub proof fn lemma_trim_only_trailing(t: Seq<u8>, pad: Seq<u8>)
    requires
        t.len() > 0 ==> t[t.len() - 1] != 0,
        forall|i: int| 0 <= i < pad.len() ==> pad[i] == 0,
    ensures
        trim_trailing_zeros(t + pad) == t,
    decreases pad.len(),
{
    if pad.len() == 0 {
        assert(t + pad =~= t);
    } else {
        assert((t + pad)[(t + pad).len() - 1] == pad[pad.len() - 1]);
        assert((t + pad).drop_last() =~= t + pad.drop_last());
        lemma_trim_only_trailing(t, pad.drop_last());
    }
}

/// The declared chunk sizes of the children that fill the region
/// `[pos, end)`, read straight off the bytes: each entry is one child's
/// `declared_chunk_size`, and the next child starts that many bytes on.
pub open spec fn spec_child_sizes(b: Seq<u8>, pos: int, end: int) -> Seq<int>
    decreases end - pos,
{
    if pos + 12 > end {
        Seq::empty()
    } else {
        let cs = le32_at(b, pos + 8) as int;
        if cs < 12 || pos + cs > end {
            Seq::empty()
        } else {
            Seq::empty().push(cs) + spec_child_sizes(b, pos + cs, end)
        }
    }
}

/// The sum of a sequence of integers.
pub open spec fn sum_of(s: Seq<int>) -> int
    decreases s,
{
    if s.len() == 0 {
        0
    } else {
        s[0] + sum_of(s.drop_first())
    }
}

/// Law: container exhaustion.  Whenever a child region decodes, the
/// declared chunk sizes of its children sum to exactly the region's
/// length, and the walker produced exactly one node per child.
pub proof fn lemma_container_exhaustion(b: Seq<u8>, pos: int, end: int, depth: u32)
    requires
        pos <= end,
        spec_children(b, pos, end, depth) is Ok,
    ensures
        sum_of(spec_child_sizes(b, pos, end)) == end - pos,
        spec_child_sizes(b, pos, end).len() == spec_children(b, pos, end, depth)->Ok_0.len(),
    decreases end - pos,
{
    if pos >= end {
    } else {
        let cs = le32_at(b, pos + 8) as int;
        lemma_container_exhaustion(b, pos + cs, end, depth);
        let sizes = spec_child_sizes(b, pos, end);
        assert(sizes == Seq::empty().push(cs) + spec_child_sizes(b, pos + cs, end));
        assert(sizes.drop_first() =~= spec_child_sizes(b, pos + cs, end));
        assert(sum_of(sizes) == cs + sum_of(spec_child_sizes(b, pos + cs, end)));
    }
}

/// Law: a chunk's extent is its declared chunk size.  Once the readable
/// range covers those bytes, moving the range's end changes nothing: the
/// walker neither reads nor depends on anything past `pos + chunk_size`.
pub proof fn lemma_chunk_extent(b: Seq<u8>, pos: int, end1: int, end2: int, depth: u32)
    requires
        0 <= pos,
        pos + 12 <= end1,
        pos + 12 <= end2,
        pos + le32_at(b, pos + 8) <= end1,
        pos + le32_at(b, pos + 8) <= end2,
    ensures
        spec_chunk(b, pos, end1, depth) == spec_chunk(b, pos, end2, depth),
{
}

/// Two buffers that agree on `[pos, end)` are indistinguishable to every
/// little-endian read inside that range.
proof fn lemma_reads_agree(b1: Seq<u8>, b2: Seq<u8>, pos: int, end: int)
    requires
        0 <= pos,
        end <= b1.len(),
        end <= b2.len(),
        forall|i: int| pos <= i < end ==> b1[i] == b2[i],
    ensures
        forall|i: int|
            pos <= i && i + 4 <= end ==> #[trigger] le32_at(b1, i) == le32_at(b2, i),
        forall|i: int|
            pos <= i && i + 12 <= end ==> #[trigger] spec_vec3_at(b1, i) == spec_vec3_at(b2, i),
        forall|i: int, j: int|
            pos <= i <= j <= end ==> #[trigger] b1.subrange(i, j) == b2.subrange(i, j),
{
    assert forall|i: int, j: int| pos <= i <= j <= end implies #[trigger] b1.subrange(i, j)
        == b2.subrange(i, j) by {
        assert forall|k: int| 0 <= k < j - i implies b1.subrange(i, j)[k] == b2.subrange(
            i,
            j,
        )[k] by {
            assert(b1[i + k] == b2[i + k]);
        }
        assert(b1.subrange(i, j) =~= b2.subrange(i, j));
    }
}

/// A name field read from either of two buffers that agree on `[pos, end)`
/// is the same.
proof fn lemma_name_frame(b1: Seq<u8>, b2: Seq<u8>, pos: int, end: int)
    requires
        0 <= pos <= end <= b1.len(),
        end <= b2.len(),
        forall|i: int| pos <= i < end ==> b1[i] == b2[i],
    ensures
        spec_name(b1, pos, end) == spec_name(b2, pos, end),
{
    lemma_reads_agree(b1, b2, pos, end);
    if pos + 1 <= end {
        assert(b1[pos] == b2[pos]);
    }
}

/// One trigger record reads the same from two buffers that agree on
/// `[pos, end)`.
proof fn lemma_trigger_frame(b1: Seq<u8>, b2: Seq<u8>, pos: int, end: int)
    requires
        0 <= pos <= end <= b1.len(),
        end <= b2.len(),
        forall|i: int| pos <= i < end ==> b1[i] == b2[i],
    ensures
        spec_trigger(b1, pos, end) == spec_trigger(b2, pos, end),
{
    lemma_reads_agree(b1, b2, pos, end);
    lemma_name_frame(b1, b2, pos, end);
    if pos + 12 <= end {
        lemma_name_frame(b1, b2, pos + 12, end);
        match spec_name(b1, pos + 12, end) {
            Ok((name, p)) => {
                if pos <= p && p + 80 <= end {
                    assert(spec_vec3_at(b1, p + 4) == spec_vec3_at(b2, p + 4));
                }
            },
            Err(_) => {},
        }
    }
}

/// A counted run of triggers reads the same from two buffers that agree on
/// `[pos, end)`.
proof fn lemma_triggers_frame(b1: Seq<u8>, b2: Seq<u8>, pos: int, end: int, n: u32)
    requires
        0 <= pos <= end <= b1.len(),
        end <= b2.len(),
        forall|i: int| pos <= i < end ==> b1[i] == b2[i],
    ensures
        spec_triggers(b1, pos, end, n) == spec_triggers(b2, pos, end, n),
    decreases n,
{
    if n > 0 {
        lemma_trigger_frame(b1, b2, pos, end);
        match spec_trigger(b1, pos, end) {
            Ok((t, p)) => {
                lemma_triggers_frame(b1, b2, p, end, (n - 1) as u32);
            },
            Err(_) => {},
        }
    }
}

/// The registry reads the same payload from two buffers that agree on
/// `[pos, end)`: every decoder's reads stay inside its payload range.
proof fn lemma_payload_frame(tag: u32, b1: Seq<u8>, b2: Seq<u8>, pos: int, end: int)
    requires
        0 <= pos <= end <= b1.len(),
        end <= b2.len(),
        forall|i: int| pos <= i < end ==> b1[i] == b2[i],
    ensures
        spec_payload(tag, b1, pos, end) == spec_payload(tag, b2, pos, end),
{
    reveal(spec_payload);
    lemma_reads_agree(b1, b2, pos, end);
    if tag == crate::chunks::INTERSECT {
        lemma_intersect_frame(b1, b2, pos, end);
    } else if tag == crate::chunks::LOCATOR {
        lemma_locator_frame(b1, b2, pos, end);
    } else if tag == crate::chunks::FENCE {
        assert(spec_wall_payload(b1, pos, end) == spec_wall_payload(b2, pos, end));
    } else if tag == crate::chunks::OBBOX {
        assert(spec_obbox_payload(b1, pos, end) == spec_obbox_payload(b2, pos, end));
    } else if tag == crate::chunks::SPHERE {
        assert(spec_sphere_payload(b1, pos, end) == spec_sphere_payload(b2, pos, end));
    } else if tag == crate::chunks::CYLINDER {
        assert(spec_cylinder_payload(b1, pos, end) == spec_cylinder_payload(b2, pos, end));
    } else if tag == crate::chunks::COLLISIONVEC {
        assert(spec_collisionvec_payload(b1, pos, end) == spec_collisionvec_payload(b2, pos, end));
    }
}

/// An intersection-mesh payload reads the same from two buffers that agree
/// on `[pos, end)`.
proof fn lemma_intersect_frame(b1: Seq<u8>, b2: Seq<u8>, pos: int, end: int)
    requires
        0 <= pos <= end <= b1.len(),
        end <= b2.len(),
        forall|i: int| pos <= i < end ==> b1[i] == b2[i],
    ensures
        spec_intersect_payload(b1, pos, end) == spec_intersect_payload(b2, pos, end),
{
    lemma_reads_agree(b1, b2, pos, end);
    if pos + 4 <= end {
        let n1 = le32_at(b1, pos) as int;
        let p1 = pos + 4;
        if p1 + n1 * 4 <= end {
            assert(Seq::new(n1 as nat, |j: int| le32_at(b1, p1 + j * 4)) =~= Seq::new(
                n1 as nat,
                |j: int| le32_at(b2, p1 + j * 4),
            )) by {
                assert forall|j: int| 0 <= j < n1 implies #[trigger] le32_at(b1, p1 + j * 4)
                    == le32_at(b2, p1 + j * 4) by {
                    assert(p1 + j * 4 + 4 <= p1 + n1 * 4);
                }
            }
            let p2 = p1 + n1 * 4;
            if p2 + 4 <= end {
                let n2 = le32_at(b1, p2) as int;
                let p3 = p2 + 4;
                if p3 + n2 * 12 <= end {
                    assert(Seq::new(n2 as nat, |j: int| spec_vec3_at(b1, p3 + j * 12)) =~= Seq::new(
                        n2 as nat,
                        |j: int| spec_vec3_at(b2, p3 + j * 12),
                    )) by {
                        assert forall|j: int| 0 <= j < n2 implies #[trigger] spec_vec3_at(
                            b1,
                            p3 + j * 12,
                        ) == spec_vec3_at(b2, p3 + j * 12) by {
                            assert(p3 + j * 12 + 12 <= p3 + n2 * 12);
                        }
                    }
                    let p4 = p3 + n2 * 12;
                    if p4 + 4 <= end {
                        let n3 = le32_at(b1, p4) as int;
                        let p5 = p4 + 4;
                        if p5 + n3 * 12 <= end {
                            assert(Seq::new(
                                n3 as nat,
                                |j: int| spec_vec3_at(b1, p5 + j * 12),
                            ) =~= Seq::new(n3 as nat, |j: int| spec_vec3_at(b2, p5 + j * 12))) by {
                                assert forall|j: int| 0 <= j < n3 implies #[trigger] spec_vec3_at(
                                    b1,
                                    p5 + j * 12,
                                ) == spec_vec3_at(b2, p5 + j * 12) by {
                                    assert(p5 + j * 12 + 12 <= p5 + n3 * 12);
                                }
                            }
                        }
                    }
                }
            }
        }
    }
}

/// A locator payload reads the same from two buffers that agree on
/// `[pos, end)`.
proof fn lemma_locator_frame(b1: Seq<u8>, b2: Seq<u8>, pos: int, end: int)
    requires
        0 <= pos <= end <= b1.len(),
        end <= b2.len(),
        forall|i: int| pos <= i < end ==> b1[i] == b2[i],
    ensures
        crate::triggers::spec_locator_payload(b1, pos, end)
            == crate::triggers::spec_locator_payload(b2, pos, end),
{
    lemma_reads_agree(b1, b2, pos, end);
    lemma_name_frame(b1, b2, pos, end);
    match spec_name(b1, pos, end) {
        Err(_) => {},
        Ok((name, p0)) => {
            if p0 + 8 <= end {
                let ttype = le32_at(b1, p0);
                let count = le32_at(b1, p0 + 4);
                assert(spec_elements(b1, p0 + 8, end, ttype, count) == spec_elements(
                    b2,
                    p0 + 8,
                    end,
                    ttype,
                    count,
                ));
                match spec_elements(b1, p0 + 8, end, ttype, count) {
                    Err(_) => {},
                    Ok((elements, p1)) => {
                        if p1 + 16 <= end {
                            let ntrig = le32_at(b1, p1 + 12);
                            lemma_triggers_frame(b1, b2, p1 + 16, end, ntrig);
                        }
                    },
                }
            }
        },
    }
}

/// Two buffers that agree on a chunk's whole range `[pos, end)` decode to
/// the same result: the walker reads nothing outside the range it is
/// given.
proof fn lemma_chunk_frame(b1: Seq<u8>, b2: Seq<u8>, pos: int, end: int, depth: u32)
    requires
        0 <= pos <= end <= b1.len(),
        end <= b2.len(),
        forall|i: int| pos <= i < end ==> b1[i] == b2[i],
    ensures
        spec_chunk(b1, pos, end, depth) == spec_chunk(b2, pos, end, depth),
    decreases end - pos, 0int,
{
    lemma_reads_agree(b1, b2, pos, end);
    if depth == 0 || pos + 12 > end {
    } else {
        let h = crate::header::spec_header_at(b1, pos);
        let ds = h.declared_data_size as int;
        let cs = h.declared_chunk_size as int;
        assert(crate::header::spec_header_at(b2, pos) == h);
        if ds < 12 || cs < ds || pos + cs > end {
        } else {
            lemma_payload_frame(h.tag, b1, b2, pos + 12, pos + ds);
            lemma_payload_frame(h.tag, b1, b2, pos + 12, pos + cs);
            lemma_children_frame(b1, b2, pos + ds, pos + cs, (depth - 1) as u32);
        }
    }
}

/// Two buffers that agree on a child region decode it to the same children.
proof fn lemma_children_frame(b1: Seq<u8>, b2: Seq<u8>, pos: int, end: int, depth: u32)
    requires
        0 <= pos <= end <= b1.len(),
        end <= b2.len(),
        forall|i: int| pos <= i < end ==> b1[i] == b2[i],
    ensures
        spec_children(b1, pos, end, depth) == spec_children(b2, pos, end, depth),
    decreases end - pos, 1int,
{
    lemma_reads_agree(b1, b2, pos, end);
    if pos >= end || pos + 12 > end {
    } else {
        let ds = le32_at(b1, pos + 4) as int;
        let cs = le32_at(b1, pos + 8) as int;
        if ds < 12 || cs < ds || pos + cs > end {
        } else {
            lemma_chunk_frame(b1, b2, pos, pos + cs, depth);
            lemma_children_frame(b1, b2, pos + cs, end, depth);
        }
    }
}

/// Law: byte consumption.  A decoded chunk consumes exactly its declared
/// chunk size: the decode's result is determined by the
/// `declared_chunk_size` bytes at the chunk's own start, and by nothing
/// else — not by bytes beyond that extent, and not by where the readable
/// range happens to end, in either buffer.
pub proof fn lemma_byte_consumption(
    b1: Seq<u8>,
    b2: Seq<u8>,
    pos: int,
    end1: int,
    end2: int,
    depth: u32,
)
    requires
        0 <= pos,
        le32_at(b1, pos + 8) >= 12,
        pos + le32_at(b1, pos + 8) <= end1 <= b1.len(),
        pos + le32_at(b1, pos + 8) <= end2 <= b2.len(),
        forall|i: int| pos <= i < pos + le32_at(b1, pos + 8) ==> b1[i] == b2[i],
    ensures
        spec_chunk(b1, pos, end1, depth) == spec_chunk(b2, pos, end2, depth),
{
    let cs = le32_at(b1, pos + 8) as int;
    assert(le32_at(b2, pos + 8) == cs) by {
        lemma_reads_agree(b1, b2, pos, pos + cs);
    }
    lemma_chunk_extent(b1, pos, end1, pos + cs, depth);
    lemma_chunk_frame(b1, b2, pos, pos + cs, depth);
    lemma_chunk_extent(b2, pos, pos + cs, end2, depth);
}

} // verus!
