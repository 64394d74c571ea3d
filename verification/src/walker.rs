//! The recursive descent walker: reads one header, splits the chunk's
//! region into its own payload and its child region, decodes the payload
//! through the registry and recurses into the children until the child
//! region is exhausted exactly.
use crate::bytes::{le32_at, DecodeError};
use crate::header::{read_header, spec_header_at, ChunkHeader};
use crate::registry::{
    decode_payload, is_container, spec_is_container, spec_payload, Chunk, ChunkModel,
};
use vstd::prelude::*;

verus! {

broadcast use vstd::seq::axiom_seq_index_decreases;

/// The walker refuses trees nested more deeply than this, with a typed
/// error, so that an adversarially nested file cannot exhaust the call
/// stack.  Real scene files nest a handful of levels.
pub const MAX_DEPTH: u32 = 500;

/// One decoded node of the chunk tree: its payload variant and its child
/// nodes in encounter order.  A node owns its children exclusively; the
/// tree is immutable once built.
#[derive(Debug, PartialEq, Eq)]
pub struct ChunkNode {
    pub variant: Chunk,
    pub children: Vec<ChunkNode>,
}

/// The mathematical image of a `ChunkNode`.
pub ghost struct NodeModel {
    pub variant: ChunkModel,
    pub children: Seq<NodeModel>,
}

/// The models of a run of nodes, in order.
pub open spec fn node_models(s: Seq<ChunkNode>) -> Seq<NodeModel>
    decreases s,
{
    Seq::new(
        s.len(),
        |i: int|
            if 0 <= i < s.len() {
                s[i].model()
            } else {
                arbitrary()
            },
    )
}

impl ChunkNode {
    pub open spec fn model(self) -> NodeModel
        decreases self,
    {
        NodeModel { variant: self.variant.model(), children: node_models(self.children@) }
    }
}

/// The decode of the single chunk that starts at `pos`, given that the
/// buffer is readable up to `end`.
///
/// The walker reads the 12-byte header, rejects contradictory declared
/// sizes, rejects a declared extent that overruns `end`, and then splits:
/// a container decodes its own `declared_data_size - 12` payload bytes and
/// walks the rest of its region as children; a leaf hands its whole
/// `declared_chunk_size - 12` region to the registry as payload.  The chunk
/// occupies exactly `declared_chunk_size` bytes; what follows is the
/// caller's.
pub open spec fn spec_chunk(b: Seq<u8>, pos: int, end: int, depth: u32) -> Result<
    NodeModel,
    DecodeError,
>
    decreases end - pos, 0int,
{
    if depth == 0 {
        Err(DecodeError::DepthLimit)
    } else if pos + 12 > end {
        Err(DecodeError::TruncatedInput)
    } else {
        let h = spec_header_at(b, pos);
        let ds = h.declared_data_size as int;
        let cs = h.declared_chunk_size as int;
        if ds < 12 || cs < ds {
            Err(DecodeError::SizeInconsistency)
        } else if pos + cs > end {
            Err(DecodeError::TruncatedInput)
        } else if spec_is_container(h.tag) {
            match spec_payload(h.tag, b, pos + 12, pos + ds) {
                Err(e) => Err(e),
                Ok(variant) => match spec_children(b, pos + ds, pos + cs, (depth - 1) as u32) {
                    Err(e) => Err(e),
                    Ok(children) => Ok(NodeModel { variant, children }),
                },
            }
        } else {
            match spec_payload(h.tag, b, pos + 12, pos + cs) {
                Err(e) => Err(e),
                Ok(variant) => Ok(NodeModel { variant, children: Seq::empty() }),
            }
        }
    }
}

/// The decode of a container's child region `[pos, end)`: child chunks back
/// to back, each consuming exactly its declared chunk size, until the
/// region is exhausted to zero bytes.  A non-empty residue too short for a
/// header is a `SizeInconsistency`; a child whose declared extent overruns
/// the region is a `TruncatedInput`.
pub open spec fn spec_children(b: Seq<u8>, pos: int, end: int, depth: u32) -> Result<
    Seq<NodeModel>,
    DecodeError,
>
    decreases end - pos, 1int,
{
    if pos >= end {
        Ok(Seq::empty())
    } else if pos + 12 > end {
        Err(DecodeError::SizeInconsistency)
    } else {
        let ds = le32_at(b, pos + 4) as int;
        let cs = le32_at(b, pos + 8) as int;
        if ds < 12 || cs < ds {
            Err(DecodeError::SizeInconsistency)
        } else if pos + cs > end {
            Err(DecodeError::TruncatedInput)
        } else {
            match spec_chunk(b, pos, pos + cs, depth) {
                Err(e) => Err(e),
                Ok(node) => match spec_children(b, pos + cs, end, depth) {
                    Err(e) => Err(e),
                    Ok(rest) => Ok(Seq::empty().push(node) + rest),
                },
            }
        }
    }
}

/// What decoding a whole buffer yields: the single chunk at its front.
/// Bytes after that chunk's declared extent are ignored, not an error.
pub open spec fn spec_decode(b: Seq<u8>) -> Result<NodeModel, DecodeError> {
    spec_chunk(b, 0, b.len() as int, MAX_DEPTH)
}

/// Decodes the chunk at `pos`, whose bytes run at most to `end`.
#[verifier::rlimit(60)]
pub fn decode_chunk(b: &Vec<u8>, pos: usize, end: usize, depth: u32) -> (r: Result<
    ChunkNode,
    DecodeError,
>)
    requires
        pos <= end <= b.len(),
    ensures
        match r {
            Ok(node) => spec_chunk(b@, pos as int, end as int, depth) == Ok::<
                NodeModel,
                DecodeError,
            >(node.model()),
            Err(e) => spec_chunk(b@, pos as int, end as int, depth) == Err::<
                NodeModel,
                DecodeError,
            >(e),
        },
    decreases end - pos, 0int,
{
    if depth == 0 {
        return Err(DecodeError::DepthLimit);
    }
    if end - pos < 12 {
        return Err(DecodeError::TruncatedInput);
    }
    let h: ChunkHeader = match read_header(b, pos) {
        Ok(h) => h,
        Err(e) => {
            return Err(e);
        },
    };
    if h.declared_data_size < 12 || h.declared_chunk_size < h.declared_data_size {
        return Err(DecodeError::SizeInconsistency);
    }
    let cs = h.declared_chunk_size as usize;
    let ds = h.declared_data_size as usize;
    if cs > end - pos {
        return Err(DecodeError::TruncatedInput);
    }
    if is_container(h.tag) {
        let variant = match decode_payload(h.tag, b, pos + 12, pos + ds) {
            Ok(v) => v,
            Err(e) => {
                return Err(e);
            },
        };
        let children = match decode_children(b, pos + ds, pos + cs, depth - 1) {
            Ok(v) => v,
            Err(e) => {
                return Err(e);
            },
        };
        let node = ChunkNode { variant, children };
        proof {
            assert(node.model().children =~= node_models(node.children@));
        }
        Ok(node)
    } else {
        let variant = match decode_payload(h.tag, b, pos + 12, pos + cs) {
            Ok(v) => v,
            Err(e) => {
                return Err(e);
            },
        };
        let node = ChunkNode { variant, children: Vec::new() };
        proof {
            assert(node.model().children =~= Seq::<NodeModel>::empty());
        }
        Ok(node)
    }
}

/// Walks a container's child region, collecting its children in encounter
/// order until the region is exhausted exactly.
fn decode_children(b: &Vec<u8>, pos: usize, end: usize, depth: u32) -> (r: Result<
    Vec<ChunkNode>,
    DecodeError,
>)
    requires
        pos <= end <= b.len(),
    ensures
        match r {
            Ok(nodes) => spec_children(b@, pos as int, end as int, depth) == Ok::<
                Seq<NodeModel>,
                DecodeError,
            >(node_models(nodes@)),
            Err(e) => spec_children(b@, pos as int, end as int, depth) == Err::<
                Seq<NodeModel>,
                DecodeError,
            >(e),
        },
    decreases end - pos, 1int,
{
    let mut out: Vec<ChunkNode> = Vec::new();
    let mut cur: usize = pos;
    proof {
        assert(node_models(out@) =~= Seq::<NodeModel>::empty());
    }
    while cur < end
        invariant
            pos <= cur <= end <= b.len(),
            match spec_children(b@, cur as int, end as int, depth) {
                Ok(rest) => spec_children(b@, pos as int, end as int, depth) == Ok::<
                    Seq<NodeModel>,
                    DecodeError,
                >(node_models(out@) + rest),
                Err(e) => spec_children(b@, pos as int, end as int, depth) == Err::<
                    Seq<NodeModel>,
                    DecodeError,
                >(e),
            },
        decreases end - cur,
    {
        if end - cur < 12 {
            return Err(DecodeError::SizeInconsistency);
        }
        let ds = crate::bytes::read_u32(b, cur + 4);
        let cs = crate::bytes::read_u32(b, cur + 8);
        if ds < 12 || cs < ds {
            return Err(DecodeError::SizeInconsistency);
        }
        let csz = cs as usize;
        if csz > end - cur {
            return Err(DecodeError::TruncatedInput);
        }
        let ghost prev_cur = cur as int;
        let ghost prev_models = node_models(out@);
        let node = match decode_chunk(b, cur, cur + csz, depth) {
            Ok(v) => v,
            Err(e) => {
                return Err(e);
            },
        };
        out.push(node);
        cur = cur + csz;
        proof {
            assert(node_models(out@) =~= prev_models + Seq::empty().push(node.model()));
            match spec_children(b@, cur as int, end as int, depth) {
                Ok(rest) => {
                    assert(spec_children(b@, prev_cur, end as int, depth) == Ok::<
                        Seq<NodeModel>,
                        DecodeError,
                    >(Seq::empty().push(node.model()) + rest));
                    assert(prev_models + (Seq::empty().push(node.model()) + rest) =~= node_models(
                        out@,
                    ) + rest);
                },
                Err(e) => {
                    assert(spec_children(b@, prev_cur, end as int, depth) == Err::<
                        Seq<NodeModel>,
                        DecodeError,
                    >(e));
                },
            }
        }
    }
    proof {
        assert(node_models(out@) + Seq::<NodeModel>::empty() =~= node_models(out@));
    }
    Ok(out)
}

/// Decodes a whole buffer into its single root chunk tree.  Bytes after
/// the root chunk's declared extent are ignored.  Identical bytes always
/// yield an identical tree; on any structural failure the whole decode is
/// abandoned and the typed error returned, with no partial tree.
pub fn decode(buffer: &Vec<u8>) -> (r: Result<ChunkNode, DecodeError>)
    ensures
        match r {
            Ok(node) => spec_decode(buffer@) == Ok::<NodeModel, DecodeError>(node.model()),
            Err(e) => spec_decode(buffer@) == Err::<NodeModel, DecodeError>(e),
        },
{
    decode_chunk(buffer, 0, buffer.len(), MAX_DEPTH)
}

} // verus!
