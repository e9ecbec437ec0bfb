//! The binary glTF container.
//!
//! A GLB buffer is a 12-byte header (magic, version, total length)
//! followed by a JSON chunk and an optional binary chunk, each with an
//! 8-byte chunk header.  Parsing splits the buffer into those two
//! payloads; every malformed shape is rejected as a container error.

use vstd::prelude::*;

use crate::accessor::{read_le32, spec_le32};
use crate::error::LoadError;

verus! {

/// The magic number that opens a binary glTF buffer ("glTF").
pub const GLB_MAGIC: u32 = 0x46546C67;

/// The chunk type of the JSON chunk ("JSON").
pub const GLB_CHUNK_JSON: u32 = 0x4E4F534A;

/// The chunk type of the binary chunk ("BIN\0").
pub const GLB_CHUNK_BIN: u32 = 0x004E4942;

/// The two payloads of a binary glTF container.
pub struct GlbParts {
    pub json: Vec<u8>,
    pub bin: Option<Vec<u8>>,
}

/// Whether a byte buffer is a well-formed binary glTF container:
/// correct magic and version, a declared total length equal to the
/// buffer's, a JSON chunk first, and either nothing after it or one
/// binary chunk that ends exactly at the end of the buffer.
pub open spec fn spec_glb_well_formed(b: Seq<u8>) -> bool {
    &&& b.len() >= 28
    &&& spec_le32(b, 0) == GLB_MAGIC
    &&& spec_le32(b, 4) == 2
    &&& spec_le32(b, 8) == b.len()
    &&& spec_le32(b, 16) == GLB_CHUNK_JSON
    &&& 20 + spec_le32(b, 12) <= b.len()
    &&& {
        let json_end = 20 + spec_le32(b, 12);
        ||| json_end == b.len()
        ||| (json_end + 8 <= b.len() && spec_le32(b, json_end + 4) == GLB_CHUNK_BIN && json_end + 8
            + spec_le32(b, json_end) == b.len())
    }
}

/// Whether a well-formed container carries a binary chunk.
pub open spec fn spec_glb_has_bin(b: Seq<u8>) -> bool {
    20 + spec_le32(b, 12) < b.len()
}

/// Copy a byte range into an owned buffer.
fn copy_range(bytes: &[u8], start: usize, len: usize) -> (r: Vec<u8>)
    requires
        start + len <= bytes.len(),
    ensures
        r@ == bytes@.subrange(start as int, start as int + len as int),
{
    let mut out: Vec<u8> = Vec::new();
    let mut i: usize = 0;
    while i < len
        invariant
            out.len() == i <= len,
            start + len <= bytes.len(),
            forall|j: int| 0 <= j < i ==> (#[trigger] out[j]) == bytes[start + j],
        decreases len - i,
    {
        out.push(bytes[start + i]);
        i += 1;
    }
    proof {
        assert(out@ =~= bytes@.subrange(start as int, start as int + len as int));
    }
    out
}

/// Split a binary glTF buffer into its JSON payload and optional
/// binary payload.  Succeeds exactly on well-formed containers.
pub fn parse_glb(bytes: &[u8]) -> (r: Result<GlbParts, LoadError>)
    ensures
        r.is_ok() <==> spec_glb_well_formed(bytes@),
        r matches Ok(parts) ==> {
            let json_len = spec_le32(bytes@, 12);
            &&& parts.json@ == bytes@.subrange(20, 20 + json_len)
            &&& parts.bin.is_some() <==> spec_glb_has_bin(bytes@)
            &&& parts.bin matches Some(bin) ==> bin@ == bytes@.subrange(
                28 + json_len,
                28 + json_len + spec_le32(bytes@, 20 + json_len),
            )
        },
        r matches Err(e) ==> e == LoadError::BadGlbContainer,
{
    if bytes.len() < 28 {
        return Err(LoadError::BadGlbContainer);
    }
    let magic = read_le32(bytes, 0);
    let version = read_le32(bytes, 4);
    let declared = read_le32(bytes, 8);
    if magic != GLB_MAGIC || version != 2 {
        return Err(LoadError::BadGlbContainer);
    }
    if !(declared as usize == bytes.len()) {
        return Err(LoadError::BadGlbContainer);
    }
    let json_len = read_le32(bytes, 12) as usize;
    let json_type = read_le32(bytes, 16);
    if json_type != GLB_CHUNK_JSON {
        return Err(LoadError::BadGlbContainer);
    }
    if json_len > bytes.len() - 20 {
        return Err(LoadError::BadGlbContainer);
    }
    let json_end = 20 + json_len;
    let json = copy_range(bytes, 20, json_len);
    if json_end == bytes.len() {
        return Ok(GlbParts { json, bin: None });
    }
    if bytes.len() - json_end < 8 {
        return Err(LoadError::BadGlbContainer);
    }
    let bin_len = read_le32(bytes, json_end) as usize;
    let bin_type = read_le32(bytes, json_end + 4);
    if bin_type != GLB_CHUNK_BIN {
        return Err(LoadError::BadGlbContainer);
    }
    if !(bin_len == bytes.len() - json_end - 8) {
        return Err(LoadError::BadGlbContainer);
    }
    let bin = copy_range(bytes, json_end + 8, bin_len);
    Ok(GlbParts { json, bin: Some(bin) })
}

} // verus!
