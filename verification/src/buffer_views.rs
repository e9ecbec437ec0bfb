//! Assembling loaded bytes into per-buffer-view windows.
//!
//! Buffers come from three places: the binary chunk of the container,
//! embedded base64 data uris (decoded here), and external uris the
//! caller fetched.  Each buffer view then cuts its byte window out of
//! its buffer; views with compressed payloads take their decompressed
//! bytes from the caller instead, since the decompressor is not
//! available as a library.

use vstd::prelude::*;

use crate::document::GltfDocument;
use crate::error::LoadError;

verus! {

/// Whether a uri byte string names an embedded data payload.
pub open spec fn spec_is_data_uri(u: Seq<u8>) -> bool {
    u.len() >= 5 && u[0] == 100u8 && u[1] == 97u8 && u[2] == 116u8 && u[3] == 97u8 && u[4] == 58u8
}

/// Check for the `data:` prefix.
fn is_data_uri(u: &Vec<u8>) -> (r: bool)
    ensures
        r == spec_is_data_uri(u@),
{
    u.len() >= 5 && u[0] == 100 && u[1] == 97 && u[2] == 116 && u[3] == 97 && u[4] == 58
}

/// Find the first comma, which separates a data uri's media type from
/// its payload.
fn find_comma(u: &Vec<u8>) -> (r: Option<usize>)
    ensures
        r matches Some(p) ==> p < u@.len() && u@[p as int] == 44u8 && forall|q: int|
            0 <= q < p ==> u@[q] != 44u8,
        r is None ==> !spec_has_comma(u@),
{
    let mut i: usize = 0;
    while i < u.len()
        invariant
            i <= u.len(),
            forall|q: int| 0 <= q < i ==> u@[q] != 44u8,
        decreases u.len() - i,
    {
        if u[i] == 44 {
            return Some(i);
        }
        i += 1;
    }
    proof {
        assert(!spec_has_comma(u@)) by {
            if spec_has_comma(u@) {
                let p = choose|p: int| 0 <= p < u@.len() && u@[p] == 44u8;
                assert(u@[p] != 44u8);
            }
        }
    }
    None
}

/// Copy a byte range.
fn copy_bytes(v: &Vec<u8>, start: usize, len: usize) -> (r: Vec<u8>)
    requires
        start + len <= v.len(),
    ensures
        r@ == v@.subrange(start as int, start as int + len as int),
{
    let mut out: Vec<u8> = Vec::new();
    let mut i: usize = 0;
    while i < len
        invariant
            out.len() == i <= len,
            start + len <= v.len(),
            forall|j: int| 0 <= j < i ==> (#[trigger] out[j]) == v[start + j],
        decreases len - i,
    {
        out.push(v[start + i]);
        i += 1;
    }
    proof {
        assert(out@ =~= v@.subrange(start as int, start as int + len as int));
    }
    out
}

/// What the loaded bytes of buffer `b` are, for the paths whose
/// source the caller hands in directly: the container's binary chunk
/// for the first uri-less buffer, and the caller-fetched bytes for an
/// externally named one.  Embedded base64 payloads go through the
/// decoder and are not characterized here.
pub open spec fn spec_buffer_from_glb(doc: GltfDocument, glb_bin: Option<Vec<u8>>, b: int) -> bool {
    &&& b == 0
    &&& doc.buffers[b].uri is None
    &&& !doc.buffers[b].meshopt_fallback
    &&& glb_bin is Some
}

/// Whether buffer `b` is externally named and non-embedded.
pub open spec fn spec_buffer_external(doc: GltfDocument, b: int) -> bool {
    &&& doc.buffers[b].uri is Some
    &&& !spec_is_data_uri(doc.buffers[b].uri->0@)
    &&& !doc.buffers[b].meshopt_fallback
}

/// Whether a byte string contains a comma at all.
pub open spec fn spec_has_comma(u: Seq<u8>) -> bool {
    exists|p: int| 0 <= p < u.len() && u[p] == 44u8
}

/// The position of the first comma.
pub open spec fn spec_comma_pos(u: Seq<u8>) -> int {
    choose|p: int| 0 <= p < u.len() && #[trigger] u[p] == 44u8 && forall|q: int| 0 <= q < p ==> u[q] != 44u8
}

/// The payload of a data uri: everything after the first comma.
pub open spec fn spec_data_payload(u: Seq<u8>) -> Seq<u8> {
    u.subrange(spec_comma_pos(u) + 1, u.len() as int)
}

/// Any position satisfying the first-comma property is the first
/// comma.
proof fn lemma_first_comma(u: Seq<u8>, p: int)
    requires
        0 <= p < u.len(),
        u[p] == 44u8,
        forall|q: int| 0 <= q < p ==> u[q] != 44u8,
    ensures
        spec_has_comma(u),
        spec_comma_pos(u) == p,
{
    assert(spec_has_comma(u));
    assert(exists|p2: int|
        0 <= p2 < u.len() && #[trigger] u[p2] == 44u8 && forall|q: int|
            0 <= q < p2 ==> u[q] != 44u8) by {
        assert(0 <= p < u.len() && u[p] == 44u8 && forall|q: int| 0 <= q < p ==> u[q] != 44u8);
    }
    let p2 = spec_comma_pos(u);
    assert(0 <= p2 < u.len() && u[p2] == 44u8 && forall|q: int| 0 <= q < p2 ==> u[q] != 44u8);
    if p2 < p {
        assert(u[p2] != 44u8);
    }
    if p < p2 {
        assert(u[p] != 44u8);
    }
}

/// Whether a data uri's embedded payload decodes: it has a comma and
/// its payload is valid base64.
pub open spec fn spec_data_uri_decodes(u: Seq<u8>) -> bool {
    spec_has_comma(u) && crate::trusted::b64_decoded(spec_data_payload(u)) is Some
}

/// Whether buffer `b` can be loaded: it is a compression fallback, is
/// carried by the container (or simply absent), is supplied in
/// `fetched`, or is an embedded payload that decodes.
pub open spec fn spec_buffer_supplied(
    doc: GltfDocument,
    fetched: Seq<Option<Vec<u8>>>,
    b: int,
) -> bool {
    doc.buffers@[b].meshopt_fallback || match doc.buffers@[b].uri {
        Option::None => true,
        Option::Some(u) => if spec_is_data_uri(u@) {
            spec_data_uri_decodes(u@)
        } else {
            fetched[b] is Some
        },
    }
}

/// The bytes buffer `b` holds once loaded: the decoded embedded
/// payload, the caller-fetched bytes, or the container's binary
/// chunk.
pub open spec fn spec_supplied_bytes(
    doc: GltfDocument,
    glb_bin: Option<Vec<u8>>,
    fetched: Seq<Option<Vec<u8>>>,
    b: int,
) -> Seq<u8> {
    if doc.buffers@[b].uri is Some {
        if spec_is_data_uri(doc.buffers@[b].uri->0@) {
            crate::trusted::b64_decoded(spec_data_payload(doc.buffers@[b].uri->0@))->0
        } else {
            fetched[b]->0@
        }
    } else {
        glb_bin->0@
    }
}

/// Whether buffer `b` ends up loaded with the bytes
/// `spec_supplied_bytes` names.
pub open spec fn spec_buffer_loaded(
    doc: GltfDocument,
    glb_bin: Option<Vec<u8>>,
    fetched: Seq<Option<Vec<u8>>>,
    b: int,
) -> bool {
    &&& !doc.buffers@[b].meshopt_fallback
    &&& match doc.buffers@[b].uri {
        Option::None => b == 0 && glb_bin is Some,
        Option::Some(u) => if spec_is_data_uri(u@) {
            spec_data_uri_decodes(u@)
        } else {
            fetched[b] is Some
        },
    }
}

/// Whether view `i` cuts cleanly: uncompressed, an in-range buffer,
/// and — when that buffer is loaded — a window inside its bytes.
pub open spec fn spec_view_plain_ok(
    doc: GltfDocument,
    glb_bin: Option<Vec<u8>>,
    fetched: Seq<Option<Vec<u8>>>,
    i: int,
) -> bool {
    let v = doc.buffer_views@[i];
    &&& v.meshopt is None
    &&& (v.buffer as int) < doc.buffers.len()
    &&& (spec_buffer_loaded(doc, glb_bin, fetched, v.buffer as int) ==> v.byte_offset
        + v.byte_length <= spec_supplied_bytes(doc, glb_bin, fetched, v.buffer as int).len())
}

/// Assemble the per-view byte windows of a document.
///
/// `glb_bin` is the container's binary chunk; `fetched` supplies the
/// bytes of each externally-named buffer the caller resolved (one
/// entry per buffer); `decompressed` supplies the decompressed bytes
/// of each compressed buffer view (one entry per view).  A view whose
/// buffer is absent becomes an empty window, so a later accessor read
/// on it fails with a range error rather than mis-decoding.  Fails
/// when an externally-named buffer was not supplied, when an embedded
/// payload is not valid base64, when a compressed view's bytes are
/// missing or of the wrong length, or on an out-of-range reference.
pub fn build_buffer_view_map(
    doc: &GltfDocument,
    glb_bin: &Option<Vec<u8>>,
    fetched: &Vec<Option<Vec<u8>>>,
    decompressed: &Vec<Option<Vec<u8>>>,
) -> (r: Result<Vec<Vec<u8>>, LoadError>)
    requires
        fetched.len() == doc.buffers.len(),
        decompressed.len() == doc.buffer_views.len(),
    ensures
        (forall|b: int|
            0 <= b < doc.buffers.len() ==> #[trigger] spec_buffer_supplied(*doc, fetched@, b))
            && (forall|i: int|
            0 <= i < doc.buffer_views.len() ==> #[trigger] spec_view_plain_ok(
                *doc,
                *glb_bin,
                fetched@,
                i,
            )) ==> r.is_ok(),
        r matches Ok(views) ==> {
            &&& views.len() == doc.buffer_views.len()
            &&& forall|i: int|
                0 <= i < views.len() && (#[trigger] doc.buffer_views@[i]).meshopt is Some
                    ==> views[i]@ == decompressed[i]->0@
            &&& forall|i: int|
                {
                    let v = #[trigger] doc.buffer_views@[i];
                    0 <= i < views.len() && v.meshopt is None && (v.buffer as int)
                        < doc.buffers.len() && spec_buffer_from_glb(*doc, *glb_bin, v.buffer as int)
                        && v.byte_offset + v.byte_length <= glb_bin->0@.len() ==> views[i]@
                        == glb_bin->0@.subrange(
                        v.byte_offset as int,
                        v.byte_offset + v.byte_length,
                    )
                }
            &&& forall|i: int|
                {
                    let v = #[trigger] doc.buffer_views@[i];
                    0 <= i < views.len() && v.meshopt is None && (v.buffer as int)
                        < doc.buffers.len() && spec_buffer_external(*doc, v.buffer as int)
                        && fetched[v.buffer as int] is Some && v.byte_offset + v.byte_length
                        <= fetched[v.buffer as int]->0@.len() ==> views[i]@ == fetched[
                        v.buffer as int
                    ]->0@.subrange(v.byte_offset as int, v.byte_offset + v.byte_length)
                }
            &&& forall|i: int|
                {
                    let v = #[trigger] doc.buffer_views@[i];
                    let u = doc.buffers@[v.buffer as int].uri->0@;
                    0 <= i < views.len() && v.meshopt is None && (v.buffer as int)
                        < doc.buffers.len() && !doc.buffers@[v.buffer as int].meshopt_fallback
                        && doc.buffers@[v.buffer as int].uri is Some && spec_is_data_uri(u)
                        && spec_data_uri_decodes(u) && v.byte_offset + v.byte_length
                        <= crate::trusted::b64_decoded(spec_data_payload(u))->0.len()
                        ==> views[i]@ == crate::trusted::b64_decoded(
                        spec_data_payload(u),
                    )->0.subrange(v.byte_offset as int, v.byte_offset + v.byte_length)
                }
        },
{
    let n_buffers = doc.buffers.len();
    let mut buffer_map: Vec<Option<Vec<u8>>> = Vec::new();
    let mut i: usize = 0;
    while i < n_buffers
        invariant
            buffer_map.len() == i <= n_buffers,
            n_buffers == doc.buffers.len(),
            fetched.len() == n_buffers,
            forall|b: int|
                0 <= b < i && spec_buffer_from_glb(*doc, *glb_bin, b)
                    ==> ((#[trigger] buffer_map[b]) matches Some(bytes) && bytes@ == glb_bin->0@),
            forall|b: int|
                0 <= b < i && !(#[trigger] doc.buffers@[b]).meshopt_fallback && doc.buffers@[
                    b
                ].uri is Some && spec_is_data_uri(doc.buffers@[b].uri->0@)
                    ==> spec_data_uri_decodes(doc.buffers@[b].uri->0@),
            forall|b: int| 0 <= b < i && spec_buffer_external(*doc, b) ==> fetched[b] is Some,
            forall|b: int|
                0 <= b < i && (#[trigger] doc.buffers@[b]).meshopt_fallback ==> buffer_map[b]
                    is None,
            forall|b: int|
                0 <= b < i && (#[trigger] doc.buffers@[b]).uri is None && !spec_buffer_from_glb(
                    *doc,
                    *glb_bin,
                    b,
                ) ==> buffer_map[b] is None,

            forall|b: int|
                0 <= b < i && spec_buffer_external(*doc, b) && fetched[b] is Some
                    ==> ((#[trigger] buffer_map[b]) matches Some(bytes) && bytes@ == fetched[
                    b
                ]->0@),
            forall|b: int|
                0 <= b < i && !doc.buffers@[b].meshopt_fallback && doc.buffers@[b].uri is Some
                    && spec_is_data_uri(doc.buffers@[b].uri->0@) && spec_data_uri_decodes(
                    doc.buffers@[b].uri->0@,
                ) ==> ((#[trigger] buffer_map[b]) matches Some(bytes) && bytes@
                    == crate::trusted::b64_decoded(
                    spec_data_payload(doc.buffers@[b].uri->0@),
                )->0),
        decreases n_buffers - i,
    {
        let buffer = &doc.buffers[i];
        if buffer.meshopt_fallback {
            buffer_map.push(None);
        } else {
            match &buffer.uri {
                Some(uri) => {
                    if is_data_uri(uri) {
                        match find_comma(uri) {
                            Some(p) => {
                                proof {
                                    lemma_first_comma(uri@, p as int);
                                }
                                assert(p < uri.len());
                                let payload = copy_bytes(uri, p + 1, uri.len() - (p + 1));
                                proof {
                                    assert(payload@ =~= spec_data_payload(uri@));
                                }
                                match crate::trusted::base64_decode(payload.as_slice()) {
                                    Some(decoded) => buffer_map.push(Some(decoded)),
                                    None => {
                                        proof {
                                            assert(!spec_buffer_supplied(*doc, fetched@, i as int));
                                        }
                                        return Err(LoadError::MissingBufferData { buffer: i });
                                    },
                                }
                            },
                            None => {
                                proof {
                                    assert(!spec_buffer_supplied(*doc, fetched@, i as int));
                                }
                                return Err(LoadError::MissingBufferData { buffer: i });
                            },
                        }
                    } else {
                        match &fetched[i] {
                            Some(bytes) => {
                                let copy = copy_bytes(bytes, 0, bytes.len());
                                proof {
                                    assert(copy@ =~= bytes@);
                                }
                                buffer_map.push(Some(copy));
                            },
                            None => {
                                proof {
                                    assert(!spec_buffer_supplied(*doc, fetched@, i as int));
                                }
                                return Err(LoadError::MissingBufferData { buffer: i });
                            },
                        }
                    }
                },
                None => {
                    if i == 0 {
                        match glb_bin {
                            Some(bytes) => {
                                let copy = copy_bytes(bytes, 0, bytes.len());
                                proof {
                                    assert(copy@ =~= bytes@);
                                }
                                buffer_map.push(Some(copy));
                            },
                            None => {
                                buffer_map.push(None);
                            },
                        }
                    } else {
                        buffer_map.push(None);
                    }
                },
            }
        }
        i += 1;
    }
    let n_views = doc.buffer_views.len();
    let mut views: Vec<Vec<u8>> = Vec::new();
    let mut i: usize = 0;
    while i < n_views
        invariant
            views.len() == i <= n_views,
            n_views == doc.buffer_views.len(),
            buffer_map.len() == doc.buffers.len(),
            fetched.len() == doc.buffers.len(),
            decompressed.len() == n_views,
            forall|b: int|
                0 <= b < doc.buffers.len() && spec_buffer_from_glb(*doc, *glb_bin, b)
                    ==> ((#[trigger] buffer_map[b]) matches Some(bytes) && bytes@ == glb_bin->0@),
            forall|b: int|
                0 <= b < doc.buffers.len() && !(#[trigger] doc.buffers@[b]).meshopt_fallback
                    && doc.buffers@[b].uri is Some && spec_is_data_uri(doc.buffers@[b].uri->0@)
                    ==> spec_data_uri_decodes(doc.buffers@[b].uri->0@),
            forall|b: int|
                0 <= b < doc.buffers.len() && spec_buffer_external(*doc, b) ==> fetched[b] is Some,
            forall|b: int|
                0 <= b < doc.buffers.len() && (#[trigger] doc.buffers@[b]).meshopt_fallback
                    ==> buffer_map[b] is None,
            forall|b: int|
                0 <= b < doc.buffers.len() && (#[trigger] doc.buffers@[b]).uri is None
                    && !spec_buffer_from_glb(*doc, *glb_bin, b) ==> buffer_map[b] is None,

            forall|b: int|
                0 <= b < doc.buffers.len() && spec_buffer_external(*doc, b) && fetched[b] is Some
                    ==> ((#[trigger] buffer_map[b]) matches Some(bytes) && bytes@ == fetched[
                    b
                ]->0@),
            forall|b: int|
                0 <= b < doc.buffers.len() && !doc.buffers@[b].meshopt_fallback && doc.buffers@[
                    b
                ].uri is Some && spec_is_data_uri(doc.buffers@[b].uri->0@) && spec_data_uri_decodes(
                    doc.buffers@[b].uri->0@,
                ) ==> ((#[trigger] buffer_map[b]) matches Some(bytes) && bytes@
                    == crate::trusted::b64_decoded(
                    spec_data_payload(doc.buffers@[b].uri->0@),
                )->0),
            forall|k: int|
                0 <= k < i && (#[trigger] doc.buffer_views@[k]).meshopt is Some ==> views[k]@
                    == decompressed[k]->0@,
            forall|k: int|
                {
                    let v = #[trigger] doc.buffer_views@[k];
                    0 <= k < i && v.meshopt is None && (v.buffer as int) < doc.buffers.len()
                        && spec_buffer_from_glb(*doc, *glb_bin, v.buffer as int) && v.byte_offset
                        + v.byte_length <= glb_bin->0@.len() ==> views[k]@ == glb_bin->0@.subrange(
                        v.byte_offset as int,
                        v.byte_offset + v.byte_length,
                    )
                },
            forall|k: int|
                {
                    let v = #[trigger] doc.buffer_views@[k];
                    0 <= k < i && v.meshopt is None && (v.buffer as int) < doc.buffers.len()
                        && spec_buffer_external(*doc, v.buffer as int) && fetched[v.buffer as int]
                        is Some && v.byte_offset + v.byte_length <= fetched[
                        v.buffer as int
                    ]->0@.len() ==> views[k]@ == fetched[v.buffer as int]->0@.subrange(
                        v.byte_offset as int,
                        v.byte_offset + v.byte_length,
                    )
                },
            forall|k: int|
                {
                    let v = #[trigger] doc.buffer_views@[k];
                    let u = doc.buffers@[v.buffer as int].uri->0@;
                    0 <= k < i && v.meshopt is None && (v.buffer as int) < doc.buffers.len()
                        && !doc.buffers@[v.buffer as int].meshopt_fallback && doc.buffers@[
                        v.buffer as int
                    ].uri is Some && spec_is_data_uri(u) && spec_data_uri_decodes(u)
                        && v.byte_offset + v.byte_length <= crate::trusted::b64_decoded(
                        spec_data_payload(u),
                    )->0.len() ==> views[k]@ == crate::trusted::b64_decoded(
                        spec_data_payload(u),
                    )->0.subrange(v.byte_offset as int, v.byte_offset + v.byte_length)
                },
        decreases n_views - i,
    {
        let view = &doc.buffer_views[i];
        proof {
            assert(*view == doc.buffer_views@[i as int]);
        }
        match &view.meshopt {
            Some(ext) => {
                match &decompressed[i] {
                    Some(bytes) => {
                        if ext.byte_stride != 0 && ext.count > bytes.len() / ext.byte_stride {
                            proof {
                                assert(!spec_view_plain_ok(*doc, *glb_bin, fetched@, i as int));
                            }
                            return Err(
                                LoadError::AttributeCountMismatch {
                                    expected: ext.count,
                                    got: bytes.len(),
                                },
                            );
                        }
                        let copy = copy_bytes(bytes, 0, bytes.len());
                        proof {
                            assert(copy@ =~= bytes@);
                        }
                        views.push(copy);
                    },
                    None => {
                        proof {
                            assert(!spec_view_plain_ok(*doc, *glb_bin, fetched@, i as int));
                        }
                        return Err(LoadError::MissingBufferData { buffer: ext.buffer });
                    },
                }
            },
            None => {
                if view.buffer >= buffer_map.len() {
                    proof {
                        assert(!spec_view_plain_ok(*doc, *glb_bin, fetched@, i as int));
                    }
                    return Err(LoadError::BufferViewOutOfRange { buffer_view: i });
                }
                match &buffer_map[view.buffer] {
                    Some(bytes) => {
                        proof {
                            let b = view.buffer as int;
                            let buf = doc.buffers@[b];
                            if buf.meshopt_fallback {
                                assert(buffer_map[b] is None);
                                assert(false);
                            } else if buf.uri is None {
                                if !spec_buffer_from_glb(*doc, *glb_bin, b) {
                                    assert(buffer_map[b] is None);
                                    assert(false);
                                } else {
                                    assert(bytes@ == glb_bin->0@);
                                    assert(spec_buffer_loaded(*doc, *glb_bin, fetched@, b));
                                    assert(spec_supplied_bytes(*doc, *glb_bin, fetched@, b)
                                        == bytes@);
                                }
                            } else if spec_is_data_uri(buf.uri->0@) {
                                assert(spec_data_uri_decodes(buf.uri->0@));
                                assert(bytes@ == crate::trusted::b64_decoded(
                                    spec_data_payload(buf.uri->0@),
                                )->0);
                                assert(spec_buffer_loaded(*doc, *glb_bin, fetched@, b));
                                assert(spec_supplied_bytes(*doc, *glb_bin, fetched@, b) == bytes@);
                            } else {
                                assert(spec_buffer_external(*doc, b));
                                assert(fetched[b] is Some);
                                assert(fetched@[b] == fetched[b]);
                                assert(bytes@ == fetched[b]->0@);
                                assert(spec_buffer_loaded(*doc, *glb_bin, fetched@, b));
                                assert(spec_supplied_bytes(*doc, *glb_bin, fetched@, b) == bytes@);
                            }
                        }
                        if view.byte_offset > bytes.len() || view.byte_length > bytes.len()
                            - view.byte_offset {
                            proof {
                                assert(!spec_view_plain_ok(*doc, *glb_bin, fetched@, i as int));
                            }
                            return Err(LoadError::AccessorRangeOutOfBounds);
                        }
                        views.push(copy_bytes(bytes, view.byte_offset, view.byte_length));
                    },
                    None => {
                        views.push(Vec::new());
                    },
                }
            },
        }
        i += 1;
    }
    Ok(views)
}

} // verus!
