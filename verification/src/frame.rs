//! The OpenD frame: a 44-byte header followed by a protobuf body.
//!
//! Header layout (integers little-endian):
//! bytes 0..2 the flag "FT", 2..6 the proto id, 6 the body format,
//! 7 the proto version, 8..12 the serial number, 12..16 the body length,
//! 16..36 the SHA-1 of the body, 36..44 reserved (zero).
use sha1::Digest;
use vstd::bytes::*;
use vstd::prelude::*;
use vstd::slice::*;

use crate::bytes_util::push_all;

verus! {

/// First byte of the header flag ("F").
pub const HEADER_FLAG_0: u8 = 0x46;

/// Second byte of the header flag ("T").
pub const HEADER_FLAG_1: u8 = 0x54;

/// Length of a frame header in bytes.
pub const HEADER_LEN: usize = 44;

/// Body format: protobuf.
pub const PROTO_FMT_PROTOBUF: u8 = 0;

/// Protocol version written into every frame.
pub const PROTO_VER: u8 = 0;

/// The fields of a frame header that the client reads.
pub struct FrameHeader {
    pub proto_id: u32,
    pub proto_fmt_type: u8,
    pub proto_ver: u8,
    pub serial_no: u32,
    pub body_len: u32,
}

/// The SHA-1 digest of `data`, as computed by the `sha1` crate.
pub uninterp spec fn sha1_digest(data: Seq<u8>) -> Seq<u8>;

/// Calls `sha1::Sha1::digest` on `data`. Trusted: the result is the SHA-1
/// digest of the bytes, named `sha1_digest`; its length of 20 bytes comes
/// from the array type.
#[verifier::external_body]
fn body_sha1(data: &[u8]) -> (out: [u8; 20])
    ensures
        out@ == sha1_digest(data@),
{
    sha1::Sha1::digest(data).into()
}

/// Eight zero bytes.
pub open spec fn reserved_bytes() -> Seq<u8> {
    seq![0u8, 0u8, 0u8, 0u8, 0u8, 0u8, 0u8, 0u8]
}

/// The 44 header bytes for the given fields and body digest.
pub open spec fn spec_header_bytes(proto_id: u32, serial_no: u32, body_len: u32, digest: Seq<u8>) -> Seq<u8> {
    seq![HEADER_FLAG_0, HEADER_FLAG_1] + spec_u32_to_le_bytes(proto_id) + seq![
        PROTO_FMT_PROTOBUF,
        PROTO_VER,
    ] + spec_u32_to_le_bytes(serial_no) + spec_u32_to_le_bytes(body_len) + digest
        + reserved_bytes()
}

/// The complete frame carrying `body`: its header, then the body itself.
/// The length field is the body length truncated to 32 bits.
pub open spec fn spec_frame(proto_id: u32, serial_no: u32, body: Seq<u8>) -> Seq<u8> {
    spec_header_bytes(proto_id, serial_no, body.len() as u32, sha1_digest(body)) + body
}

/// What a header parses to: an error unless it starts with the flag "FT",
/// else its fields read little-endian at their offsets.
pub open spec fn spec_parse_header(h: Seq<u8>) -> Option<FrameHeader> {
    if h[0] == HEADER_FLAG_0 && h[1] == HEADER_FLAG_1 {
        Some(
            FrameHeader {
                proto_id: spec_u32_from_le_bytes(h.subrange(2, 6)),
                proto_fmt_type: h[6],
                proto_ver: h[7],
                serial_no: spec_u32_from_le_bytes(h.subrange(8, 12)),
                body_len: spec_u32_from_le_bytes(h.subrange(12, 16)),
            },
        )
    } else {
        None
    }
}

/// Builds the frame that carries `body` under `proto_id` and `serial_no`,
/// with `digest` in the digest field.
pub fn build_frame_with_digest(proto_id: u32, serial_no: u32, body: &[u8], digest: &[u8; 20]) -> (frame: Vec<u8>)
    requires
        body@.len() + HEADER_LEN <= usize::MAX,
    ensures
        frame@ == spec_header_bytes(proto_id, serial_no, body@.len() as u32, digest@) + body@,
        frame@.len() == HEADER_LEN + body@.len(),
        frame@.subrange(16, 36) == digest@,
{
    let mut frame: Vec<u8> = Vec::with_capacity(HEADER_LEN + body.len());
    frame.push(HEADER_FLAG_0);
    frame.push(HEADER_FLAG_1);
    push_all(&mut frame, u32_to_le_bytes(proto_id).as_slice());
    frame.push(PROTO_FMT_PROTOBUF);
    frame.push(PROTO_VER);
    push_all(&mut frame, u32_to_le_bytes(serial_no).as_slice());
    push_all(&mut frame, u32_to_le_bytes(body.len() as u32).as_slice());
    push_all(&mut frame, digest.as_slice());
    let reserved: [u8; 8] = [0u8; 8];
    push_all(&mut frame, reserved.as_slice());
    proof {
        assert(reserved@ == reserved_bytes());
        assert(frame@ == spec_header_bytes(proto_id, serial_no, body@.len() as u32, digest@));
    }
    push_all(&mut frame, body);
    proof {
        lemma_auto_spec_u32_to_from_le_bytes();
        assert(frame@.subrange(16, 36) =~= digest@);
    }
    frame
}

/// Builds the frame that carries `body` under `proto_id` and `serial_no`.
pub fn build_frame(proto_id: u32, serial_no: u32, body: &[u8]) -> (frame: Vec<u8>)
    requires
        body@.len() + HEADER_LEN <= usize::MAX,
    ensures
        frame@ == spec_frame(proto_id, serial_no, body@),
        frame@.len() == HEADER_LEN + body@.len(),
        frame@.subrange(16, 36) == sha1_digest(body@),
{
    let digest = body_sha1(body);
    build_frame_with_digest(proto_id, serial_no, body, &digest)
}

/// A frame's header reads back as what it was built from: parsing the first
/// 44 bytes of the frame for `proto_id`, `serial_no` and `body` gives the same
/// proto id and serial number, the protobuf format, version 0 and the body
/// length (truncated to 32 bits), whatever the 20-byte digest; and the bytes
/// after the header are the body.
pub proof fn lemma_frame_roundtrip(proto_id: u32, serial_no: u32, body: Seq<u8>, digest: Seq<u8>)
    requires
        digest.len() == 20,
    ensures
        ({
            let f = spec_header_bytes(proto_id, serial_no, body.len() as u32, digest) + body;
            &&& f.len() == HEADER_LEN + body.len()
            &&& spec_parse_header(f.subrange(0, 44)) == Some(
                FrameHeader {
                    proto_id,
                    proto_fmt_type: PROTO_FMT_PROTOBUF,
                    proto_ver: PROTO_VER,
                    serial_no,
                    body_len: body.len() as u32,
                },
            )
            &&& f.subrange(44, f.len() as int) == body
        }),
{
    lemma_auto_spec_u32_to_from_le_bytes();
    let h = spec_header_bytes(proto_id, serial_no, body.len() as u32, digest);
    let f = h + body;
    let g = f.subrange(0, 44);
    assert(g.subrange(2, 6) =~= spec_u32_to_le_bytes(proto_id));
    assert(g.subrange(8, 12) =~= spec_u32_to_le_bytes(serial_no));
    assert(g.subrange(12, 16) =~= spec_u32_to_le_bytes(body.len() as u32));
    assert(f.subrange(44, f.len() as int) =~= body);
}

/// Reads a frame header. Fails with "invalid header flag" unless the bytes
/// start with "FT"; the digest and reserved bytes are not checked.
pub fn parse_header(header_bytes: &[u8; 44]) -> (r: Result<FrameHeader, &'static str>)
    ensures
        match r {
            Ok(h) => spec_parse_header(header_bytes@) == Some(h),
            Err(e) => spec_parse_header(header_bytes@).is_none() && e@ == "invalid header flag"@,
        },
{
    let bytes = header_bytes.as_slice();
    if bytes[0] != HEADER_FLAG_0 || bytes[1] != HEADER_FLAG_1 {
        return Err("invalid header flag");
    }
    let proto_id = u32_from_le_bytes(slice_subrange(bytes, 2, 6));
    let proto_fmt_type = bytes[6];
    let proto_ver = bytes[7];
    let serial_no = u32_from_le_bytes(slice_subrange(bytes, 8, 12));
    let body_len = u32_from_le_bytes(slice_subrange(bytes, 12, 16));
    Ok(FrameHeader { proto_id, proto_fmt_type, proto_ver, serial_no, body_len })
}

} // verus!
