//! The export archive framing.
//!
//! A dataset-stream export starts with an eight-byte magic, a four-byte
//! little-endian metadata length and that many bytes of metadata, then
//! the raw stream; other exports are compressed archives whose first
//! entry is the metadata file.  The framing is built and read here; the
//! streams themselves are produced and consumed outside.

use vstd::prelude::*;
use vstd::string::*;

verus! {

/// The metadata written into an export.
#[derive(Clone, Debug)]
pub struct ExportMetadata {
    /// The exported jail's name.
    pub name: String,
    /// The tool version that wrote the export.
    pub version: String,
    /// When the export was written.
    pub timestamp: String,
    /// The jail's root path at export time.
    pub original_path: String,
    /// The jail's address, when one was configured.
    pub ip: Option<String>,
    /// The jail's hostname, when one was configured.
    pub hostname: Option<String>,
}

/// The eight magic bytes that open a dataset-stream export.
pub open spec fn spec_magic() -> Seq<u8> {
    seq![66u8, 83u8, 90u8, 70u8, 83u8, 48u8, 48u8, 49u8]
}

/// The name of the metadata entry in an archive export.
pub fn metadata_entry_name() -> (r: String)
    ensures
        r@ == ".blackship-metadata.json"@,
{
    String::from_str(".blackship-metadata.json")
}

/// The stream-export header for a metadata blob of the given length:
/// the magic, then the length in four little-endian bytes.
pub fn build_stream_header(metadata_len: u32) -> (r: Vec<u8>)
    ensures
        r@ == spec_magic() + crate::jailparams::le32_bytes(metadata_len),
{
    let mut out: Vec<u8> = Vec::new();
    out.push(66);
    out.push(83);
    out.push(90);
    out.push(70);
    out.push(83);
    out.push(48);
    out.push(48);
    out.push(49);
    out.push((metadata_len % 256) as u8);
    out.push((metadata_len / 256 % 256) as u8);
    out.push((metadata_len / 0x1_0000 % 256) as u8);
    out.push((metadata_len / 0x100_0000 % 256) as u8);
    proof {
        assert(out@ =~= spec_magic() + crate::jailparams::le32_bytes(metadata_len));
    }
    out
}

/// Read a stream-export header: the metadata length when the first
/// twelve bytes carry the magic, nothing otherwise.
pub fn parse_stream_header(bytes: &Vec<u8>) -> (r: Option<u32>)
    ensures
        r is Some <==> bytes@.len() >= 12 && bytes@.subrange(0, 8) == spec_magic(),
        r matches Some(v) ==> v as nat == bytes@[8] + bytes@[9] * 0x100 + bytes@[10] * 0x1_0000
            + bytes@[11] * 0x100_0000,
{
    if bytes.len() < 12 {
        return None;
    }
    let magic = build_stream_header(0);
    let mut i: usize = 0;
    while i < 8
        invariant
            bytes@.len() >= 12,
            magic@.subrange(0, 8) == spec_magic(),
            magic@.len() == 12,
            i <= 8,
            forall|j: int| 0 <= j < i ==> bytes@[j] == spec_magic()[j],
        decreases 8 - i,
    {
        if bytes[i] != magic[i] {
            proof {
                assert(bytes@[i as int] != spec_magic()[i as int]);
            }
            return None;
        }
        i = i + 1;
    }
    proof {
        assert(bytes@.subrange(0, 8) =~= spec_magic());
    }
    let v: u32 = (bytes[8] as u32) + (bytes[9] as u32) * 0x100 + (bytes[10] as u32) * 0x1_0000
        + (bytes[11] as u32) * 0x100_0000;
    Some(v)
}

} // verus!
