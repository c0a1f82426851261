use vstd::prelude::*;

verus! {

/// How hard the compressor works.
#[derive(Debug, Clone, Copy, PartialEq, Eq, Structural)]
pub enum CompressionLevel {
    Default,
    Fast,
    Good,
}

impl CompressionLevel {
    /// The zstd level that stands for this setting.
    pub open spec fn level(self) -> i32 {
        match self {
            CompressionLevel::Fast => 1,
            CompressionLevel::Default => 3,
            CompressionLevel::Good => 6,
        }
    }

    pub fn to_zstd_level(&self) -> (r: i32)
        ensures
            r == self.level(),
    {
        match self {
            CompressionLevel::Fast => 1,
            CompressionLevel::Default => 3,
            CompressionLevel::Good => 6,
        }
    }
}

/// The SHA-1 digest of `data`.
pub uninterp spec fn sha1_of(data: Seq<u8>) -> Seq<u8>;

/// The zstd frame that compresses `data` at `level`.
pub uninterp spec fn zstd_frame_of(data: Seq<u8>, level: i32) -> Seq<u8>;

/// Relies on `sha1::Sha1::digest` (through `digest::Digest`): the 20-byte
/// SHA-1 digest of the input, which depends on the bytes alone.
#[verifier::external_body]
fn sha1_digest(data: &[u8]) -> (r: [u8; 20])
    ensures
        r@ == sha1_of(data@),
{
    <sha1::Sha1 as sha1::Digest>::digest(data).into()
}

/// Relies on `zstd::encode_all`: one zstd frame holding the input,
/// compressed at the given level. Reading a slice and writing into a `Vec`
/// never fail, and an out-of-range level is clamped, so the call succeeds.
#[verifier::external_body]
fn zstd_encode(data: &[u8], level: i32) -> (r: Result<Vec<u8>, String>)
    ensures
        r is Ok,
        r matches Ok(v) ==> v@ == zstd_frame_of(data@, level),
{
    zstd::encode_all(data, level).map_err(|e| e.to_string())
}

/// A file's content made ready for the collection: its checksum, its size
/// and its compressed bytes.
#[derive(Debug)]
pub struct CompressedFile {
    pub checksum: [u8; 20],
    pub size: u64,
    pub data: Vec<u8>,
}

/// Checksums and compresses `content` at `compression_level`; this always
/// succeeds.
pub fn compress_file_content(content: &Vec<u8>, compression_level: CompressionLevel) -> (r: Result<
    CompressedFile,
    String,
>)
    ensures
        r is Ok,
        r matches Ok(f) ==> {
            &&& f.checksum@ == sha1_of(content@)
            &&& f.size == content@.len()
            &&& f.data@ == zstd_frame_of(content@, compression_level.level())
        },
{
    let checksum = sha1_digest(content.as_slice());
    let size = content.len() as u64;
    match zstd_encode(content.as_slice(), compression_level.to_zstd_level()) {
        Ok(data) => Ok(CompressedFile { checksum, size, data }),
        Err(e) => Err(e),
    }
}

} // verus!
