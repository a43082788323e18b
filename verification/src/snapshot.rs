//! [`TileSnapshot`]: LZ4-compressed pixel tile bytes kept by the undo stack.

use vstd::prelude::*;

use crate::ops::copy_bytes;

verus! {

/// Error type for the undo engine's snapshot operations.
#[derive(Debug)]
pub enum OpsError {
    /// LZ4 decompression failed (corrupt or truncated snapshot bytes); the
    /// message is the decoder's.
    Decompression(String),
}

/// The little-endian `u32` at the start of `b`.
pub open spec fn le_u32(b: Seq<u8>) -> nat {
    b[0] as nat + b[1] as nat * 0x100 + b[2] as nat * 0x1_0000 + b[3] as nat * 0x100_0000
}

/// The largest output an LZ4 block of `n` bytes can decode to.
pub open spec fn lz4_bound(n: nat) -> nat {
    255 * n
}

/// `b` with its prepended size lowered to [`lz4_bound`] of the block that
/// follows, where it claims more.
pub open spec fn capped(b: Seq<u8>) -> Seq<u8> {
    if b.len() >= 4 && le_u32(b) > lz4_bound((b.len() - 4) as nat) {
        let c = lz4_bound((b.len() - 4) as nat);
        seq![(c % 0x100) as u8, ((c / 0x100) % 0x100) as u8, ((c / 0x1_0000) % 0x100) as u8, (c / 0x100_0000) as u8]
            + b.subrange(4, b.len() as int)
    } else {
        b
    }
}

/// A copy of `b` with its prepended size capped (see [`capped`]).
fn cap_prepended_size(b: &[u8]) -> (r: Vec<u8>)
    ensures
        r@ == capped(b@),
{
    let mut out: Vec<u8> = Vec::new();
    let n = b.len();
    if n >= 4 {
        let claimed: u64 = b[0] as u64 + b[1] as u64 * 0x100 + b[2] as u64 * 0x1_0000 + b[3] as u64 * 0x100_0000;
        let rest: u64 = (n - 4) as u64;
        assert(claimed == le_u32(b@));
        if rest < 0x0101_0102 && claimed > 255 * rest {
            let c: u64 = 255 * rest;
            out.push((c % 0x100) as u8);
            out.push(((c / 0x100) % 0x100) as u8);
            out.push(((c / 0x1_0000) % 0x100) as u8);
            out.push((c / 0x100_0000) as u8);
            let mut i: usize = 4;
            while i < n
                invariant
                    4 <= i <= n,
                    n == b@.len(),
                    c == lz4_bound((n - 4) as nat),
                    out@ == seq![(c % 0x100) as u8, ((c / 0x100) % 0x100) as u8, ((c / 0x1_0000) % 0x100) as u8, (c
                        / 0x100_0000) as u8] + b@.subrange(4, i as int),
                decreases n - i,
            {
                out.push(b[i]);
                i = i + 1;
                assert(out@ =~= seq![(c % 0x100) as u8, ((c / 0x100) % 0x100) as u8, ((c / 0x1_0000) % 0x100) as u8, (c
                    / 0x100_0000) as u8] + b@.subrange(4, i as int));
            }
            return out;
        }
        proof {
            assert(claimed == le_u32(b@));
            if rest >= 0x0101_0102 {
                assert(le_u32(b@) <= 0xFFFF_FFFF);
            }
        }
    }
    let mut i: usize = 0;
    while i < n
        invariant
            i <= n,
            n == b@.len(),
            out@ == b@.subrange(0, i as int),
        decreases n - i,
    {
        out.push(b[i]);
        i = i + 1;
        assert(out@ =~= b@.subrange(0, i as int));
    }
    assert(out@ =~= b@);
    out
}

/// What `lz4_flex::compress_prepend_size` makes of `raw`.
pub uninterp spec fn lz4_prepend_compressed(raw: Seq<u8>) -> Seq<u8>;

/// What `lz4_flex::decompress_size_prepended` makes of `bytes`: the
/// decompressed bytes, or `None` where it reports an error.
pub uninterp spec fn lz4_prepend_decompressed(bytes: Seq<u8>) -> Option<Seq<u8>>;

#[verifier::external_type_specification]
#[verifier::external_body]
pub struct ExDecompressError(lz4_flex::block::DecompressError);

/// Calls `lz4_flex::compress_prepend_size`: LZ4 block compression with the
/// input length prepended as a little-endian `u32`. The contract names the
/// result and states what the crate documents and its source shows of it:
/// `decompress_size_prepended` gives the input back; the first four bytes
/// are the input length; and the block after them is at least a 255th of
/// the input, since an LZ4 sequence spells out at most 255 more bytes of
/// match length per byte it spends.
#[verifier::external_body]
fn lz4_compress_prepend(raw: &[u8]) -> (r: Vec<u8>)
    requires
        raw@.len() <= u32::MAX,
        raw@.len() * 110 <= usize::MAX,
    ensures
        r@ == lz4_prepend_compressed(raw@),
        lz4_prepend_decompressed(r@) == Some(raw@),
        r@.len() >= 4,
        le_u32(r@) == raw@.len(),
        raw@.len() <= lz4_bound((r@.len() - 4) as nat),
{
    lz4_flex::compress_prepend_size(raw)
}

/// Calls `lz4_flex::decompress_size_prepended`; the result is named by
/// [`lz4_prepend_decompressed`].
#[verifier::external_body]
fn lz4_decompress_prepended(bytes: &[u8]) -> (r: Result<Vec<u8>, lz4_flex::block::DecompressError>)
    ensures
        match r {
            Ok(v) => lz4_prepend_decompressed(bytes@) == Some(v@),
            Err(_) => lz4_prepend_decompressed(bytes@).is_none(),
        },
{
    lz4_flex::decompress_size_prepended(bytes)
}

/// The decoder's message for a decompression error.
///
/// Calls `ToString::to_string` through `lz4_flex`'s `Display` impl; nothing
/// is promised of the text.
#[verifier::external_body]
fn decompress_error_message(e: &lz4_flex::block::DecompressError) -> String {
    e.to_string()
}

/// Opaque snapshot of one tile's raw f16 RGBA bytes, stored LZ4-compressed
/// with the uncompressed length prepended.
#[derive(Debug, PartialEq, Eq)]
pub struct TileSnapshot(pub Vec<u8>);

impl View for TileSnapshot {
    type V = Seq<u8>;

    closed spec fn view(&self) -> Seq<u8> {
        self.0@
    }
}

impl Clone for TileSnapshot {
    fn clone(&self) -> (r: Self)
        ensures
            r@ == self@,
    {
        TileSnapshot(copy_bytes(&self.0))
    }
}

impl TileSnapshot {
    /// Compress raw f16 RGBA tile bytes into a snapshot. Decompressing it
    /// gives `raw` back: its prepended size needs no capping.
    pub fn compress(raw: &[u8]) -> (r: TileSnapshot)
        requires
            raw@.len() <= u32::MAX,
            raw@.len() * 110 <= usize::MAX,
        ensures
            r@ == lz4_prepend_compressed(raw@),
            capped(r@) == r@,
            lz4_prepend_decompressed(capped(r@)) == Some(raw@),
    {
        TileSnapshot(lz4_compress_prepend(raw))
    }

    /// Decompress the snapshot back to raw f16 RGBA bytes; fails with
    /// [`OpsError::Decompression`] if the stored bytes are corrupt or
    /// truncated.
    ///
    /// An LZ4 block of `n` bytes decodes to at most `255 · n` bytes, so a
    /// prepended size beyond that is lowered to the bound before decoding:
    /// the decoder reserves the prepended size up front, and the lowered
    /// size leaves every outcome as it was while a corrupt size cannot ask
    /// for gigabytes.
    pub fn decompress(&self) -> (r: Result<Vec<u8>, OpsError>)
        ensures
            match r {
                Ok(v) => lz4_prepend_decompressed(capped(self@)) == Some(v@),
                Err(OpsError::Decompression(_)) => lz4_prepend_decompressed(capped(self@)).is_none(),
            },
    {
        let bytes = cap_prepended_size(self.0.as_slice());
        match lz4_decompress_prepended(bytes.as_slice()) {
            Ok(v) => Ok(v),
            Err(e) => Err(OpsError::Decompression(decompress_error_message(&e))),
        }
    }

    /// Number of compressed bytes stored in this snapshot.
    pub fn compressed_len(&self) -> (r: usize)
        ensures
            r == self@.len(),
    {
        self.0.len()
    }
}

} // verus!
