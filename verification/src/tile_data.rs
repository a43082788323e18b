//! [`TileData`]: the raw f16 RGBA bytes of one tile, shared copy-on-write.

use std::sync::Arc;

use vstd::prelude::*;

verus! {

/// Raw f16 RGBA pixel data for one tile, shared copy-on-write.
///
/// Layout: `tile_size × tile_size × 4 channels × 2 bytes (f16)`, so 524 288
/// bytes for a 256-pixel tile. The buffer sits behind an `Arc`: cloning a
/// `TileData` only bumps a reference count, and the first
/// [`bytes_mut`](TileData::bytes_mut) on a shared tile copies that one tile.
///
/// Every distinct content carries a [`revision`](TileData::revision), drawn
/// from a [`RevisionSource`]: clones share it, and mutation replaces it with
/// a different one. Renderers use it as a cache key.
#[derive(Debug)]
pub struct TileData {
    buf: Arc<Vec<u8>>,
    rev: u64,
}

impl View for TileData {
    type V = Seq<u8>;

    closed spec fn view(&self) -> Seq<u8> {
        self.buf@
    }
}

/// Number of bytes of a transparent tile of edge `tile_size`: the product
/// `tile_size² · 4 · 2`, each multiplication saturating at `usize::MAX`.
pub open spec fn transparent_len(tile_size: u32) -> nat {
    let sq = sat_mul(tile_size as nat, tile_size as nat);
    sat_mul(sat_mul(sq, 4), 2)
}

/// Multiplication saturating at `usize::MAX`.
pub open spec fn sat_mul(a: nat, b: nat) -> nat {
    if a * b > usize::MAX {
        usize::MAX as nat
    } else {
        a * b
    }
}

/// Whether every 8-byte pixel of `bytes` has a zero f16 alpha (bytes 6 and 7).
/// A trailing partial pixel is not inspected.
pub open spec fn all_alpha_zero(bytes: Seq<u8>) -> bool {
    forall|k: int| 0 <= k < bytes.len() / 8 ==> #[trigger] alpha_zero_at(bytes, k)
}

/// Whether the f16 alpha of pixel `k` (bytes `8k + 6` and `8k + 7`) is zero.
pub open spec fn alpha_zero_at(bytes: Seq<u8>, k: int) -> bool {
    bytes[8 * k + 6] == 0 && bytes[8 * k + 7] == 0
}

/// `a · b`, or `usize::MAX` where the product does not fit.
fn saturating_product(a: usize, b: usize) -> (r: usize)
    ensures
        r == sat_mul(a as nat, b as nat),
{
    if a != 0 && b > usize::MAX / a {
        assert(a * b > usize::MAX) by (nonlinear_arith)
            requires
                a != 0,
                b > usize::MAX / a,
        ;
        usize::MAX
    } else {
        assert(a * b <= usize::MAX) by (nonlinear_arith)
            requires
                a == 0 || b <= usize::MAX / a,
        ;
        a * b
    }
}

/// A source of revision numbers: it hands out `0, 1, 2, …` in turn, so
/// every number drawn from one source differs from every other until the
/// counter wraps after `2⁶⁴` draws. One source serves a whole document.
#[derive(Debug)]
pub struct RevisionSource {
    next: u64,
}

impl RevisionSource {
    /// The number the next draw returns.
    pub closed spec fn spec_next(&self) -> u64 {
        self.next
    }

    /// A source whose first draw is `0`.
    pub fn new() -> (r: RevisionSource)
        ensures
            r.spec_next() == 0,
    {
        RevisionSource { next: 0 }
    }

    /// Draw the next revision number.
    pub fn draw(&mut self) -> (r: u64)
        ensures
            r == old(self).spec_next(),
            final(self).spec_next() == (if r == u64::MAX { 0 } else { (r + 1) as u64 }),
            r == kth_draw(old(self).spec_next(), 0),
            final(self).spec_next() == kth_draw(old(self).spec_next(), 1),
    {
        proof {
            let n = self.next as nat;
            vstd::arithmetic::div_mod::lemma_small_mod(n, 0x1_0000_0000_0000_0000);
            if n + 1 < 0x1_0000_0000_0000_0000 {
                vstd::arithmetic::div_mod::lemma_small_mod(n + 1, 0x1_0000_0000_0000_0000);
            } else {
                assert((n + 1) % 0x1_0000_0000_0000_0000 == 0) by (nonlinear_arith)
                    requires
                        n + 1 == 0x1_0000_0000_0000_0000,
                ;
            }
        }
        let r = self.next;
        self.next = if r == u64::MAX { 0 } else { r + 1 };
        r
    }
}

/// The number a source whose next draw is `next` hands out on its `k`-th
/// draw from now (the first is `k = 0`), counting modulo `2⁶⁴`.
pub open spec fn kth_draw(next: u64, k: nat) -> u64 {
    ((next as nat + k) % 0x1_0000_0000_0000_0000) as u64
}

/// Revision numbers drawn from one source do not repeat within `2⁶⁴`
/// draws: the `i`-th and `j`-th draws from now differ, and after one draw
/// the source's `k`-th draw is what was its `k + 1`-th.
pub proof fn law_draws_distinct(next: u64, i: nat, j: nat)
    requires
        i < j < 0x1_0000_0000_0000_0000,
    ensures
        kth_draw(next, i) != kth_draw(next, j),
        forall|k: nat| #[trigger] kth_draw(kth_draw(next, 1), k) == kth_draw(next, k + 1),
{
    let m: int = 0x1_0000_0000_0000_0000;
    let a: int = next as int + i;
    let b: int = next as int + j;
    assert(a % m != b % m) by (nonlinear_arith)
        requires
            m == 0x1_0000_0000_0000_0000,
            0 < b - a < m,
    {
        vstd::arithmetic::div_mod::lemma_fundamental_div_mod(a, m);
        vstd::arithmetic::div_mod::lemma_fundamental_div_mod(b, m);
    }
    assert forall|k: nat| #[trigger] kth_draw(kth_draw(next, 1), k) == kth_draw(next, k + 1) by {
        let n1 = (next as int + 1) % m;
        assert(0 <= n1 < m);
        vstd::arithmetic::div_mod::lemma_add_mod_noop(next as int + 1, k as int, m);
        vstd::arithmetic::div_mod::lemma_small_mod(k % (m as nat), m as nat);
        vstd::arithmetic::div_mod::lemma_mod_twice(k as int, m);
        vstd::arithmetic::div_mod::lemma_add_mod_noop(n1, k as int, m);
        vstd::arithmetic::div_mod::lemma_mod_twice(next as int + 1, m);
    }
}

/// Another pointer to the shared buffer.
///
/// Calls `Arc::clone`, which only bumps the reference count; the contract
/// claims the new pointer shows the same bytes.
#[verifier::external_body]
fn arc_share(buf: &Arc<Vec<u8>>) -> (r: Arc<Vec<u8>>)
    ensures
        r@ == buf@,
{
    Arc::clone(buf)
}

impl Clone for TileData {
    /// A tile sharing this one's buffer and revision; a later write to
    /// either copies the buffer first and leaves the other as it was.
    fn clone(&self) -> (r: Self)
        ensures
            r@ == self@,
            r.spec_revision() == self.spec_revision(),
    {
        TileData { buf: arc_share(&self.buf), rev: self.rev }
    }
}

/// Makes the shared buffer unique (copying it if another `Arc` points to it)
/// and lends it out mutably.
///
/// Calls `std::sync::Arc::make_mut`; the contract claims that the contents
/// seen through the loan are the buffer's contents before the call, and that
/// the buffer afterwards holds whatever the loan left in it.
#[verifier::external_body]
fn arc_make_mut(buf: &mut Arc<Vec<u8>>) -> (r: &mut Vec<u8>)
    ensures
        r@ == old(buf)@,
        final(buf)@ == final(r)@,
{
    Arc::make_mut(buf)
}

impl TileData {
    /// The revision stored with this content.
    pub closed spec fn spec_revision(&self) -> u64 {
        self.rev
    }

    /// Wrap an existing pixel buffer, with a revision drawn from `revs`.
    pub fn from_vec(bytes: Vec<u8>, revs: &mut RevisionSource) -> (r: TileData)
        ensures
            r@ == bytes@,
            r.spec_revision() == old(revs).spec_next(),
            final(revs).spec_next() == (if r.spec_revision() == u64::MAX { 0 } else { (r.spec_revision() + 1) as u64 }),
    {
        TileData { buf: Arc::new(bytes), rev: revs.draw() }
    }

    /// Allocate a fully-transparent tile (every byte zero, so every f16
    /// channel is `0.0`) with edge length `tile_size` pixels.
    pub fn transparent(tile_size: u32, revs: &mut RevisionSource) -> (r: TileData)
        requires
            transparent_len(tile_size) <= isize::MAX,
        ensures
            r@ == Seq::new(transparent_len(tile_size), |i: int| 0u8),
            r.spec_revision() == old(revs).spec_next(),
            final(revs).spec_next() == (if r.spec_revision() == u64::MAX { 0 } else { (r.spec_revision() + 1) as u64 }),
    {
        let side = tile_size as usize;
        let byte_count = saturating_product(saturating_product(saturating_product(side, side), 4), 2);
        let bytes = vec![0u8; byte_count];
        assert(bytes@ =~= Seq::new(transparent_len(tile_size), |i: int| 0u8));
        Self::from_vec(bytes, revs)
    }

    /// Read access to the raw pixel bytes.
    pub fn bytes(&self) -> (r: &[u8])
        ensures
            r@ == self@,
    {
        self.buf.as_slice()
    }

    /// Mutable access to the raw pixel bytes.
    ///
    /// Copy-on-write: a buffer shared with a clone is copied once before the
    /// loan. The tile takes a new revision from `revs`, different from its
    /// old one: the next number, or the one after it where the next number
    /// is the old revision.
    pub fn bytes_mut(&mut self, revs: &mut RevisionSource) -> (r: &mut [u8])
        ensures
            r@ == old(self)@,
            final(self)@ == final(r)@,
            final(self).spec_revision() != old(self).spec_revision(),
            final(self).spec_revision() == old(revs).spec_next() || (old(revs).spec_next() == old(
                self,
            ).spec_revision() && final(self).spec_revision() == (if old(revs).spec_next() == u64::MAX {
                0
            } else {
                (old(revs).spec_next() + 1) as u64
            })),
    {
        let mut rev = revs.draw();
        if rev == self.rev {
            rev = revs.draw();
        }
        self.rev = rev;
        let v = arc_make_mut(&mut self.buf);
        v.as_mut_slice()
    }

    /// The identifier of this pixel content: clones share it, and
    /// [`bytes_mut`](TileData::bytes_mut) replaces it.
    pub fn revision(&self) -> (r: u64)
        ensures
            r == self.spec_revision(),
    {
        self.rev
    }

    /// Whether every pixel's alpha channel is f16 zero (`[0x00, 0x00]` at
    /// bytes 6–7 of each 8-byte pixel).
    pub fn is_fully_transparent(&self) -> (r: bool)
        ensures
            r == all_alpha_zero(self@),
    {
        let b = self.buf.as_slice();
        let n = b.len() / 8;
        let mut k: usize = 0;
        while k < n
            invariant
                b@ == self@,
                n == self@.len() / 8,
                k <= n,
                forall|j: int| 0 <= j < k ==> #[trigger] alpha_zero_at(b@, j),
            decreases n - k,
        {
            assert(8 * k + 7 < b@.len()) by (nonlinear_arith)
                requires
                    k < n,
                    n == b@.len() / 8,
            ;
            assert(b@.len() == b.len());
            if b[8 * k + 6] != 0 || b[8 * k + 7] != 0 {
                assert(!alpha_zero_at(self@, k as int));
                return false;
            }
            k = k + 1;
        }
        true
    }

    /// Number of bytes in this tile's raw pixel buffer.
    pub fn byte_len(&self) -> (r: usize)
        ensures
            r == self@.len(),
    {
        self.buf.len()
    }
}

/// Whether two byte slices hold the same bytes.
fn same_bytes(a: &[u8], b: &[u8]) -> (r: bool)
    ensures
        r == (a@ == b@),
{
    if a.len() != b.len() {
        return false;
    }
    let mut i: usize = 0;
    while i < a.len()
        invariant
            a@.len() == b@.len(),
            i <= a@.len(),
            forall|j: int| 0 <= j < i ==> a@[j] == b@[j],
        decreases a@.len() - i,
    {
        if a[i] != b[i] {
            return false;
        }
        i = i + 1;
    }
    assert(a@ =~= b@);
    true
}

impl PartialEq for TileData {
    fn eq(&self, other: &Self) -> (r: bool) {
        same_bytes(self.buf.as_slice(), other.buf.as_slice())
    }
}

impl vstd::std_specs::cmp::PartialEqSpecImpl for TileData {
    open spec fn obeys_eq_spec() -> bool {
        true
    }

    open spec fn eq_spec(&self, other: &Self) -> bool {
        self@ == other@
    }
}

impl Eq for TileData {}

} // verus!
