//! Little-endian byte strings: the 64-byte size header that precedes a file's metadata
//! on the wire, and the counter nonce that the sender steps forward.
use vstd::arithmetic::div_mod::{
    lemma_fundamental_div_mod_converse, lemma_mod_breakdown, lemma_mod_equivalence, lemma_small_mod,
};
use vstd::prelude::*;

verus! {

/// 256 to the power `k`.
pub open spec fn pow256(k: nat) -> nat
    decreases k,
{
    if k == 0 {
        1
    } else {
        256 * pow256((k - 1) as nat)
    }
}

/// The number that the bytes `b` write, least significant byte first.
pub open spec fn le_value(b: Seq<u8>) -> nat
    decreases b.len(),
{
    if b.len() == 0 {
        0
    } else {
        b[0] as nat + 256 * le_value(b.drop_first())
    }
}

/// The `k` least significant bytes of `n`, least significant first.
pub open spec fn le_bytes(n: nat, k: nat) -> Seq<u8>
    decreases k,
{
    if k == 0 {
        seq![]
    } else {
        seq![(n % 256) as u8] + le_bytes(n / 256, (k - 1) as nat)
    }
}

/// Number of bytes of the size header.
pub open spec fn header_len() -> nat {
    64
}

/// The size header that announces `size`: the size in its first eight bytes, least
/// significant first, and zeros after them.
pub open spec fn size_header_bytes(size: nat) -> Seq<u8> {
    le_bytes(size, 8) + Seq::new((header_len() - 8) as nat, |i: int| 0u8)
}

/// The size that a size header announces: the number its first eight bytes write, least
/// significant first. The bytes after them do not count.
pub open spec fn header_size(h: Seq<u8>) -> nat {
    le_value(h.subrange(0, 8))
}

/// The next nonce: the nonce read as a little-endian counter, plus one, with the carry
/// running from the first byte towards the last and dropped past it.
pub open spec fn nonce_successor(n: Seq<u8>) -> Seq<u8>
    decreases n.len(),
{
    if n.len() == 0 {
        n
    } else if n[0] == 255 {
        seq![0u8] + nonce_successor(n.drop_first())
    } else {
        seq![(n[0] + 1) as u8] + n.drop_first()
    }
}

/// The nonce after `k` steps from `n`.
pub open spec fn nonce_after(n: Seq<u8>, k: nat) -> Seq<u8>
    decreases k,
{
    if k == 0 {
        n
    } else {
        nonce_successor(nonce_after(n, (k - 1) as nat))
    }
}

pub proof fn lemma_pow256_monotonic(a: nat, b: nat)
    requires
        a <= b,
    ensures
        1 <= pow256(a) <= pow256(b),
    decreases b,
{
    if b > 0 && a < b {
        lemma_pow256_monotonic(a, (b - 1) as nat);
    } else if b > 0 {
        lemma_pow256_monotonic((a - 1) as nat, (b - 1) as nat);
    }
}

pub proof fn lemma_pow256_8()
    ensures
        pow256(8) == 0x1_0000_0000_0000_0000,
{
    reveal_with_fuel(pow256, 9);
}

/// A byte string of length `k` writes a number below `256^k`.
pub proof fn lemma_le_value_bound(b: Seq<u8>)
    ensures
        le_value(b) < pow256(b.len()),
    decreases b.len(),
{
    if b.len() > 0 {
        lemma_le_value_bound(b.drop_first());
    }
}

pub proof fn lemma_le_bytes_len(n: nat, k: nat)
    ensures
        le_bytes(n, k).len() == k,
    decreases k,
{
    if k > 0 {
        lemma_le_bytes_len(n / 256, (k - 1) as nat);
    }
}

/// Writing `n` in `k` bytes and reading them back gives `n` modulo `256^k`.
pub proof fn lemma_le_value_of_le_bytes(n: nat, k: nat)
    ensures
        le_value(le_bytes(n, k)) == n % pow256(k),
    decreases k,
{
    if k > 0 {
        let s = le_bytes(n, k);
        let p = pow256((k - 1) as nat);
        lemma_le_value_of_le_bytes(n / 256, (k - 1) as nat);
        lemma_pow256_monotonic(0, (k - 1) as nat);
        assert(s.drop_first() =~= le_bytes(n / 256, (k - 1) as nat));
        lemma_mod_breakdown(n as int, 256, p as int);
    }
}

/// Reading `k` bytes and writing the number back in `k` bytes gives the same bytes.
pub proof fn lemma_le_bytes_of_le_value(b: Seq<u8>)
    ensures
        le_bytes(le_value(b), b.len()) == b,
    decreases b.len(),
{
    if b.len() > 0 {
        let rest = b.drop_first();
        lemma_le_bytes_of_le_value(rest);
        lemma_fundamental_div_mod_converse(
            le_value(b) as int,
            256,
            le_value(rest) as int,
            b[0] as int,
        );
        assert(le_bytes(le_value(b), b.len()) =~= seq![b[0]] + rest);
        assert(seq![b[0]] + rest =~= b);
    }
}

/// Law: the size that a receiver reads from a size header is the size that was
/// written into it.
pub proof fn lemma_size_header_round_trip(size: u64)
    ensures
        size_header_bytes(size as nat).len() == header_len(),
        header_size(size_header_bytes(size as nat)) == size,
{
    lemma_le_bytes_len(size as nat, 8);
    lemma_le_value_of_le_bytes(size as nat, 8);
    lemma_pow256_8();
    lemma_small_mod(size as nat, pow256(8));
    assert(size_header_bytes(size as nat).subrange(0, 8) =~= le_bytes(size as nat, 8));
}

/// Law: every header that a sender could have written (zeros after the eighth byte) is
/// the header of the size read from it, so two such headers never announce the same
/// size.
pub proof fn lemma_size_header_unique(h: Seq<u8>)
    requires
        h.len() == header_len(),
        forall|i: int| 8 <= i < header_len() ==> h[i] == 0,
    ensures
        header_size(h) <= u64::MAX,
        size_header_bytes(header_size(h)) == h,
{
    let head = h.subrange(0, 8);
    lemma_le_value_bound(head);
    lemma_pow256_8();
    lemma_le_bytes_of_le_value(head);
    assert(size_header_bytes(header_size(h)) =~= h);
}

/// A run of `i` bytes of 255 at the front of a nonce all carry: they become 0 and the
/// rest of the nonce is stepped.
pub proof fn lemma_successor_carry(n: Seq<u8>, i: int)
    requires
        0 <= i <= n.len(),
        forall|j: int| 0 <= j < i ==> n[j] == 255,
    ensures
        nonce_successor(n) == Seq::new(i as nat, |j: int| 0u8) + nonce_successor(n.skip(i)),
    decreases i,
{
    if i == 0 {
        assert(n.skip(0) =~= n);
        assert(Seq::new(0, |j: int| 0u8) + nonce_successor(n) =~= nonce_successor(n));
    } else {
        let rest = n.drop_first();
        lemma_successor_carry(rest, i - 1);
        assert(rest.skip(i - 1) =~= n.skip(i));
        assert(seq![0u8] + Seq::new((i - 1) as nat, |j: int| 0u8) =~= Seq::new(
            i as nat,
            |j: int| 0u8,
        ));
        assert(nonce_successor(n) =~= Seq::new(i as nat, |j: int| 0u8) + nonce_successor(
            n.skip(i),
        ));
    }
}

/// Law: stepping a nonce adds one to the number it writes, modulo `256^len`, and keeps
/// its length.
pub proof fn lemma_nonce_successor_value(n: Seq<u8>)
    ensures
        nonce_successor(n).len() == n.len(),
        le_value(nonce_successor(n)) == (le_value(n) + 1) % pow256(n.len()),
    decreases n.len(),
{
    if n.len() > 0 {
        let rest = n.drop_first();
        let p = pow256(rest.len());
        let v = le_value(rest);
        lemma_pow256_monotonic(0, rest.len());
        lemma_le_value_bound(rest);
        if n[0] == 255 {
            lemma_nonce_successor_value(rest);
            assert(nonce_successor(n).drop_first() =~= nonce_successor(rest));
            lemma_fundamental_div_mod_converse(256 * (v + 1) as int, 256, (v + 1) as int, 0);
            lemma_mod_breakdown(256 * (v + 1) as int, 256, p as int);
        } else {
            assert(nonce_successor(n).drop_first() =~= rest);
            lemma_small_mod((le_value(n) + 1) as nat, pow256(n.len()));
        }
    }
}

/// Law: a nonce stepped `k` times writes its number plus `k`, modulo `256^len`.
pub proof fn lemma_nonce_after_value(n: Seq<u8>, k: nat)
    ensures
        nonce_after(n, k).len() == n.len(),
        le_value(nonce_after(n, k)) == (le_value(n) + k) % pow256(n.len()),
    decreases k,
{
    lemma_pow256_monotonic(0, n.len());
    if k == 0 {
        lemma_le_value_bound(n);
        lemma_small_mod(le_value(n), pow256(n.len()));
    } else {
        let prev = nonce_after(n, (k - 1) as nat);
        lemma_nonce_after_value(n, (k - 1) as nat);
        lemma_nonce_successor_value(prev);
        let m = pow256(n.len()) as int;
        let x = (le_value(n) + k - 1) as int;
        vstd::arithmetic::div_mod::lemma_add_mod_noop(x, 1, m);
        vstd::arithmetic::div_mod::lemma_mod_twice(x, m);
        vstd::arithmetic::div_mod::lemma_add_mod_noop(x % m, 1, m);
    }
}

/// Law: a nonce does not come back before `256^len` steps: the nonces after `i` and
/// after `j` steps differ whenever `i < j < 256^len`.
pub proof fn lemma_nonces_distinct(n: Seq<u8>, i: nat, j: nat)
    requires
        i < j < pow256(n.len()),
    ensures
        nonce_after(n, i) != nonce_after(n, j),
{
    lemma_nonce_after_value(n, i);
    lemma_nonce_after_value(n, j);
    let m = pow256(n.len()) as int;
    if nonce_after(n, i) == nonce_after(n, j) {
        lemma_mod_equivalence((le_value(n) + j) as int, (le_value(n) + i) as int, m);
        lemma_small_mod((j - i) as nat, m as nat);
    }
}

/// Law: a receiver that reads the header at the front of a frame (a size header
/// followed by metadata) reads the length of the metadata.
pub proof fn lemma_frame_announces_metadata_len(metadata: Seq<u8>)
    requires
        metadata.len() <= u64::MAX,
    ensures
        header_size((size_header_bytes(metadata.len()) + metadata).subrange(0, header_len() as int))
            == metadata.len(),
{
    lemma_size_header_round_trip(metadata.len() as u64);
    assert((size_header_bytes(metadata.len()) + metadata).subrange(0, header_len() as int)
        =~= size_header_bytes(metadata.len()));
}

/// The 64-byte header that announces `size`.
pub fn size_header(size: u64) -> (h: [u8; 64])
    ensures
        h@ == size_header_bytes(size as nat),
{
    let mut h = [0u8; 64];
    let mut cur = size;
    let mut i: usize = 0;
    while i < 8
        invariant
            i <= 8,
            h@.len() == 64,
            forall|j: int| 8 <= j < 64 ==> h@[j] == 0,
            h@.subrange(0, i as int) + le_bytes(cur as nat, (8 - i) as nat) == le_bytes(
                size as nat,
                8,
            ),
        decreases 8 - i,
    {
        let ghost before = h@.subrange(0, i as int);
        assert(le_bytes(cur as nat, (8 - i) as nat) == seq![(cur % 256) as u8] + le_bytes(
            (cur / 256) as nat,
            (8 - i - 1) as nat,
        ));
        h[i] = (cur % 256) as u8;
        cur = cur / 256;
        i = i + 1;
        assert(h@.subrange(0, i as int) =~= before.push(h@[i - 1]));
        assert(h@.subrange(0, i as int) + le_bytes(cur as nat, (8 - i) as nat) =~= before + (seq![
            h@[i - 1],
        ] + le_bytes(cur as nat, (8 - i) as nat)));
    }
    assert(le_bytes(cur as nat, 0) =~= Seq::<u8>::empty());
    assert(h@.subrange(0, 8) =~= h@.subrange(0, 8) + le_bytes(cur as nat, 0));
    assert(h@ =~= size_header_bytes(size as nat));
    h
}

/// The size that a 64-byte header announces: its first eight bytes read least
/// significant first; the rest of the header is not read.
pub fn read_size_header(h: &[u8; 64]) -> (size: u64)
    ensures
        size == header_size(h@),
{
    let mut acc: u64 = 0;
    let mut i: usize = 8;
    while i > 0
        invariant
            i <= 8,
            h@.len() == 64,
            acc == le_value(h@.subrange(i as int, 8)),
        decreases i,
    {
        i = i - 1;
        let ghost tail = h@.subrange(i as int + 1, 8);
        proof {
            lemma_le_value_bound(tail);
            lemma_pow256_monotonic((7 - i) as nat, 7);
            lemma_pow256_8();
            assert(h@.subrange(i as int, 8).drop_first() =~= tail);
        }
        acc = acc * 256 + h[i] as u64;
    }
    acc
}

} // verus!
