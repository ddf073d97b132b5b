//! The file-status record that the status-query service writes into caller
//! memory, and its byte layout: little-endian fields at natural alignment.
use vstd::prelude::*;
use vstd::arithmetic::div_mod::{lemma_mod_breakdown, lemma_small_mod};

verus! {

/// Size in bytes of the record as the kernel lays it out.
pub const STAT_SIZE: usize = 24;

/// Byte offset of the device identifier (4 bytes).
pub const DEV_OFFSET: usize = 0;

/// Byte offset of the inode number (4 bytes).
pub const INO_OFFSET: usize = 4;

/// Byte offset of the type tag (2 bytes).
pub const TYPE_OFFSET: usize = 8;

/// Byte offset of the link count (2 bytes).
pub const NLINK_OFFSET: usize = 10;

/// Byte offset of the file size (8 bytes, after 4 bytes of alignment padding).
pub const SIZE_OFFSET: usize = 16;

/// Metadata of an open file, as the status-query service reports it.
#[derive(Clone, Copy, Debug, PartialEq, Eq, Structural)]
pub struct Stat {
    /// Device that holds the file.
    pub dev: i32,
    /// Inode number of the file on its device.
    pub ino: u32,
    /// Kind of file (regular, directory, device).
    pub file_type: i16,
    /// Number of directory entries that name the file.
    pub nlink: i16,
    /// Length of the file's content in bytes.
    pub size: u64,
}

/// `256` to the power `n`.
pub open spec fn pow256(n: nat) -> nat
    decreases n,
{
    if n == 0 { 1 } else { 256 * pow256((n - 1) as nat) }
}

/// The low `n` bytes of `v`, least significant first.
pub open spec fn le_bytes(v: nat, n: nat) -> Seq<u8>
    decreases n,
{
    if n == 0 {
        seq![]
    } else {
        seq![(v % 256) as u8] + le_bytes(v / 256, (n - 1) as nat)
    }
}

/// The number that the bytes `b` spell, least significant first.
pub open spec fn le_value(b: Seq<u8>) -> nat
    decreases b.len(),
{
    if b.len() == 0 {
        0
    } else {
        b[0] as nat + 256 * le_value(b.drop_first())
    }
}

/// The `n`-byte two's-complement bit pattern of `v`.
pub open spec fn to_twos(v: int, n: nat) -> nat {
    if v >= 0 { v as nat } else { (v + pow256(n)) as nat }
}

/// The signed value of the `n`-byte two's-complement bit pattern `u`.
pub open spec fn from_twos(u: nat, n: nat) -> int {
    if u < pow256(n) / 2 { u as int } else { u - pow256(n) }
}

/// The bytes of `s` as the kernel writes them; the padding bytes are zero.
pub open spec fn stat_bytes(s: Stat) -> Seq<u8> {
    le_bytes(to_twos(s.dev as int, 4), 4)
        + le_bytes(s.ino as nat, 4)
        + le_bytes(to_twos(s.file_type as int, 2), 2)
        + le_bytes(to_twos(s.nlink as int, 2), 2)
        + seq![0u8, 0u8, 0u8, 0u8]
        + le_bytes(s.size as nat, 8)
}

/// The record that the first `STAT_SIZE` bytes of `b` describe.
pub open spec fn stat_of_bytes(b: Seq<u8>) -> Stat {
    Stat {
        dev: from_twos(le_value(b.subrange(0, 4)), 4) as i32,
        ino: le_value(b.subrange(4, 8)) as u32,
        file_type: from_twos(le_value(b.subrange(8, 10)), 2) as i16,
        nlink: from_twos(le_value(b.subrange(10, 12)), 2) as i16,
        size: le_value(b.subrange(16, 24)) as u64,
    }
}

proof fn lemma_pow256_facts()
    ensures
        pow256(2) == 0x1_0000,
        pow256(4) == 0x1_0000_0000,
        pow256(8) == 0x1_0000_0000_0000_0000,
{
    reveal_with_fuel(pow256, 9);
}

proof fn lemma_pow256_mono(a: nat, b: nat)
    requires
        a <= b,
    ensures
        0 < pow256(a) <= pow256(b),
    decreases b,
{
    if b > a {
        lemma_pow256_mono(a, (b - 1) as nat);
    } else if a > 0 {
        lemma_pow256_mono((a - 1) as nat, (a - 1) as nat);
    }
}

proof fn lemma_le_bytes_len(v: nat, n: nat)
    ensures
        le_bytes(v, n).len() == n,
    decreases n,
{
    if n > 0 {
        lemma_le_bytes_len(v / 256, (n - 1) as nat);
    }
}

proof fn lemma_le_value_bound(b: Seq<u8>)
    ensures
        le_value(b) < pow256(b.len()),
    decreases b.len(),
{
    if b.len() > 0 {
        lemma_le_value_bound(b.drop_first());
    }
}

/// Reading back the low `n` bytes of `v` gives `v` modulo `256^n`.
proof fn lemma_le_round_trip(v: nat, n: nat)
    ensures
        le_value(le_bytes(v, n)) == v % pow256(n),
    decreases n,
{
    if n == 0 {
        lemma_small_mod(0, 1);
        assert(v % 1 == 0);
    } else {
        let rest = le_bytes(v / 256, (n - 1) as nat);
        lemma_le_round_trip(v / 256, (n - 1) as nat);
        assert(le_bytes(v, n).drop_first() =~= rest);
        lemma_pow256_mono(0, (n - 1) as nat);
        lemma_mod_breakdown(v as int, 256, pow256((n - 1) as nat) as int);
    }
}

/// The value `v` fits in `n` bytes, so its bytes read back as `v`.
proof fn lemma_le_exact(v: nat, n: nat)
    requires
        v < pow256(n),
    ensures
        le_value(le_bytes(v, n)) == v,
        le_bytes(v, n).len() == n,
{
    lemma_le_round_trip(v, n);
    lemma_small_mod(v, pow256(n));
    lemma_le_bytes_len(v, n);
}

/// Bytes that spell a number are the low bytes of that number.
proof fn lemma_le_bytes_of_value(b: Seq<u8>)
    ensures
        le_bytes(le_value(b), b.len()) == b,
    decreases b.len(),
{
    if b.len() > 0 {
        let rest = b.drop_first();
        lemma_le_bytes_of_value(rest);
        let v = le_value(b);
        assert(v % 256 == b[0] as nat && v / 256 == le_value(rest)) by {
            assert(v == b[0] as nat + 256 * le_value(rest));
            vstd::arithmetic::div_mod::lemma_fundamental_div_mod_converse(
                v as int, 256, le_value(rest) as int, b[0] as int);
        }
        assert(le_bytes(v, b.len()) =~= b);
    }
}

/// A record's bytes with zero padding, read and written again, are the same
/// bytes.
pub proof fn lemma_stat_bytes_round_trip(b: Seq<u8>)
    requires
        b.len() == STAT_SIZE,
        b[12] == 0u8 && b[13] == 0u8 && b[14] == 0u8 && b[15] == 0u8,
    ensures
        stat_bytes(stat_of_bytes(b)) == b,
{
    lemma_pow256_facts();
    let d = b.subrange(0, 4);
    let i = b.subrange(4, 8);
    let t = b.subrange(8, 10);
    let l = b.subrange(10, 12);
    let z = b.subrange(16, 24);
    lemma_le_value_bound(d);
    lemma_le_value_bound(i);
    lemma_le_value_bound(t);
    lemma_le_value_bound(l);
    lemma_le_value_bound(z);
    lemma_le_bytes_of_value(d);
    lemma_le_bytes_of_value(i);
    lemma_le_bytes_of_value(t);
    lemma_le_bytes_of_value(l);
    lemma_le_bytes_of_value(z);
    let s = stat_of_bytes(b);
    assert(to_twos(s.dev as int, 4) == le_value(d));
    assert(to_twos(s.file_type as int, 2) == le_value(t));
    assert(to_twos(s.nlink as int, 2) == le_value(l));
    assert(stat_bytes(s) =~= b);
}

/// Writing a record in the kernel's layout and reading it back gives every
/// field unchanged.
pub proof fn lemma_stat_round_trip(s: Stat)
    ensures
        stat_bytes(s).len() == STAT_SIZE,
        stat_of_bytes(stat_bytes(s)) == s,
{
    lemma_pow256_facts();
    let b = stat_bytes(s);
    let d = le_bytes(to_twos(s.dev as int, 4), 4);
    let i = le_bytes(s.ino as nat, 4);
    let t = le_bytes(to_twos(s.file_type as int, 2), 2);
    let l = le_bytes(to_twos(s.nlink as int, 2), 2);
    let z = le_bytes(s.size as nat, 8);
    lemma_le_exact(to_twos(s.dev as int, 4), 4);
    lemma_le_exact(s.ino as nat, 4);
    lemma_le_exact(to_twos(s.file_type as int, 2), 2);
    lemma_le_exact(to_twos(s.nlink as int, 2), 2);
    lemma_le_exact(s.size as nat, 8);
    assert(b.subrange(0, 4) =~= d);
    assert(b.subrange(4, 8) =~= i);
    assert(b.subrange(8, 10) =~= t);
    assert(b.subrange(10, 12) =~= l);
    assert(b.subrange(16, 24) =~= z);
    assert(stat_of_bytes(b) == s);
}

/// Appends the low `n` bytes of `v` to `out`, least significant first.
fn push_le(out: &mut Vec<u8>, v: u64, n: usize)
    ensures
        final(out)@ == old(out)@ + le_bytes(v as nat, n as nat),
{
    let mut cur: u64 = v;
    let mut i: usize = 0;
    while i < n
        invariant
            i <= n,
            old(out)@ + le_bytes(v as nat, n as nat) == out@ + le_bytes(cur as nat, (n - i) as nat),
        decreases n - i,
    {
        let ghost before = out@;
        out.push((cur % 256) as u8);
        proof {
            let tail = le_bytes(cur as nat / 256, (n - i - 1) as nat);
            assert(le_bytes(cur as nat, (n - i) as nat) == seq![(cur as nat % 256) as u8] + tail);
            assert(before + (seq![(cur as nat % 256) as u8] + tail) =~= out@ + tail);
        }
        cur = cur / 256;
        i = i + 1;
    }
    assert(le_bytes(cur as nat, 0) =~= Seq::<u8>::empty());
    assert(out@ + Seq::<u8>::empty() =~= out@);
}

/// The number that `b[start..start + n]` spells, least significant first.
fn read_le(b: &[u8], start: usize, n: usize) -> (r: u64)
    requires
        start + n <= b@.len(),
        n <= 8,
    ensures
        r == le_value(b@.subrange(start as int, start + n)),
{
    let len: usize = b.len();
    let end: usize = start + n;
    let mut acc: u64 = 0;
    let mut k: usize = 0;
    proof {
        assert(b@.subrange(end as int, end as int) =~= Seq::<u8>::empty());
    }
    while k < n
        invariant
            k <= n <= 8,
            end == start + n <= len == b@.len(),
            acc == le_value(b@.subrange(end - k, end as int)),
        decreases n - k,
    {
        let j: usize = end - k - 1;
        let ghost prev = b@.subrange(end - k, end as int);
        let ghost next = b@.subrange(j as int, end as int);
        proof {
            assert(next.drop_first() =~= prev);
            lemma_le_value_bound(prev);
            lemma_pow256_mono(k as nat, 7);
            lemma_pow256_facts();
            assert(acc * 256 + 255 < pow256(8)) by (nonlinear_arith)
                requires
                    acc < pow256(k as nat),
                    pow256(k as nat) <= pow256(7),
                    256 * pow256(7) == pow256(8),
            ;
        }
        acc = acc * 256 + b[j] as u64;
        k = k + 1;
    }
    acc
}

/// The `n`-byte two's-complement bit pattern of `v`, for `n` of 2 or 4.
fn to_twos_exec(v: i32, n: usize) -> (r: u64)
    requires
        n == 2 || n == 4,
        -(pow256(n as nat) / 2) <= v < pow256(n as nat) / 2,
    ensures
        r == to_twos(v as int, n as nat),
        r < pow256(n as nat),
{
    proof {
        lemma_pow256_facts();
    }
    let full: i64 = if n == 2 { 0x1_0000 } else { 0x1_0000_0000 };
    if v >= 0 {
        v as u64
    } else {
        (v as i64 + full) as u64
    }
}

/// The signed value of the `n`-byte two's-complement bit pattern `u`, for
/// `n` of 2 or 4.
fn from_twos_exec(u: u64, n: usize) -> (r: i32)
    requires
        n == 2 || n == 4,
        u < pow256(n as nat),
    ensures
        r == from_twos(u as nat, n as nat),
{
    proof {
        lemma_pow256_facts();
    }
    let full: i64 = if n == 2 { 0x1_0000 } else { 0x1_0000_0000 };
    if (u as i64) < full / 2 {
        u as i32
    } else {
        (u as i64 - full) as i32
    }
}

impl Stat {
    /// The record's bytes in the kernel's layout, padding zeroed.
    pub fn to_bytes(&self) -> (r: Vec<u8>)
        ensures
            r@ == stat_bytes(*self),
            r@.len() == STAT_SIZE,
    {
        proof {
            lemma_pow256_facts();
            lemma_stat_round_trip(*self);
        }
        let mut out: Vec<u8> = Vec::new();
        push_le(&mut out, to_twos_exec(self.dev, 4), 4);
        push_le(&mut out, self.ino as u64, 4);
        push_le(&mut out, to_twos_exec(self.file_type as i32, 2), 2);
        push_le(&mut out, to_twos_exec(self.nlink as i32, 2), 2);
        push_le(&mut out, 0, 4);
        push_le(&mut out, self.size, 8);
        proof {
            reveal_with_fuel(le_bytes, 5);
            assert(le_bytes(0, 4) =~= seq![0u8, 0u8, 0u8, 0u8]);
            assert(out@ =~= stat_bytes(*self));
        }
        out
    }

    /// The record that the first `STAT_SIZE` bytes of `b` hold, or `None`
    /// when `b` is shorter than that.
    pub fn from_bytes(b: &[u8]) -> (r: Option<Stat>)
        ensures
            r.is_some() <==> b@.len() >= STAT_SIZE,
            r.is_some() ==> r.unwrap() == stat_of_bytes(b@),
    {
        if b.len() < STAT_SIZE {
            return None;
        }
        proof {
            lemma_pow256_facts();
            lemma_le_value_bound(b@.subrange(0, 4));
            lemma_le_value_bound(b@.subrange(4, 8));
            lemma_le_value_bound(b@.subrange(8, 10));
            lemma_le_value_bound(b@.subrange(10, 12));
        }
        let dev = from_twos_exec(read_le(b, DEV_OFFSET, 4), 4);
        let ino = read_le(b, INO_OFFSET, 4) as u32;
        let file_type = from_twos_exec(read_le(b, TYPE_OFFSET, 2), 2) as i16;
        let nlink = from_twos_exec(read_le(b, NLINK_OFFSET, 2), 2) as i16;
        let size = read_le(b, SIZE_OFFSET, 8);
        Some(Stat { dev, ino, file_type, nlink, size })
    }
}

} // verus!
