//! Little-endian integer encoding of the kind netlink uses on the hosts this
//! library supports (netlink fields are in host byte order; Linux on x86-64
//! and AArch64 is little-endian).
use vstd::prelude::*;

verus! {

/// `256^n`: the number of distinct values held in `n` bytes.
pub open spec fn byte_span(n: nat) -> nat
    decreases n,
{
    if n == 0 {
        1
    } else {
        256 * byte_span((n - 1) as nat)
    }
}

/// The unsigned integer whose little-endian encoding is `s`.
pub open spec fn le_value(s: Seq<u8>) -> nat
    decreases s.len(),
{
    if s.len() == 0 {
        0
    } else {
        s[0] as nat + 256 * le_value(s.drop_first())
    }
}

/// The `n`-byte little-endian encoding of `x` (the low `n` bytes of `x`).
pub open spec fn le_bytes(x: nat, n: nat) -> Seq<u8>
    decreases n,
{
    if n == 0 {
        seq![]
    } else {
        seq![(x % 256) as u8] + le_bytes(x / 256, (n - 1) as nat)
    }
}

/// The `n`-byte little-endian integer stored at `off` in `s`.
pub open spec fn le_at(s: Seq<u8>, off: int, n: int) -> nat {
    le_value(s.subrange(off, off + n))
}

pub proof fn lemma_byte_span_pos(n: nat)
    ensures
        byte_span(n) >= 1,
    decreases n,
{
    if n > 0 {
        lemma_byte_span_pos((n - 1) as nat);
    }
}

/// An `n`-byte encoding holds a value below `256^n`.
pub proof fn lemma_le_value_bound(s: Seq<u8>)
    ensures
        le_value(s) < byte_span(s.len()),
    decreases s.len(),
{
    if s.len() > 0 {
        lemma_le_value_bound(s.drop_first());
        assert(byte_span(s.len()) == 256 * byte_span(s.drop_first().len()));
    }
}

pub proof fn lemma_le_bytes_len(x: nat, n: nat)
    ensures
        le_bytes(x, n).len() == n,
    decreases n,
{
    if n > 0 {
        lemma_le_bytes_len(x / 256, (n - 1) as nat);
    }
}

/// Decoding an encoding gives back the value, once it fits in `n` bytes.
pub proof fn lemma_le_round_trip(x: nat, n: nat)
    requires
        x < byte_span(n),
    ensures
        le_value(le_bytes(x, n)) == x,
    decreases n,
{
    if n > 0 {
        let rest = le_bytes(x / 256, (n - 1) as nat);
        assert(x / 256 < byte_span((n - 1) as nat)) by (nonlinear_arith)
            requires
                x < 256 * byte_span((n - 1) as nat),
        ;
        lemma_le_round_trip(x / 256, (n - 1) as nat);
        assert(le_bytes(x, n).drop_first() =~= rest);
    }
}

/// Reads the `n`-byte little-endian integer at `off`.
pub fn read_le(buf: &[u8], off: usize, n: usize) -> (r: u64)
    requires
        n <= 8,
        off + n <= buf@.len(),
    ensures
        r == le_at(buf@, off as int, n as int),
{
    let mut acc: u64 = 0;
    let mut i: usize = n;
    let len = buf.len();
    while i > 0
        invariant
            len == buf@.len(),
            n <= 8,
            off + n <= buf@.len(),
            i <= n,
            acc == le_at(buf@, off + i, (n - i) as int),
        decreases i,
    {
        let ghost tail = buf@.subrange(off + i, off + n);
        let ghost whole = buf@.subrange(off + i - 1, off + n);
        proof {
            assert(whole.drop_first() =~= tail);
            lemma_le_value_bound(tail);
            lemma_byte_span_le_8((n - i) as nat);
        }
        i = i - 1;
        acc = acc * 256 + buf[off + i] as u64;
    }
    acc
}

proof fn lemma_byte_span_le_8(k: nat)
    requires
        k < 8,
    ensures
        byte_span(k) * 256 <= 0x1_0000_0000_0000_0000,
{
    reveal_with_fuel(byte_span, 9);
}

/// Appends the `n`-byte little-endian encoding of `x`.
pub fn push_le(out: &mut Vec<u8>, x: u64, n: usize)
    requires
        n <= 8,
    ensures
        final(out)@ == old(out)@ + le_bytes(x as nat, n as nat),
{
    let mut rest: u64 = x;
    let mut k: usize = 0;
    assert(byte_span(0) == 1);
    while k < n
        invariant
            k <= n,
            rest as nat == x as nat / byte_span(k as nat),
            out@ + le_bytes(rest as nat, (n - k) as nat) == old(out)@ + le_bytes(x as nat, n as nat),
        decreases n - k,
    {
        let ghost before = out@;
        out.push((rest % 256) as u8);
        proof {
            assert(le_bytes(rest as nat, (n - k) as nat) =~= seq![(rest % 256) as u8]
                + le_bytes(rest as nat / 256, (n - k - 1) as nat));
            assert(out@ + le_bytes(rest as nat / 256, (n - k - 1) as nat) =~= before
                + le_bytes(rest as nat, (n - k) as nat));
            lemma_byte_span_pos(k as nat);
            lemma_div_div(x as nat, byte_span(k as nat));
        }
        rest = rest / 256;
        k = k + 1;
    }
    proof {
        assert(out@ + le_bytes(rest as nat, 0) =~= out@);
    }
}

proof fn lemma_div_div(x: nat, d: nat)
    requires
        d >= 1,
    ensures
        x / d / 256 == x / (256 * d),
{
    vstd::arithmetic::div_mod::lemma_div_denominator(x as int, d as int, 256);
}

} // verus!
