//! Unsigned integers as big-endian bytes.
use vstd::prelude::*;

verus! {

/// `256` to the power `n`: how many values `n` bytes can tell apart.
pub open spec fn pow256(n: nat) -> nat
    decreases n,
{
    if n == 0 {
        1
    } else {
        256 * pow256((n - 1) as nat)
    }
}

/// The `n` low-order bytes of `v`, most significant byte first.
pub open spec fn be_bytes(v: nat, n: nat) -> Seq<u8>
    decreases n,
{
    if n == 0 {
        Seq::empty()
    } else {
        be_bytes(v / 256, (n - 1) as nat).push((v % 256) as u8)
    }
}

/// The number that `s` spells, most significant byte first.
pub open spec fn be_value(s: Seq<u8>) -> nat
    decreases s.len(),
{
    if s.len() == 0 {
        0
    } else {
        be_value(s.drop_last()) * 256 + s.last() as nat
    }
}

/// `n` bytes are written for `n` bytes asked for.
pub broadcast proof fn be_bytes_len(v: nat, n: nat)
    ensures
        #[trigger] be_bytes(v, n).len() == n,
    decreases n,
{
    if n > 0 {
        be_bytes_len(v / 256, (n - 1) as nat);
    }
}

/// Reading back what was written gives the number, when it fits the width.
pub proof fn be_value_of_be_bytes(v: nat, n: nat)
    requires
        v < pow256(n),
    ensures
        be_value(be_bytes(v, n)) == v,
    decreases n,
{
    if n > 0 {
        be_value_of_be_bytes(v / 256, (n - 1) as nat);
        let s = be_bytes(v, n);
        assert(s.drop_last() =~= be_bytes(v / 256, (n - 1) as nat));
    }
}

/// Writing what was read gives the bytes again.
pub proof fn be_bytes_of_be_value(s: Seq<u8>)
    ensures
        be_bytes(be_value(s), s.len()) == s,
    decreases s.len(),
{
    if s.len() > 0 {
        be_bytes_of_be_value(s.drop_last());
        assert(s =~= s.drop_last().push(s.last()));
    }
}

/// What `s` spells fits its width.
pub proof fn be_value_bound(s: Seq<u8>)
    ensures
        be_value(s) < pow256(s.len()),
    decreases s.len(),
{
    if s.len() > 0 {
        be_value_bound(s.drop_last());
    }
}

/// The widths that a frame uses.
pub proof fn pow256_widths()
    ensures
        pow256(1) == 0x100,
        pow256(4) == 0x1_0000_0000,
        pow256(8) == 0x1_0000_0000_0000_0000,
{
    reveal_with_fuel(pow256, 9);
}

proof fn pow256_monotonic(m: nat, n: nat)
    requires
        m <= n,
    ensures
        pow256(m) <= pow256(n),
    decreases n,
{
    if m < n {
        pow256_monotonic(m, (n - 1) as nat);
    }
}

/// Appends the `width` low-order bytes of `v` to `out`, most significant byte first.
pub fn push_be(out: &mut Vec<u8>, v: u64, width: usize)
    ensures
        final(out)@ == old(out)@ + be_bytes(v as nat, width as nat),
    decreases width,
{
    if width > 0 {
        push_be(out, v / 256, width - 1);
        out.push((v % 256) as u8);
    }
}

/// The number that the `width` bytes of `bytes` from `at` on spell, most significant byte first.
pub fn read_be(bytes: &[u8], at: usize, width: usize) -> (v: u64)
    requires
        at + width <= bytes.len(),
        width <= 8,
    ensures
        v == be_value(bytes@.subrange(at as int, at + width)),
        v < pow256(width as nat),
{
    let mut v: u64 = 0;
    let mut i: usize = 0;
    while i < width
        invariant
            i <= width <= 8,
            at + width <= bytes.len(),
            v == be_value(bytes@.subrange(at as int, at + i)),
            v < pow256(i as nat),
        decreases width - i,
    {
        proof {
            pow256_monotonic((i + 1) as nat, 8);
            pow256_widths();
            let next = bytes@.subrange(at as int, at + i + 1);
            assert(next.drop_last() =~= bytes@.subrange(at as int, at + i));
        }
        v = v * 256 + bytes[at + i] as u64;
        i = i + 1;
    }
    v
}

} // verus!
