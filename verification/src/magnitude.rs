//! Little-endian byte strings read as natural numbers.

use vstd::prelude::*;

verus! {

/// 256 to the power `n`: the weight of the byte at index `n`.
pub open spec fn pow256(n: nat) -> nat
    decreases n,
{
    if n == 0 {
        1
    } else {
        256 * pow256((n - 1) as nat)
    }
}

/// The number that the first `count` bytes encode, least significant byte
/// first.
pub open spec fn le_prefix_value(bytes: Seq<u8>, count: nat) -> nat
    decreases count,
{
    if count == 0 {
        0
    } else {
        le_prefix_value(bytes, (count - 1) as nat) + bytes[count - 1] as nat * pow256(
            (count - 1) as nat,
        )
    }
}

/// The number that a byte string encodes, least significant byte first.
pub open spec fn le_value(bytes: Seq<u8>) -> nat {
    le_prefix_value(bytes, bytes.len())
}

/// A prefix of `count` bytes encodes a number below 256^`count`.
pub proof fn lemma_prefix_value_bound(bytes: Seq<u8>, count: nat)
    requires
        count <= bytes.len(),
    ensures
        le_prefix_value(bytes, count) < pow256(count),
    decreases count,
{
    if count > 0 {
        let below = (count - 1) as nat;
        lemma_prefix_value_bound(bytes, below);
        let weight = pow256(below);
        let byte = bytes[count - 1] as nat;
        assert(byte * weight <= 255 * weight) by (nonlinear_arith)
            requires
                byte <= 255,
        ;
    }
}

/// Prefixes of one length that encode the same number hold the same bytes.
pub proof fn lemma_prefix_value_injective(a: Seq<u8>, b: Seq<u8>, count: nat)
    requires
        count <= a.len(),
        count <= b.len(),
        le_prefix_value(a, count) == le_prefix_value(b, count),
    ensures
        forall|i: int| 0 <= i < count ==> a[i] == b[i],
    decreases count,
{
    if count > 0 {
        let below = (count - 1) as nat;
        let weight = pow256(below);
        let x = a[count - 1] as nat;
        let y = b[count - 1] as nat;
        lemma_prefix_value_bound(a, below);
        lemma_prefix_value_bound(b, below);
        if x < y {
            assert((x + 1) * weight <= y * weight) by (nonlinear_arith)
                requires
                    x + 1 <= y,
            ;
            assert((x + 1) * weight == x * weight + weight) by (nonlinear_arith);
        } else if y < x {
            assert((y + 1) * weight <= x * weight) by (nonlinear_arith)
                requires
                    y + 1 <= x,
            ;
            assert((y + 1) * weight == y * weight + weight) by (nonlinear_arith);
        }
        lemma_prefix_value_injective(a, b, below);
    }
}

/// Two byte strings of one length that encode the same number are the same
/// bytes.
pub proof fn lemma_le_value_injective(a: Seq<u8>, b: Seq<u8>)
    requires
        a.len() == b.len(),
        le_value(a) == le_value(b),
    ensures
        a == b,
{
    lemma_prefix_value_injective(a, b, a.len());
    assert(a =~= b);
}

/// Bytes that are all zero add nothing to the number.
pub proof fn lemma_run_of_zero_bytes(bytes: Seq<u8>, from: nat, to: nat)
    requires
        from <= to <= bytes.len(),
        forall|i: int| from <= i < to ==> bytes[i] == 0,
    ensures
        le_prefix_value(bytes, to) == le_prefix_value(bytes, from),
    decreases to,
{
    if from < to {
        lemma_run_of_zero_bytes(bytes, from, (to - 1) as nat);
        assert(bytes[to - 1] == 0);
        assert(0 * pow256((to - 1) as nat) == 0);
    }
}

/// Bytes that are all 255 fill the number up to the next weight.
pub proof fn lemma_run_of_full_bytes(bytes: Seq<u8>, from: nat, to: nat)
    requires
        from <= to <= bytes.len(),
        forall|i: int| from <= i < to ==> bytes[i] == 255,
    ensures
        le_prefix_value(bytes, to) + pow256(from) == le_prefix_value(bytes, from) + pow256(to),
    decreases to,
{
    if from < to {
        lemma_run_of_full_bytes(bytes, from, (to - 1) as nat);
        assert(bytes[to - 1] == 255);
    }
}

/// Whether `a` encodes a smaller number than `b`. Every byte is read,
/// whatever the bytes hold.
pub fn le_less(a: &[u8], b: &[u8]) -> (less: bool)
    requires
        a@.len() == b@.len(),
    ensures
        less == (le_value(a@) < le_value(b@)),
{
    let mut less = false;
    let mut i: usize = 0;
    while i < a.len()
        invariant
            i <= a@.len(),
            a@.len() == b@.len(),
            less == (le_prefix_value(a@, i as nat) < le_prefix_value(b@, i as nat)),
        decreases a@.len() - i,
    {
        let x: u8 = a[i];
        let y: u8 = b[i];
        proof {
            let weight = pow256(i as nat);
            lemma_prefix_value_bound(a@, i as nat);
            lemma_prefix_value_bound(b@, i as nat);
            if x < y {
                assert((x as nat + 1) * weight <= y as nat * weight) by (nonlinear_arith)
                    requires
                        x as nat + 1 <= y as nat,
                ;
                assert((x as nat + 1) * weight == x as nat * weight + weight)
                    by (nonlinear_arith);
            } else if y < x {
                assert((y as nat + 1) * weight <= x as nat * weight) by (nonlinear_arith)
                    requires
                        y as nat + 1 <= x as nat,
                ;
                assert((y as nat + 1) * weight == y as nat * weight + weight)
                    by (nonlinear_arith);
            }
        }
        less = x < y || (x == y && less);
        i += 1;
    }
    less
}

} // verus!
