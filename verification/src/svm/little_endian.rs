//! Little-endian byte order: the number a run of bytes stands for, and back.

use vstd::prelude::*;
use vstd::arithmetic::power::pow;

verus! {

/// The number that the bytes `b` stand for, least significant byte first.
pub open spec fn le_value(b: Seq<u8>) -> nat
    decreases b.len(),
{
    if b.len() == 0 {
        0
    } else {
        b[0] as nat + 256 * le_value(b.drop_first())
    }
}

/// The lowest `n` bytes of `v`, least significant byte first.
pub open spec fn le_bytes(v: nat, n: nat) -> Seq<u8>
    decreases n,
{
    if n == 0 {
        seq![]
    } else {
        seq![(v % 256) as u8] + le_bytes(v / 256, (n - 1) as nat)
    }
}

/// Reading back the lowest `n` bytes of `v` gives `v` modulo `256^n`.
pub proof fn lemma_value_of_bytes(v: nat, n: nat)
    ensures
        le_bytes(v, n).len() == n,
        pow(256, n) > 0,
        le_value(le_bytes(v, n)) == v % (pow(256, n) as nat),
    decreases n,
{
    vstd::arithmetic::power::lemma_pow_positive(256, n);
    if n > 0 {
        let m = (n - 1) as nat;
        lemma_value_of_bytes(v / 256, m);
        vstd::arithmetic::power::lemma_pow_positive(256, m);
        let s = le_bytes(v, n);
        assert(s.drop_first() =~= le_bytes(v / 256, m));
        assert(pow(256, n) == 256 * pow(256, m)) by {
            vstd::arithmetic::power::lemma_pow_adds(256, 1, m);
            vstd::arithmetic::power::lemma_pow1(256);
        }
        vstd::arithmetic::div_mod::lemma_mod_breakdown(v as int, 256, pow(256, m));
    } else {
        assert(pow(256, 0) == 1) by {
            vstd::arithmetic::power::lemma_pow0(256);
        }
    }
}

/// Bytes read as a number and written back as as many bytes are the same bytes.
pub proof fn lemma_bytes_of_value(b: Seq<u8>)
    ensures
        le_value(b) < pow(256, b.len()),
        le_bytes(le_value(b), b.len()) == b,
    decreases b.len(),
{
    if b.len() == 0 {
        vstd::arithmetic::power::lemma_pow0(256);
        assert(le_bytes(le_value(b), b.len()) =~= b);
    } else {
        let rest = b.drop_first();
        lemma_bytes_of_value(rest);
        let r = le_value(rest);
        let v = le_value(b);
        assert(v == b[0] as nat + 256 * r);
        vstd::arithmetic::div_mod::lemma_fundamental_div_mod_converse(v as int, 256, r as int, b[0] as int);
        assert(pow(256, b.len()) == 256 * pow(256, rest.len())) by {
            vstd::arithmetic::power::lemma_pow_adds(256, 1, rest.len());
            vstd::arithmetic::power::lemma_pow1(256);
        }
        assert(v < pow(256, b.len())) by (nonlinear_arith)
            requires
                v == b[0] as nat + 256 * r,
                b[0] < 256,
                r < pow(256, rest.len()),
                pow(256, b.len()) == 256 * pow(256, rest.len()),
        ;
        assert(le_bytes(v, b.len()) =~= b);
    }
}

/// `256^n` for the widths the machine reads and writes.
pub proof fn lemma_byte_powers()
    ensures
        pow(256, 1) == 0x100,
        pow(256, 2) == 0x1_0000,
        pow(256, 4) == 0x1_0000_0000,
        pow(256, 8) == 0x1_0000_0000_0000_0000,
{
    vstd::arithmetic::power::lemma_pow0(256);
    reveal_with_fuel(pow, 9);
}

} // verus!
