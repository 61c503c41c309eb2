//! Proved laws of the cipher model: the keystream is a deterministic
//! function of the key, applying it twice is the identity, and the internal
//! table stays a permutation of the 256 byte values through key scheduling
//! and through any number of keystream steps.

use vstd::prelude::*;

use crate::model::{
    identity_perm, init_state, is_permutation, keystream, ksa_state, step, steps, swapped,
    valid_key_len, xor_keystream, SpecState,
};

verus! {

/// XOR with the same byte twice gives the original byte back.
proof fn lemma_xor_cancel(a: u8, b: u8)
    ensures
        ((a ^ b) ^ b) == a,
{
    assert(((a ^ b) ^ b) == a) by (bit_vector);
}

/// The identity table is a permutation.
proof fn lemma_identity_is_permutation()
    ensures
        is_permutation(identity_perm()),
{
    let s = identity_perm();
    assert forall|v: u8| #[trigger] s.contains(v) by {
        assert(s[v as int] == v);
    }
}

/// Exchanging two in-range entries keeps the table a permutation.
proof fn lemma_swapped_is_permutation(s: Seq<u8>, a: int, b: int)
    requires
        is_permutation(s),
        0 <= a < 256,
        0 <= b < 256,
    ensures
        is_permutation(swapped(s, a, b)),
{
    let s2 = swapped(s, a, b);
    assert forall|v: u8| #[trigger] s2.contains(v) by {
        assert(s.contains(v));
        let w = choose|w: int| 0 <= w < 256 && s[w] == v;
        let w2: int = if w == a {
            b
        } else if w == b {
            a
        } else {
            w
        };
        assert(s2[w2] == v);
    }
}

/// After any number of key-scheduling rounds the table is a permutation.
proof fn lemma_ksa_state_permutation(key: Seq<u8>, n: int)
    requires
        key.len() > 0,
        0 <= n <= 256,
    ensures
        is_permutation(ksa_state(key, n).0),
    decreases n,
{
    if n <= 0 {
        lemma_identity_is_permutation();
    } else {
        lemma_ksa_state_permutation(key, n - 1);
        let prev = ksa_state(key, n - 1);
        lemma_swapped_is_permutation(prev.0, n - 1, ksa_state(key, n).1 as int);
    }
}

/// Key scheduling yields a permutation of the 256 byte values.
pub proof fn lemma_init_permutation(key: Seq<u8>)
    requires
        valid_key_len(key.len()),
    ensures
        is_permutation(init_state(key).s),
{
    lemma_ksa_state_permutation(key, 256);
}

/// One keystream step keeps the table a permutation.
proof fn lemma_step_permutation(st: SpecState)
    requires
        is_permutation(st.s),
    ensures
        is_permutation(step(st).s),
{
    let st2 = step(st);
    lemma_swapped_is_permutation(st.s, st2.i as int, st2.j as int);
}

/// Any number of keystream steps keeps the table a permutation.
pub proof fn lemma_steps_permutation(st: SpecState, n: nat)
    requires
        is_permutation(st.s),
    ensures
        is_permutation(steps(st, n).s),
    decreases n,
{
    if n > 0 {
        lemma_steps_permutation(st, (n - 1) as nat);
        lemma_step_permutation(steps(st, (n - 1) as nat));
    }
}

/// Determinism: two states independently scheduled from the same key emit
/// the same keystream byte at every position.
pub proof fn lemma_determinism(key: Seq<u8>, a: SpecState, b: SpecState, n: nat)
    requires
        a == init_state(key),
        b == init_state(key),
    ensures
        keystream(a, n) == keystream(b, n),
{
}

/// Non-identity, short of the degenerate case: whenever some keystream byte
/// over the buffer's window is nonzero, the encrypted buffer differs from
/// the original. (A window of all-zero keystream bytes would leave the
/// buffer unchanged, so the restriction cannot be dropped.)
pub proof fn lemma_non_identity(key: Seq<u8>, data: Seq<u8>)
    requires
        exists|k: int|
            0 <= k < data.len() && #[trigger] keystream(init_state(key), k as nat) != 0,
    ensures
        xor_keystream(init_state(key), data) != data,
{
    let st = init_state(key);
    let k = choose|k: int|
        0 <= k < data.len() && #[trigger] keystream(init_state(key), k as nat) != 0;
    let b = keystream(st, k as nat);
    let d = data[k];
    assert((d ^ b) != d) by (bit_vector)
        requires
            b != 0,
    ;
    assert(xor_keystream(st, data)[k] != data[k]);
}

/// Involution: applying the keystream of one key twice, each time from a
/// freshly scheduled state, restores the buffer exactly.
pub proof fn lemma_involution(key: Seq<u8>, data: Seq<u8>)
    ensures
        xor_keystream(init_state(key), xor_keystream(init_state(key), data)) == data,
{
    let st = init_state(key);
    let c = xor_keystream(st, data);
    let p = xor_keystream(st, c);
    assert forall|k: int| 0 <= k < data.len() implies p[k] == data[k] by {
        lemma_xor_cancel(data[k], keystream(st, k as nat));
    }
    assert(p =~= data);
}

} // verus!
