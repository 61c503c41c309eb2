//! Mathematical model of the RC4 cipher: the state as a sequence of 256
//! bytes plus two cursors, key scheduling and keystream generation as pure
//! functions on that state, and the permutation property of the table.

use vstd::prelude::*;

verus! {

/// The abstract cipher state: the 256-entry table and the two cursors.
pub ghost struct SpecState {
    pub s: Seq<u8>,
    pub i: u8,
    pub j: u8,
}

/// Byte addition with wrap-around: the cipher's modulo-256 arithmetic.
pub open spec fn add_mod(a: u8, b: u8) -> u8 {
    ((a + b) % 256) as u8
}

/// The identity table: entry n holds the byte value n.
pub open spec fn identity_perm() -> Seq<u8> {
    Seq::new(256, |n: int| n as u8)
}

/// The table with the entries at positions a and b exchanged.
pub open spec fn swapped(s: Seq<u8>, a: int, b: int) -> Seq<u8> {
    s.update(a, s[b]).update(b, s[a])
}

/// A key length the cipher accepts: 5 to 256 bytes (40 to 2048 bits).
pub open spec fn valid_key_len(len: nat) -> bool {
    5 <= len && len <= 256
}

/// One round of key scheduling at index n: advance the scratch cursor by the
/// table entry and the next key byte, then swap.
pub open spec fn ksa_round(s: Seq<u8>, j: u8, key: Seq<u8>, n: int) -> (Seq<u8>, u8) {
    let j2 = add_mod(add_mod(j, s[n]), key[n % (key.len() as int)]);
    (swapped(s, n, j2 as int), j2)
}

/// Table and scratch cursor after the first n rounds of key scheduling,
/// starting from the identity table.
pub open spec fn ksa_state(key: Seq<u8>, n: int) -> (Seq<u8>, u8)
    decreases n,
{
    if n <= 0 {
        (identity_perm(), 0u8)
    } else {
        let prev = ksa_state(key, n - 1);
        ksa_round(prev.0, prev.1, key, n - 1)
    }
}

/// The state key scheduling produces: the fully scrambled table, both
/// persistent cursors zero.
pub open spec fn init_state(key: Seq<u8>) -> SpecState {
    SpecState { s: ksa_state(key, 256).0, i: 0u8, j: 0u8 }
}

/// One keystream step: advance both cursors and swap the entries they select.
pub open spec fn step(st: SpecState) -> SpecState {
    let i2 = add_mod(st.i, 1);
    let j2 = add_mod(st.j, st.s[i2 as int]);
    SpecState { s: swapped(st.s, i2 as int, j2 as int), i: i2, j: j2 }
}

/// The keystream byte one step from st emits: the entry at the sum of the two
/// freshly swapped entries.
pub open spec fn step_out(st: SpecState) -> u8 {
    let st2 = step(st);
    st2.s[add_mod(st2.s[st2.i as int], st2.s[st2.j as int]) as int]
}

/// The state after n keystream steps from st.
pub open spec fn steps(st: SpecState, n: nat) -> SpecState
    decreases n,
{
    if n == 0 {
        st
    } else {
        step(steps(st, (n - 1) as nat))
    }
}

/// The keystream byte at position n (counting from 0) of the stream from st.
pub open spec fn keystream(st: SpecState, n: nat) -> u8 {
    step_out(steps(st, n))
}

/// The buffer XORed, byte for byte, against the keystream from st.
pub open spec fn xor_keystream(st: SpecState, data: Seq<u8>) -> Seq<u8> {
    Seq::new(data.len(), |k: int| data[k] ^ keystream(st, k as nat))
}

/// Whether s is a permutation of the 256 byte values: length 256, no entry
/// repeated, and every byte value present somewhere.
pub open spec fn is_permutation(s: Seq<u8>) -> bool {
    &&& s.len() == 256
    &&& forall|a: int, b: int|
        #![trigger s[a], s[b]]
        0 <= a < 256 && 0 <= b < 256 && a != b ==> s[a] != s[b]
    &&& forall|v: u8| #[trigger] s.contains(v)
}

} // verus!
