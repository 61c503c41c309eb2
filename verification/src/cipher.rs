//! The executable cipher: key scheduling (KSA), keystream generation (PRGA)
//! and in-place keystream application, each proved to match the model.

use vstd::prelude::*;

use crate::model::{
    add_mod, identity_perm, init_state, keystream, ksa_state, step, step_out, steps, swapped,
    valid_key_len, xor_keystream, SpecState,
};

verus! {

/// The one failure the engine knows: a key shorter than 5 or longer than
/// 256 bytes, rejected at scheduling time before any buffer byte is touched.
#[derive(Debug, Clone, Copy, PartialEq, Eq, Structural)]
pub enum Rc4Error {
    InvalidKeyLength,
}

/// RC4 cipher state: a table of the 256 byte values and two cursors,
/// scheduled once from a key and advanced by every keystream byte drawn.
#[derive(Debug)]
pub struct Rc4 {
    s: Vec<u8>,
    i: u8,
    j: u8,
}

impl View for Rc4 {
    type V = SpecState;

    closed spec fn view(&self) -> SpecState {
        SpecState { s: self.s@, i: self.i, j: self.j }
    }
}

/// Byte addition with wrap-around, matching the model's modulo-256 sum.
fn add_wrap(a: u8, b: u8) -> (r: u8)
    ensures
        r == add_mod(a, b),
{
    a.wrapping_add(b)
}

impl Rc4 {
    /// Structural invariant: the table always holds exactly 256 entries.
    pub closed spec fn wf(&self) -> bool {
        self.s@.len() == 256
    }

    /// Key scheduling: build the initial cipher state from the key. A key
    /// length outside [5, 256] fails with `InvalidKeyLength` and no state is
    /// returned.
    pub fn new(key: &[u8]) -> (r: Result<Rc4, Rc4Error>)
        ensures
            r is Ok <==> valid_key_len(key@.len()),
            r is Ok ==> r->Ok_0.wf() && r->Ok_0@ == init_state(key@),
            r is Err ==> r->Err_0 == Rc4Error::InvalidKeyLength,
    {
        if key.len() < 5 || key.len() > 256 {
            return Err(Rc4Error::InvalidKeyLength);
        }
        let mut s: Vec<u8> = Vec::with_capacity(256);
        let mut n: usize = 0;
        while n < 256
            invariant
                n <= 256,
                s@.len() == n,
                forall|k: int| 0 <= k < n ==> s@[k] == k as u8,
            decreases 256 - n,
        {
            s.push(n as u8);
            n = n + 1;
        }
        proof {
            assert(s@ =~= identity_perm());
        }
        let mut rc4 = Rc4 { s, i: 0, j: 0 };
        let mut j: u8 = 0;
        let mut n: usize = 0;
        while n < 256
            invariant
                n <= 256,
                valid_key_len(key@.len()),
                rc4.s@.len() == 256,
                rc4.s@ == ksa_state(key@, n as int).0,
                j == ksa_state(key@, n as int).1,
                rc4.i == 0u8,
                rc4.j == 0u8,
            decreases 256 - n,
        {
            let ghost prev_s = rc4.s@;
            j = add_wrap(add_wrap(j, rc4.s[n]), key[n % key.len()]);
            let a = rc4.s[n];
            let b = rc4.s[j as usize];
            rc4.s[n] = b;
            rc4.s[j as usize] = a;
            proof {
                assert(rc4.s@ =~= swapped(prev_s, n as int, j as int));
                assert(ksa_state(key@, n as int + 1).0 == rc4.s@);
                assert(ksa_state(key@, n as int + 1).1 == j);
            }
            n = n + 1;
        }
        proof {
            assert(rc4@ == init_state(key@));
        }
        Ok(rc4)
    }

    /// Keystream generation: advance the state by one step and return the
    /// next keystream byte. Total: all arithmetic wraps modulo 256.
    pub fn prga_next(&mut self) -> (r: u8)
        requires
            old(self).wf(),
        ensures
            final(self).wf(),
            final(self)@ == step(old(self)@),
            r == step_out(old(self)@),
    {
        self.i = add_wrap(self.i, 1);
        self.j = add_wrap(self.j, self.s[self.i as usize]);
        let a = self.s[self.i as usize];
        let b = self.s[self.j as usize];
        let ghost prev_s = self.s@;
        self.s[self.i as usize] = b;
        self.s[self.j as usize] = a;
        proof {
            assert(self.s@ =~= swapped(prev_s, self.i as int, self.j as int));
            assert(self@ == step(old(self)@));
        }
        self.s[add_wrap(self.s[self.i as usize], self.s[self.j as usize]) as usize]
    }

    /// In-place keystream application: XOR each buffer byte, in increasing
    /// index order, with the next keystream byte. The state advances by one
    /// step per buffer byte.
    pub fn apply_keystream(&mut self, data: &mut Vec<u8>)
        requires
            old(self).wf(),
        ensures
            final(self).wf(),
            final(self)@ == steps(old(self)@, old(data)@.len()),
            final(data)@ == xor_keystream(old(self)@, old(data)@),
    {
        let n = data.len();
        let mut k: usize = 0;
        while k < n
            invariant
                k <= n,
                n == old(data)@.len(),
                data@.len() == n,
                self.wf(),
                self@ == steps(old(self)@, k as nat),
                forall|t: int|
                    0 <= t < k ==> data@[t] == (old(data)@[t] ^ keystream(old(self)@, t as nat)),
                forall|t: int| k <= t < n ==> data@[t] == old(data)@[t],
            decreases n - k,
        {
            let ks = self.prga_next();
            let d = data[k];
            data[k] = d ^ ks;
            proof {
                assert(steps(old(self)@, (k + 1) as nat) == step(steps(old(self)@, k as nat)));
                assert(ks == keystream(old(self)@, k as nat));
            }
            k = k + 1;
        }
        proof {
            assert(data@ =~= xor_keystream(old(self)@, old(data)@));
        }
    }

    /// One-shot convenience entry point: schedule the key, apply the
    /// keystream over the whole buffer, discard the state. An invalid key
    /// length fails with `InvalidKeyLength` and leaves the buffer untouched.
    pub fn apply_keystream_static(key: &[u8], data: &mut Vec<u8>) -> (r: Result<(), Rc4Error>)
        ensures
            r is Ok <==> valid_key_len(key@.len()),
            r is Ok ==> final(data)@ == xor_keystream(init_state(key@), old(data)@),
            r is Err ==> final(data)@ == old(data)@ && r->Err_0 == Rc4Error::InvalidKeyLength,
    {
        let mut rc4 = match Rc4::new(key) {
            Ok(rc4) => rc4,
            Err(e) => {
                return Err(e);
            },
        };
        rc4.apply_keystream(data);
        Ok(())
    }

    /// A copy of the internal table, for callers that want to inspect the
    /// permutation (its entries are exactly the view's table).
    pub fn permutation_table(&self) -> (r: Vec<u8>)
        requires
            self.wf(),
        ensures
            r@ == self@.s,
    {
        let mut r: Vec<u8> = Vec::with_capacity(256);
        let mut k: usize = 0;
        while k < 256
            invariant
                k <= 256,
                self.wf(),
                r@.len() == k,
                forall|t: int| 0 <= t < k ==> r@[t] == self@.s[t],
            decreases 256 - k,
        {
            r.push(self.s[k]);
            k = k + 1;
        }
        proof {
            assert(r@ =~= self@.s);
        }
        r
    }
}

} // verus!
