//! A scoped buffer for key material and decrypted plaintext.
//!
//! Sensitive bytes held in a `SecureBuffer` are overwritten with zeros when
//! the buffer is wiped and, as a last resort, when it is dropped, so no exit
//! path leaves key bytes behind in released memory.

use vstd::prelude::*;

use crate::bytes::push_all;

verus! {

/// A byte buffer whose contents are zeroized before release.
pub struct SecureBuffer {
    data: Vec<u8>,
}

impl View for SecureBuffer {
    type V = Seq<u8>;

    closed spec fn view(&self) -> Seq<u8> {
        self.data@
    }
}

/// Relies on zeroize::Zeroize for Vec<u8>: overwrites the vector's elements
/// and spare capacity with zeros, then truncates it to length zero.
#[verifier::external_body]
fn zeroize_bytes(v: &mut Vec<u8>)
    ensures
        final(v)@.len() == 0,
{
    zeroize::Zeroize::zeroize(v);
}

impl SecureBuffer {
    /// Take ownership of sensitive bytes.
    pub fn new(data: Vec<u8>) -> (r: SecureBuffer)
        ensures
            r@ == data@,
    {
        SecureBuffer { data }
    }

    /// A copy of the held bytes; the caller owns the copy and is subject to
    /// the same zeroization duty for it.
    pub fn get_data(&self) -> (r: Vec<u8>)
        ensures
            r@ == self@,
    {
        let mut r: Vec<u8> = Vec::new();
        push_all(&mut r, &self.data);
        proof {
            assert(Seq::<u8>::empty() + self.data@ =~= self.data@);
        }
        r
    }

    /// How many bytes are held.
    pub fn len(&self) -> (r: usize)
        ensures
            r == self@.len(),
    {
        self.data.len()
    }

    /// Overwrite the held bytes with zeros and release them: after a wipe
    /// the buffer holds nothing.
    pub fn wipe(&mut self)
        ensures
            final(self)@.len() == 0,
    {
        zeroize_bytes(&mut self.data);
    }
}

impl Drop for SecureBuffer {
    /// Relies on zeroize::Zeroize for Vec<u8>: the held bytes are zeroized
    /// on every exit path of the buffer's lifetime, including early error
    /// returns, before the memory is released.
    #[verifier::external_body]
    fn drop(&mut self)
        opens_invariants none
        no_unwind
    {
        zeroize::Zeroize::zeroize(&mut self.data);
    }
}

} // verus!
