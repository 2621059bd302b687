//! The MFi authentication coprocessor, as the authentication exchange uses it.

use vstd::prelude::*;

use crate::error::Result;

verus! {

/// What the accessory's authentication coprocessor provides: its
/// certificate and its signature of a challenge. Implementations talk to
/// the hardware; the library makes no assumption about what they return.
pub trait MfiAuthProvider: Send + Sync {
    fn read_certificate(&self) -> Result<Vec<u8>>;

    fn challenge_response(&self, challenge: &[u8]) -> Result<Vec<u8>>;
}

/// A provider that hands out a fixed certificate and a fixed response.
pub struct MockMfiProvider {
    certificate: Vec<u8>,
    response: Vec<u8>,
}

impl MockMfiProvider {
    pub closed spec fn certificate(&self) -> Seq<u8> {
        self.certificate@
    }

    pub closed spec fn response(&self) -> Seq<u8> {
        self.response@
    }

    pub fn new(certificate: Vec<u8>, response: Vec<u8>) -> (r: Self)
        ensures
            r.certificate() == certificate@,
            r.response() == response@,
    {
        MockMfiProvider { certificate, response }
    }

    /// A provider whose certificate and response are empty.
    pub fn empty() -> (r: Self)
        ensures
            r.certificate() == Seq::<u8>::empty(),
            r.response() == Seq::<u8>::empty(),
    {
        MockMfiProvider { certificate: Vec::new(), response: Vec::new() }
    }
}

impl MfiAuthProvider for MockMfiProvider {
    fn read_certificate(&self) -> (r: Result<Vec<u8>>)
        ensures
            r is Ok && r->Ok_0@ == self.certificate(),
    {
        Ok(self.certificate.clone())
    }

    fn challenge_response(&self, challenge: &[u8]) -> (r: Result<Vec<u8>>)
        ensures
            r is Ok && r->Ok_0@ == self.response(),
    {
        Ok(self.response.clone())
    }
}

/// A shared provider is used through the provider it shares.
impl<T: MfiAuthProvider> MfiAuthProvider for std::sync::Arc<T> {
    /// What the shared provider's `read_certificate` gives.
    fn read_certificate(&self) -> (r: Result<Vec<u8>>)
        ensures
            call_ensures(T::read_certificate, (&**self,), r),
    {
        (**self).read_certificate()
    }

    /// What the shared provider's `challenge_response` gives for the same
    /// challenge.
    fn challenge_response(&self, challenge: &[u8]) -> (r: Result<Vec<u8>>)
        ensures
            call_ensures(T::challenge_response, (&**self, challenge), r),
    {
        (**self).challenge_response(challenge)
    }
}

} // verus!
