//! The accessory side of MFi authentication: the certificate message and
//! the answer to the device's challenge.

use vstd::prelude::*;

use crate::buffer::{bytes_from_vec, bytes_view};
use crate::error::{error_text, Iap2Error, Result};
use crate::mfi::MfiAuthProvider;
use crate::packet::slice_range;
use crate::text::{decimal, owned, push_number, push_text, with_number};
use crate::wire::{
    be16, be16_value, control_message, control_message_fits, frame_control_message, push_be16,
    push_bytes, read_be16,
};

verus! {

/// AuthenticationCertificate.
pub const AUTH_CERTIFICATE: u16 = 0xAA01;

/// AuthenticationResponse.
pub const AUTH_RESPONSE: u16 = 0xAA03;

/// The four bytes that follow the certificate in its parameter.
pub open spec fn certificate_trailer() -> Seq<u8> {
    seq![0xA1u8, 0x00, 0x31, 0x00]
}

/// The parameter of AuthenticationCertificate: a 16-bit length that counts
/// the certificate and its trailer (not the parameter header), id 0, the
/// certificate and the trailer.
pub open spec fn certificate_param(cert: Seq<u8>) -> Seq<u8> {
    be16(((cert.len() + 4) % 65536) as int) + be16(0) + cert + certificate_trailer()
}

/// Whether the AuthenticationCertificate message of a certificate of
/// `len` bytes can be framed.
pub open spec fn certificate_fits(len: int) -> bool {
    control_message_fits(len + 8)
}

/// The parameter of AuthenticationResponse: a 16-bit length that counts
/// the header and the 16-bit-truncated response, id 0, and the response.
pub open spec fn response_param(response: Seq<u8>) -> Seq<u8> {
    be16(4 + (response.len() % 65536) as int) + be16(0) + response
}

/// Whether the AuthenticationResponse message of a response of `len` bytes
/// can be framed: the parameter length and the message length add up in 16
/// bits.
pub open spec fn response_fits(len: int) -> bool {
    len % 65536 + 4 <= 65535 && control_message_fits(len + 4)
}

/// Whether a challenge payload is refused: shorter than its parameter
/// header, shorter than its declared parameter length, too short for the
/// 32-byte challenge that follows the header, or a challenge of zeros.
pub open spec fn challenge_refused(p: Seq<u8>) -> bool {
    ||| p.len() < 4
    ||| p.len() < be16_value(p[0], p[1])
    ||| p.len() < 36
    ||| forall|i: int| 4 <= i < 36 ==> p[i] == 0
}

/// The challenge that a payload carries: the 32 bytes after the parameter
/// header.
pub open spec fn challenge_of(p: Seq<u8>) -> Seq<u8> {
    p.subrange(4, 36)
}

/// The reason given for refusing a challenge payload, in the order the
/// checks are made.
pub open spec fn refusal_text(p: Seq<u8>) -> Seq<char> {
    if p.len() < 4 {
        "Challenge payload too short"@
    } else if p.len() < be16_value(p[0], p[1]) {
        "Challenge payload incomplete: expected "@ + decimal(be16_value(p[0], p[1]) as nat)
            + ", got "@ + decimal(p.len())
    } else if p.len() < 36 {
        "Payload too short for 32-byte challenge: got "@ + decimal(p.len())
    } else {
        "Challenge is all zeros - corrupted data"@
    }
}

/// The reason given when the coprocessor fails to sign: its own error,
/// described.
pub open spec fn signing_failure_text(e: Iap2Error) -> Seq<char> {
    "MFi challenge-response failed: "@ + error_text(e)
}

/// Whether every byte of `s` is zero.
fn all_zero(s: &[u8]) -> (r: bool)
    ensures
        r == (forall|i: int| 0 <= i < s@.len() ==> s@[i] == 0),
{
    let mut i: usize = 0;
    while i < s.len()
        invariant
            i <= s@.len(),
            forall|j: int| 0 <= j < i ==> s@[j] == 0,
        decreases s@.len() - i,
    {
        if s[i] != 0 {
            return false;
        }
        i = i + 1;
    }
    true
}

/// A certificate request with `before` as the certificate read so far,
/// `r` as its result and `after` as the certificate kept: a certificate read
/// before is kept and nothing is asked; otherwise the provider is asked, the
/// certificate it returns is kept, and its error is passed on with nothing
/// kept.
pub open spec fn certificate_step<P: MfiAuthProvider>(
    provider: P,
    before: Option<Seq<u8>>,
    r: Result<()>,
    after: Option<Seq<u8>>,
) -> bool {
    match before {
        Some(_) => r is Ok && after == before,
        None => match r {
            Ok(()) => exists|c: Vec<u8>|
                #[trigger] call_ensures(
                    P::read_certificate,
                    (&provider,),
                    Ok::<Vec<u8>, Iap2Error>(c),
                ) && after == Some(c@),
            Err(e) => call_ensures(
                P::read_certificate,
                (&provider,),
                Err::<Vec<u8>, Iap2Error>(e),
            ) && after is None,
        },
    }
}

/// The certificate is read from the provider once: after a request that
/// succeeded, a further request succeeds and keeps the same certificate,
/// which is one that the provider returned. After a request that failed
/// nothing is kept, so the next request asks the provider again.
pub proof fn lemma_certificate_read_once<P: MfiAuthProvider>(
    provider: P,
    c0: Option<Seq<u8>>,
    r1: Result<()>,
    c1: Option<Seq<u8>>,
    r2: Result<()>,
    c2: Option<Seq<u8>>,
)
    requires
        certificate_step(provider, c0, r1, c1),
        certificate_step(provider, c1, r2, c2),
    ensures
        r1 is Ok ==> r2 is Ok && c2 == c1 && c1 is Some,
        r1 is Ok && c0 is None ==> exists|c: Vec<u8>|
            #[trigger] call_ensures(
                P::read_certificate,
                (&provider,),
                Ok::<Vec<u8>, Iap2Error>(c),
            ) && c1 == Some(c@),
        r1 is Err ==> c0 is None && c1 is None,
{
}

/// The state of the authentication exchange: the certificate once it was
/// read, and the coprocessor that provides it.
pub struct Iap2Auth<P: MfiAuthProvider> {
    certificate: Option<Vec<u8>>,
    mfi_provider: P,
}

impl<P: MfiAuthProvider> Iap2Auth<P> {
    /// The certificate, once it was read.
    pub closed spec fn certificate(&self) -> Option<Seq<u8>> {
        match self.certificate {
            Some(c) => Some(c@),
            None => None,
        }
    }

    pub closed spec fn provider(&self) -> P {
        self.mfi_provider
    }

    pub fn new(mfi_provider: P) -> (r: Self)
        ensures
            r.certificate() is None,
            r.provider() == mfi_provider,
    {
        Iap2Auth { certificate: None, mfi_provider }
    }

    /// The device asked for the certificate: read it from the coprocessor
    /// unless it was read before. The certificate kept is the one the
    /// coprocessor returned; an error of the coprocessor is passed on and
    /// leaves the certificate unread, so the next request asks again.
    pub fn handle_certificate_request(&mut self) -> (r: Result<()>)
        ensures
            final(self).provider() == old(self).provider(),
            certificate_step(
                old(self).provider(),
                old(self).certificate(),
                r,
                final(self).certificate(),
            ),
    {
        if self.certificate.is_none() {
            match self.mfi_provider.read_certificate() {
                Ok(cert) => {
                    let ghost c = cert;
                    self.certificate = Some(cert);
                    assert(self.certificate() == Some(c@));
                },
                Err(e) => {
                    return Err(e);
                },
            }
        }
        Ok(())
    }

    /// Whether the certificate message can be framed, or no certificate
    /// was read.
    pub fn certificate_message_fits(&self) -> (r: bool)
        ensures
            r == match self.certificate() {
                Some(c) => certificate_fits(c.len() as int),
                None => true,
            },
    {
        match &self.certificate {
            Some(c) => {
                proof {
                    crate::wire::lemma_mod_shift(c@.len() as int, 10);
                }
                (c.len() % 65536 + 10) % 65536 <= 65531
            },
            None => true,
        }
    }

    /// AuthenticationCertificate with the certificate that was read; an
    /// authentication error before any was.
    pub fn certificate_message(&self) -> (r: Result<bytes::Bytes>)
        requires
            self.certificate() is Some ==> certificate_fits(self.certificate()->0.len() as int),
        ensures
            match self.certificate() {
                Some(c) => r is Ok && bytes_view(r->Ok_0) == control_message(
                    AUTH_CERTIFICATE,
                    certificate_param(c),
                ),
                None => r is Err && r->Err_0 is AuthenticationFailed
                    && r->Err_0->AuthenticationFailed_0@ == "Certificate not loaded"@,
            },
    {
        match &self.certificate {
            Some(cert) => {
                let mut param: Vec<u8> = Vec::new();
                let len: u16 = ((cert.len() % 65536 + 4) % 65536) as u16;
                push_be16(&mut param, len);
                push_be16(&mut param, 0);
                push_bytes(&mut param, cert.as_slice());
                let trailer: Vec<u8> = vec![0xA1, 0x00, 0x31, 0x00];
                push_bytes(&mut param, trailer.as_slice());
                proof {
                    crate::wire::lemma_mod_shift(cert@.len() as int, 4);
                    assert(trailer@ =~= certificate_trailer());
                    assert(param@ =~= certificate_param(cert@));
                }
                Ok(bytes_from_vec(frame_control_message(AUTH_CERTIFICATE, param.as_slice())))
            },
            None => Err(Iap2Error::AuthenticationFailed(owned("Certificate not loaded"))),
        }
    }

    /// The device sent a challenge: check it and have the coprocessor sign
    /// the 32 bytes after the parameter header. A refused payload gives an
    /// authentication error without asking the coprocessor; otherwise the
    /// coprocessor's signature is returned, and an error of the coprocessor
    /// becomes an authentication error that describes it.
    pub fn handle_challenge_request(&mut self, payload: &[u8]) -> (r: Result<Vec<u8>>)
        ensures
            final(self).certificate() == old(self).certificate(),
            final(self).provider() == old(self).provider(),
            challenge_refused(payload@) ==> r is Err && r->Err_0 is AuthenticationFailed
                && r->Err_0->AuthenticationFailed_0@ == refusal_text(payload@),
            !challenge_refused(payload@) ==> match r {
                Ok(sig) => exists|c: &[u8]|
                    c@ == challenge_of(payload@) && #[trigger] call_ensures(
                        P::challenge_response,
                        (&old(self).provider(), c),
                        Ok::<Vec<u8>, Iap2Error>(sig),
                    ),
                Err(e) => e is AuthenticationFailed && exists|c: &[u8], pe: Iap2Error|
                    c@ == challenge_of(payload@) && #[trigger] call_ensures(
                        P::challenge_response,
                        (&old(self).provider(), c),
                        Err::<Vec<u8>, Iap2Error>(pe),
                    ) && e->AuthenticationFailed_0@ == signing_failure_text(pe),
            },
    {
        match Self::challenge_from_payload(payload) {
            Ok(challenge) => {
                let signed = self.mfi_provider.challenge_response(challenge);
                assert(call_ensures(
                    P::challenge_response,
                    (&self.mfi_provider, challenge),
                    signed,
                ));
                match signed {
                    Ok(response) => {
                        assert(call_ensures(
                            P::challenge_response,
                            (&old(self).provider(), challenge),
                            Ok::<Vec<u8>, Iap2Error>(response),
                        ));
                        Ok(response)
                    },
                    Err(e) => {
                        let mut reason = owned("MFi challenge-response failed: ");
                        let detail = e.to_string();
                        push_text(&mut reason, detail.as_str());
                        assert(call_ensures(
                            P::challenge_response,
                            (&old(self).provider(), challenge),
                            Err::<Vec<u8>, Iap2Error>(e),
                        ));
                        assert(reason@ == signing_failure_text(e));
                        Err(Iap2Error::AuthenticationFailed(reason))
                    },
                }
            },
            Err(e) => Err(e),
        }
    }

    /// The 32-byte challenge of a challenge payload, or the authentication
    /// error that refuses the payload.
    pub fn challenge_from_payload(payload: &[u8]) -> (r: Result<&[u8]>)
        ensures
            challenge_refused(payload@) ==> r is Err && r->Err_0 is AuthenticationFailed
                && r->Err_0->AuthenticationFailed_0@ == refusal_text(payload@),
            !challenge_refused(payload@) ==> r is Ok && r->Ok_0@ == challenge_of(payload@),
    {
        if payload.len() < 4 {
            return Err(Iap2Error::AuthenticationFailed(owned("Challenge payload too short")));
        }
        let param_len = read_be16(payload[0], payload[1]) as usize;
        if payload.len() < param_len {
            let mut reason = with_number(
                "Challenge payload incomplete: expected ",
                param_len as u64,
                ", got ",
            );
            push_number(&mut reason, payload.len() as u64);
            return Err(Iap2Error::AuthenticationFailed(reason));
        }
        if payload.len() < 4 + 32 {
            let mut reason = owned("Payload too short for 32-byte challenge: got ");
            push_number(&mut reason, payload.len() as u64);
            return Err(Iap2Error::AuthenticationFailed(reason));
        }
        let challenge = slice_range(payload, 4, 36);
        if all_zero(challenge) {
            proof {
                assert forall|i: int| 4 <= i < 36 implies payload@[i] == 0 by {
                    assert(challenge@[i - 4] == payload@[i]);
                }
            }
            return Err(
                Iap2Error::AuthenticationFailed(owned("Challenge is all zeros - corrupted data")),
            );
        }
        proof {
            if forall|i: int| 4 <= i < 36 ==> payload@[i] == 0 {
                assert forall|j: int| 0 <= j < challenge@.len() implies challenge@[j] == 0 by {
                    assert(payload@[j + 4] == 0);
                }
            }
        }
        Ok(challenge)
    }

    /// Whether the AuthenticationResponse message of a response of `len`
    /// bytes can be framed.
    pub fn response_message_fits(len: usize) -> (r: bool)
        ensures
            r == response_fits(len as int),
    {
        proof {
            crate::wire::lemma_mod_shift(len as int, 6);
        }
        let m = len % 65536;
        m + 4 <= 65535 && (m + 6) % 65536 <= 65531
    }

    /// AuthenticationResponse carrying the coprocessor's signature.
    pub fn response_message(response: &[u8]) -> (r: bytes::Bytes)
        requires
            response_fits(response@.len() as int),
        ensures
            bytes_view(r) == control_message(AUTH_RESPONSE, response_param(response@)),
    {
        let mut param: Vec<u8> = Vec::new();
        let signature_len: u16 = (response.len() % 65536) as u16;
        push_be16(&mut param, 2 + 2 + signature_len);
        push_be16(&mut param, 0);
        push_bytes(&mut param, response);
        assert(param@ =~= response_param(response@));
        bytes_from_vec(frame_control_message(AUTH_RESPONSE, param.as_slice()))
    }
}

/// A challenge payload of at least 36 bytes that holds its declared
/// parameter length is accepted as soon as one of its 32 challenge bytes is
/// not zero, whatever the others are: the challenge is exactly bytes 4 to
/// 36.
pub proof fn lemma_challenge_with_a_nonzero_byte_is_accepted(p: Seq<u8>, k: int)
    requires
        p.len() >= 36,
        p.len() >= p[0] as int * 256 + p[1] as int,
        4 <= k < 36,
        p[k] != 0,
    ensures
        !challenge_refused(p),
        challenge_of(p) == p.subrange(4, 36),
        challenge_of(p).len() == 32,
{
}

/// A challenge payload of at least 36 bytes that holds its declared
/// parameter length is refused as corrupted when all 32 challenge bytes are
/// zero.
pub proof fn lemma_all_zero_challenge_is_refused(p: Seq<u8>)
    requires
        p.len() >= 36,
        p.len() >= p[0] as int * 256 + p[1] as int,
        forall|i: int| 4 <= i < 36 ==> p[i] == 0,
    ensures
        challenge_refused(p),
        refusal_text(p) == "Challenge is all zeros - corrupted data"@,
{
}

} // verus!
