use std::sync::Arc;

use iap2_rs::auth::Iap2Auth;
use iap2_rs::mfi::{MfiAuthProvider, MockMfiProvider};
use iap2_rs::{Iap2Error, Result};

struct BrokenChip;

impl MfiAuthProvider for BrokenChip {
    fn read_certificate(&self) -> Result<Vec<u8>> {
        Err(Iap2Error::Mfi("no certificate".to_string()))
    }

    fn challenge_response(&self, _challenge: &[u8]) -> Result<Vec<u8>> {
        Err(Iap2Error::Mfi("chip".to_string()))
    }
}

fn challenge_payload() -> Vec<u8> {
    let mut p = vec![0x00, 0x24, 0x00, 0x00];
    p.extend((1..=32).map(|i| i as u8));
    p
}

fn reason(e: Iap2Error) -> String {
    match e {
        Iap2Error::AuthenticationFailed(r) => r,
        other => panic!("expected an authentication error, got {:?}", other),
    }
}

#[test]
fn mock_provider_hands_out_its_data() {
    let p = MockMfiProvider::new(vec![1, 2], vec![3]);
    assert_eq!(p.read_certificate().unwrap(), vec![1, 2]);
    assert_eq!(p.challenge_response(&[9; 32]).unwrap(), vec![3]);
    let e = MockMfiProvider::empty();
    assert!(e.read_certificate().unwrap().is_empty());
    assert!(e.challenge_response(&[]).unwrap().is_empty());
}

#[test]
fn certificate_message_needs_a_certificate() {
    let auth = Iap2Auth::new(MockMfiProvider::new(vec![1, 2, 3], vec![]));
    assert_eq!(reason(auth.certificate_message().unwrap_err()), "Certificate not loaded");
}

#[test]
fn certificate_message_carries_certificate_and_trailer() {
    let mut auth = Iap2Auth::new(MockMfiProvider::new(vec![1, 2, 3], vec![]));
    assert!(auth.handle_certificate_request().is_ok());
    assert!(auth.certificate_message_fits());
    let msg = auth.certificate_message().unwrap();
    assert_eq!(
        msg.as_ref(),
        &[
            0x40, 0x40, 0x00, 0x11, 0xAA, 0x01, 0x00, 0x07, 0x00, 0x00, 0x01, 0x02, 0x03, 0xA1,
            0x00, 0x31, 0x00
        ]
    );
}

#[test]
fn shared_provider_is_used_through_the_share() {
    let mut auth = Iap2Auth::new(Arc::new(MockMfiProvider::new(vec![7], vec![8])));
    auth.handle_certificate_request().unwrap();
    let msg = auth.certificate_message().unwrap();
    assert_eq!(&msg[10..11], &[7]);
    assert_eq!(auth.handle_challenge_request(&challenge_payload()).unwrap(), vec![8]);
}

#[test]
fn certificate_error_of_the_chip_is_passed_on() {
    let mut auth = Iap2Auth::new(BrokenChip);
    match auth.handle_certificate_request() {
        Err(Iap2Error::Mfi(m)) => assert_eq!(m, "no certificate"),
        other => panic!("unexpected {:?}", other),
    }
    assert!(auth.certificate_message().is_err());
}

#[test]
fn challenge_is_the_32_bytes_after_the_header() {
    let p = challenge_payload();
    let c = Iap2Auth::<MockMfiProvider>::challenge_from_payload(&p).unwrap();
    assert_eq!(c, &p[4..36]);
}

#[test]
fn challenge_payload_refusals() {
    type A = Iap2Auth<MockMfiProvider>;
    assert_eq!(reason(A::challenge_from_payload(&[0x00, 0x24, 0x00]).unwrap_err()), "Challenge payload too short");
    let mut short = challenge_payload();
    short.truncate(20);
    assert_eq!(
        reason(A::challenge_from_payload(&short).unwrap_err()),
        "Challenge payload incomplete: expected 36, got 20"
    );
    let mut small_len = challenge_payload();
    small_len[1] = 0x04;
    small_len.truncate(30);
    assert_eq!(
        reason(A::challenge_from_payload(&small_len).unwrap_err()),
        "Payload too short for 32-byte challenge: got 30"
    );
    let mut zeros = vec![0x00, 0x24, 0x00, 0x00];
    zeros.extend([0u8; 32]);
    assert_eq!(
        reason(A::challenge_from_payload(&zeros).unwrap_err()),
        "Challenge is all zeros - corrupted data"
    );
}

#[test]
fn challenge_is_answered_by_the_chip() {
    let mut auth = Iap2Auth::new(MockMfiProvider::new(vec![], vec![9, 9]));
    let response = auth.handle_challenge_request(&challenge_payload()).unwrap();
    assert_eq!(response, vec![9, 9]);
    assert!(Iap2Auth::<MockMfiProvider>::response_message_fits(response.len()));
    let msg = Iap2Auth::<MockMfiProvider>::response_message(&response);
    assert_eq!(
        msg.as_ref(),
        &[0x40, 0x40, 0x00, 0x0C, 0xAA, 0x03, 0x00, 0x06, 0x00, 0x00, 0x09, 0x09]
    );
}

#[test]
fn chip_failure_on_challenge_is_an_authentication_error() {
    let mut auth = Iap2Auth::new(BrokenChip);
    let r = auth.handle_challenge_request(&challenge_payload());
    assert_eq!(reason(r.unwrap_err()), "MFi challenge-response failed: MFi error: chip");
}

#[test]
fn oversized_messages_do_not_fit() {
    assert!(Iap2Auth::<MockMfiProvider>::response_message_fits(65525));
    assert!(!Iap2Auth::<MockMfiProvider>::response_message_fits(65526));
    let mut auth = Iap2Auth::new(MockMfiProvider::new(vec![0; 65522], vec![]));
    auth.handle_certificate_request().unwrap();
    assert!(!auth.certificate_message_fits());
    let mut auth = Iap2Auth::new(MockMfiProvider::new(vec![0; 65521], vec![]));
    auth.handle_certificate_request().unwrap();
    assert!(auth.certificate_message_fits());
}

#[test]
fn error_descriptions() {
    assert_eq!(Iap2Error::Timeout.to_string(), "Timeout");
    assert_eq!(Iap2Error::Protocol("x".to_string()).to_string(), "Protocol error: x");
    assert_eq!(Iap2Error::SessionNotFound(12).to_string(), "Session not found: 12");
    assert_eq!(Iap2Error::ChannelClosed.to_string(), "Channel closed");
}

struct RecordingChip {
    reads: std::sync::atomic::AtomicUsize,
    signed: std::sync::Mutex<Vec<u8>>,
}

impl MfiAuthProvider for RecordingChip {
    fn read_certificate(&self) -> Result<Vec<u8>> {
        self.reads.fetch_add(1, std::sync::atomic::Ordering::SeqCst);
        Ok(vec![0x30, 0x82])
    }

    fn challenge_response(&self, challenge: &[u8]) -> Result<Vec<u8>> {
        *self.signed.lock().unwrap() = challenge.to_vec();
        Ok(vec![0x55; 64])
    }
}

#[test]
fn certificate_is_read_once_and_challenge_bytes_are_signed() {
    let chip = Arc::new(RecordingChip {
        reads: std::sync::atomic::AtomicUsize::new(0),
        signed: std::sync::Mutex::new(Vec::new()),
    });
    let mut auth = Iap2Auth::new(chip.clone());
    auth.handle_certificate_request().unwrap();
    auth.handle_certificate_request().unwrap();
    assert_eq!(chip.reads.load(std::sync::atomic::Ordering::SeqCst), 1);
    assert_eq!(&auth.certificate_message().unwrap()[10..12], &[0x30, 0x82]);
    let payload = challenge_payload();
    let sig = auth.handle_challenge_request(&payload).unwrap();
    assert_eq!(sig, vec![0x55; 64]);
    assert_eq!(*chip.signed.lock().unwrap(), payload[4..36].to_vec());
}

#[test]
fn failed_certificate_read_is_asked_again() {
    let mut auth = Iap2Auth::new(BrokenChip);
    assert!(auth.handle_certificate_request().is_err());
    assert!(auth.handle_certificate_request().is_err());
    assert!(auth.certificate_message().is_err());
}
