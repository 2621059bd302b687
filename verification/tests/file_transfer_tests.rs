use iap2_rs::session::file_transfer::{FileTransferHandler, FileTransferOutcome};
use iap2_rs::session::jpeg::{sanitize_artwork, validate_jpeg_structure};
use iap2_rs::types::FileTransferConfig;
use iap2_rs::Iap2Error;

const IMAGE: [u8; 19] = [
    0xFF, 0xD8, 0xFF, 0xE0, 0x00, 0x04, 0xAA, 0xBB, 0xFF, 0xDA, 0x00, 0x02, 0x12, 0x34, 0xFF,
    0x00, 0x56, 0xFF, 0xD9,
];

fn setup(id: u8, size: u64, file_type: u16) -> Vec<u8> {
    let mut d = vec![id, 0x04];
    d.extend_from_slice(&size.to_be_bytes());
    d.extend_from_slice(&file_type.to_be_bytes());
    d
}

fn datagram(id: u8, command: u8, data: &[u8]) -> Vec<u8> {
    let mut d = vec![id, command];
    d.extend_from_slice(data);
    d
}

fn handler() -> FileTransferHandler {
    FileTransferHandler::new(FileTransferConfig::default())
}

#[test]
fn jpeg_structure_is_walked_to_the_end_marker() {
    assert_eq!(validate_jpeg_structure(&IMAGE), Ok(19));
    assert_eq!(validate_jpeg_structure(&[0xFF, 0xD8, 0xFF, 0xD9]), Ok(4));
    assert!(validate_jpeg_structure(&[0xFF, 0xD8, 0xFF]).is_err());
    assert!(validate_jpeg_structure(&[0x00, 0xD8, 0xFF, 0xD9]).is_err());
    assert!(validate_jpeg_structure(&IMAGE[..17]).is_err());
}

#[test]
fn artwork_is_trimmed_after_its_end_marker() {
    let mut data = IMAGE.to_vec();
    data.extend_from_slice(&[0x00, 0x00]);
    assert!(sanitize_artwork(&mut data, 21).is_ok());
    assert_eq!(data, IMAGE.to_vec());
}

#[test]
fn artwork_followed_by_another_image_is_refused() {
    let mut data = IMAGE.to_vec();
    data.extend_from_slice(&[0xFF, 0xD8, 0x00]);
    let before = data.clone();
    assert!(sanitize_artwork(&mut data, 0).is_err());
    assert_eq!(data, before);
}

#[test]
fn empty_artwork_is_kept_only_when_none_was_announced() {
    let mut empty: Vec<u8> = vec![];
    assert!(sanitize_artwork(&mut empty, 0).is_ok());
    assert!(sanitize_artwork(&mut empty, 5).is_err());
}

#[test]
fn transfer_in_two_parts_completes_with_the_image() {
    let mut h = handler();
    let (o, reply) = h.handle_datagram(&setup(0x07, 21, 0x0002), 0).unwrap();
    assert!(matches!(o, FileTransferOutcome::Pending));
    assert_eq!(reply, Some(vec![0x07, 0x01]));
    assert_eq!(h.active_count(), 1);
    assert_eq!(h.generation(), 1);
    let mut data = IMAGE.to_vec();
    data.extend_from_slice(&[0x00, 0x00]);
    let (o, reply) = h.handle_datagram(&datagram(0x07, 0x80, &data[..10]), 5).unwrap();
    assert!(matches!(o, FileTransferOutcome::Pending));
    assert_eq!(reply, None);
    let (o, reply) = h.handle_datagram(&datagram(0x07, 0x40, &data[10..]), 9).unwrap();
    match o {
        FileTransferOutcome::Completed { transfer_id, file_type, data } => {
            assert_eq!(transfer_id, 0x07);
            assert_eq!(file_type, 0x0002);
            assert_eq!(data.as_ref(), &IMAGE);
        }
        other => panic!("unexpected {:?}", other),
    }
    assert_eq!(reply, Some(vec![0x07, 0x05]));
    assert_eq!(h.active_count(), 0);
}

#[test]
fn transfer_in_one_datagram() {
    let mut h = handler();
    h.handle_datagram(&setup(0x02, 0, 0x0002), 0).unwrap();
    let (o, reply) = h.handle_datagram(&datagram(0x02, 0xC0, &IMAGE), 1).unwrap();
    assert!(matches!(o, FileTransferOutcome::Completed { transfer_id: 0x02, .. }));
    assert_eq!(reply, Some(vec![0x02, 0x05]));
}

#[test]
fn transfer_in_three_parts() {
    let mut h = handler();
    h.handle_datagram(&setup(0x03, 19, 0x0002), 0).unwrap();
    h.handle_datagram(&datagram(0x03, 0x80, &IMAGE[..5]), 1).unwrap();
    let (o, _) = h.handle_datagram(&datagram(0x03, 0x00, &IMAGE[5..12]), 2).unwrap();
    assert!(matches!(o, FileTransferOutcome::Pending));
    let (o, reply) = h.handle_datagram(&datagram(0x03, 0x40, &IMAGE[12..]), 3).unwrap();
    assert!(matches!(o, FileTransferOutcome::Completed { .. }));
    assert_eq!(reply, Some(vec![0x03, 0x05]));
}

#[test]
fn size_mismatch_corrupts_the_transfer() {
    let mut h = handler();
    h.handle_datagram(&setup(0x07, 30, 0x0002), 0).unwrap();
    h.handle_datagram(&datagram(0x07, 0x80, &IMAGE[..10]), 1).unwrap();
    let (o, reply) = h.handle_datagram(&datagram(0x07, 0x40, &IMAGE[10..]), 2).unwrap();
    assert!(matches!(o, FileTransferOutcome::Corrupted { transfer_id: 0x07, .. }));
    assert_eq!(reply, Some(vec![0x07, 0x06]));
    assert_eq!(h.active_count(), 0);
}

#[test]
fn data_beyond_the_announced_size_corrupts_the_transfer() {
    let mut h = handler();
    h.handle_datagram(&setup(0x01, 4, 0x0002), 0).unwrap();
    let (o, reply) = h.handle_datagram(&datagram(0x01, 0x80, &IMAGE[..5]), 1).unwrap();
    assert!(matches!(o, FileTransferOutcome::Corrupted { transfer_id: 0x01, .. }));
    assert_eq!(reply, Some(vec![0x01, 0x06]));
}

#[test]
fn data_out_of_order_corrupts_the_transfer() {
    let mut h = handler();
    h.handle_datagram(&setup(0x04, 0, 0x0002), 0).unwrap();
    let (o, _) = h.handle_datagram(&datagram(0x04, 0x00, &[1, 2]), 1).unwrap();
    assert!(matches!(o, FileTransferOutcome::Corrupted { transfer_id: 0x04, .. }));
    let (o, reply) = h.handle_datagram(&datagram(0x04, 0x40, &[1]), 2).unwrap();
    assert!(matches!(o, FileTransferOutcome::Pending));
    assert_eq!(reply, None);
}

#[test]
fn broken_image_corrupts_the_transfer() {
    let mut h = handler();
    h.handle_datagram(&setup(0x05, 0, 0x0002), 0).unwrap();
    let (o, reply) = h.handle_datagram(&datagram(0x05, 0xC0, &[0x00, 0x01, 0x02, 0x03]), 1).unwrap();
    assert!(matches!(o, FileTransferOutcome::Corrupted { transfer_id: 0x05, .. }));
    assert_eq!(reply, Some(vec![0x05, 0x06]));
}

#[test]
fn short_setup_is_a_protocol_error() {
    let mut h = handler();
    let r = h.handle_datagram(&[0x01, 0x04, 0x00], 0);
    assert!(matches!(r, Err(Iap2Error::Protocol(_))));
    assert_eq!(h.active_count(), 0);
}

#[test]
fn unknown_transfers_and_short_datagrams_are_ignored() {
    let mut h = handler();
    let (o, reply) = h.handle_datagram(&datagram(0x09, 0x80, &[1, 2]), 0).unwrap();
    assert!(matches!(o, FileTransferOutcome::Pending));
    assert_eq!(reply, None);
    let (o, reply) = h.handle_datagram(&[0x09], 0).unwrap();
    assert!(matches!(o, FileTransferOutcome::Pending));
    assert_eq!(reply, None);
}

#[test]
fn cancel_ends_the_transfer() {
    let mut h = handler();
    h.handle_datagram(&setup(0x06, 0, 0x0002), 0).unwrap();
    let (o, reply) = h.handle_datagram(&datagram(0x06, 0x02, &[]), 1).unwrap();
    assert!(matches!(o, FileTransferOutcome::Pending));
    assert_eq!(reply, None);
    assert_eq!(h.active_count(), 0);
}

#[test]
fn new_setup_replaces_a_transfer_with_the_same_id() {
    let mut h = handler();
    h.handle_datagram(&setup(0x06, 0, 0x0002), 0).unwrap();
    h.handle_datagram(&datagram(0x06, 0x80, &[1, 2]), 1).unwrap();
    h.handle_datagram(&setup(0x06, 0, 0x0002), 2).unwrap();
    assert_eq!(h.active_count(), 1);
    assert_eq!(h.generation(), 2);
    let (o, _) = h.handle_datagram(&datagram(0x06, 0xC0, &IMAGE), 3).unwrap();
    match o {
        FileTransferOutcome::Completed { data, .. } => assert_eq!(data.as_ref(), &IMAGE),
        other => panic!("unexpected {:?}", other),
    }
}

#[test]
fn stale_transfers_time_out() {
    let mut h = handler();
    h.handle_datagram(&setup(0x02, 0, 0x0002), 0).unwrap();
    h.handle_datagram(&setup(0x01, 0, 0x0002), 10_000).unwrap();
    assert!(h.cleanup_stale(29_999).is_empty());
    assert_eq!(h.cleanup_stale(30_000), vec![0x02]);
    assert_eq!(h.active_count(), 1);
    assert_eq!(h.cleanup_stale(40_000), vec![0x01]);
    assert_eq!(h.active_count(), 0);
}

#[test]
fn datagram_fits_counts() {
    let h = handler();
    assert!(h.datagram_fits(&setup(0x01, 0, 0x0002)));
    assert!(h.datagram_fits(&[0x01]));
}

fn reason_of(o: FileTransferOutcome) -> String {
    match o {
        FileTransferOutcome::Corrupted { reason, .. } => reason,
        other => panic!("unexpected {:?}", other),
    }
}

#[test]
fn corrupted_transfers_give_their_reason() {
    let mut h = handler();
    h.handle_datagram(&setup(0x07, 30, 0x0002), 0).unwrap();
    h.handle_datagram(&datagram(0x07, 0x80, &IMAGE[..10]), 1).unwrap();
    let (o, _) = h.handle_datagram(&datagram(0x07, 0x40, &IMAGE[10..]), 2).unwrap();
    assert_eq!(reason_of(o), "Size mismatch: received 19 bytes, expected 30");

    h.handle_datagram(&setup(0x01, 4, 0x0002), 3).unwrap();
    let (o, _) = h.handle_datagram(&datagram(0x01, 0x80, &IMAGE[..5]), 4).unwrap();
    assert_eq!(reason_of(o), "Transfer exceeded declared size: 5 > 4");

    h.handle_datagram(&setup(0x04, 0, 0x0002), 5).unwrap();
    let (o, _) = h.handle_datagram(&datagram(0x04, 0x00, &[1, 2]), 6).unwrap();
    assert_eq!(reason_of(o), "Invalid state for Data: Setup");

    h.handle_datagram(&setup(0x04, 0, 0x0002), 7).unwrap();
    let (o, _) = h.handle_datagram(&datagram(0x04, 0x40, &[1, 2]), 8).unwrap();
    assert_eq!(reason_of(o), "Invalid state for LastData: Setup");

    h.handle_datagram(&setup(0x04, 0, 0x0002), 9).unwrap();
    h.handle_datagram(&datagram(0x04, 0x80, &[1]), 10).unwrap();
    let (o, _) = h.handle_datagram(&datagram(0x04, 0x80, &[2]), 11).unwrap();
    assert_eq!(reason_of(o), "Invalid state for FirstData: Receiving");

    h.handle_datagram(&setup(0x05, 0, 0x0002), 12).unwrap();
    let (o, _) = h.handle_datagram(&datagram(0x05, 0xC0, &[0x00, 0x01, 0x02, 0x03]), 13).unwrap();
    assert_eq!(reason_of(o), "missing JPEG SOI marker");

    let mut twice = IMAGE.to_vec();
    twice.extend_from_slice(&[0xFF, 0xD8, 0x00]);
    h.handle_datagram(&setup(0x06, 0, 0x0002), 14).unwrap();
    let (o, _) = h.handle_datagram(&datagram(0x06, 0xC0, &twice), 15).unwrap();
    assert_eq!(
        reason_of(o),
        "corrupted: found additional JPEG SOI marker 0 bytes after EOI (total trailing: 3)"
    );
}

#[test]
fn jpeg_errors_name_what_is_broken() {
    assert_eq!(validate_jpeg_structure(&[0xFF, 0xD8, 0xFF]), Err("JPEG data too short".to_string()));
    assert_eq!(
        validate_jpeg_structure(&[0xFF, 0xD8, 0xFF, 0xDA, 0x00, 0x01]),
        Err("invalid SOS length: 1".to_string())
    );
    assert_eq!(
        validate_jpeg_structure(&[0xFF, 0xD8, 0xFF, 0xE0, 0x00, 0x09, 0x00]),
        Err("truncated segment for marker 0xE0: need 9 bytes, have 3".to_string())
    );
    assert_eq!(
        validate_jpeg_structure(&[0xFF, 0xD8, 0xFF, 0xE0, 0x00, 0x01, 0x00]),
        Err("invalid segment length 1 for marker 0xE0".to_string())
    );
    assert_eq!(
        validate_jpeg_structure(&[0xFF, 0xD8, 0xFF, 0xFF]),
        Err("truncated JPEG marker".to_string())
    );
    assert_eq!(
        validate_jpeg_structure(&[0xFF, 0xD8, 0x00, 0x00]),
        Err("missing JPEG EOI marker".to_string())
    );
    assert_eq!(
        validate_jpeg_structure(&IMAGE[..17]),
        Err("missing EOI after scan data".to_string())
    );
}

#[test]
fn cleanup_needs_room_in_the_generation_counter() {
    let mut h = handler();
    h.handle_datagram(&setup(0x02, 0, 0x0002), 0).unwrap();
    assert!(h.cleanup_fits(30_000));
    assert_eq!(h.cleanup_stale(30_000), vec![0x02]);
    assert!(h.cleanup_stale(30_000).is_empty());
}
