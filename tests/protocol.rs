use slot_upload::{
    allocated_reply, decimal, error_reply, parse_offset, size_reply, size_target, upload_target,
    write_reply, Reply, UploadError,
};

const ID: &str = "00112233445566778899AABBCCDDEEFF";

#[test]
fn decimal_renders_sizes() {
    assert_eq!(decimal(0), "0");
    assert_eq!(decimal(7), "7");
    assert_eq!(decimal(10), "10");
    assert_eq!(decimal(100_000_000), "100000000");
    assert_eq!(decimal(u64::MAX), "18446744073709551615");
}

#[test]
fn reported_size_reads_back_as_offset() {
    for n in [0u64, 9, 10, 50_000_000, 1 << 40, u64::MAX] {
        assert_eq!(parse_offset(&decimal(n)), Ok(n));
    }
}

#[test]
fn allocated_reply_redirects_to_upload_path() {
    assert_eq!(allocated_reply(ID), Reply::Redirect(format!("/upload/{}", ID)));
}

#[test]
fn size_reply_is_decimal_text() {
    assert_eq!(size_reply(Ok(0)), Reply::Text("0".to_string()));
    assert_eq!(size_reply(Ok(100_000_000)), Reply::Text("100000000".to_string()));
    assert_eq!(size_reply(Err(UploadError::UnknownSlot)), Reply::NotFound);
}

#[test]
fn write_reply_acknowledges_with_no_body() {
    assert_eq!(write_reply(Ok(())), Reply::Empty);
    assert_eq!(write_reply(Err(UploadError::MalformedOffset)), Reply::BadRequest);
    assert_eq!(write_reply(Err(UploadError::Storage)), Reply::ServerError);
}

#[test]
fn error_reply_tells_errors_apart() {
    assert_eq!(error_reply(UploadError::MalformedOffset), Reply::BadRequest);
    assert_eq!(error_reply(UploadError::UnknownSlot), Reply::NotFound);
    assert_eq!(error_reply(UploadError::Storage), Reply::ServerError);
}

#[test]
fn upload_target_accepts_a_slot_and_its_offset() {
    assert_eq!(upload_target(ID, ""), Ok(0));
    assert_eq!(upload_target(ID, "position=50000000"), Ok(50_000_000));
}

#[test]
fn unknown_slot_differs_from_malformed_offset() {
    let unknown = upload_target("no-such-slot", "position=5");
    let malformed = upload_target(ID, "position=five");
    assert_eq!(unknown, Err(UploadError::UnknownSlot));
    assert_eq!(malformed, Err(UploadError::MalformedOffset));
    assert_ne!(unknown, malformed);
    assert_eq!(upload_target("no-such-slot", "position=five"), Err(UploadError::UnknownSlot));
    assert_eq!(size_target("no-such-slot"), Err(UploadError::UnknownSlot));
    assert_eq!(size_target(ID), Ok(()));
    assert_ne!(error_reply(UploadError::UnknownSlot), error_reply(UploadError::MalformedOffset));
}
