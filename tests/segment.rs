use slot_upload::{decimal, parse_offset, SlotImage};

#[test]
fn new_slot_is_empty() {
    let slot = SlotImage::new();
    assert_eq!(slot.size(), 0);
    assert!(slot.contents().is_empty());
}

#[test]
fn write_extends_to_high_water_mark() {
    let mut slot = SlotImage::new();
    slot.write_at(3, &[1, 2]);
    assert_eq!(slot.size(), 5);
    assert_eq!(slot.contents(), &[0, 0, 0, 1, 2]);
    slot.write_at(1, &[9]);
    assert_eq!(slot.size(), 5);
    assert_eq!(slot.contents(), &[0, 9, 0, 1, 2]);
    slot.write_at(10, &[]);
    assert_eq!(slot.size(), 10);
    slot.write_at(4, &[7, 7, 7, 7, 7, 7, 7, 7]);
    assert_eq!(slot.size(), 12);
}

#[test]
fn write_from_start_overwrites_prefix() {
    let mut slot = SlotImage::new();
    slot.write_at(0, &[5, 5, 5, 5, 5, 5]);
    slot.write_at(0, &[1, 2, 3]);
    assert_eq!(slot.contents(), &[1, 2, 3, 5, 5, 5]);
    slot.write_at(0, &[4, 4, 4, 4, 4, 4, 4, 4]);
    assert_eq!(slot.contents(), &[4, 4, 4, 4, 4, 4, 4, 4]);
}

#[test]
fn disjoint_writes_do_not_interfere() {
    let mut first = SlotImage::new();
    first.write_at(0, &[8; 10]);
    let mut second = SlotImage::new();
    second.write_at(0, &[8; 10]);

    first.write_at(1, &[1, 1, 1]);
    first.write_at(5, &[2, 2]);
    second.write_at(5, &[2, 2]);
    second.write_at(1, &[1, 1, 1]);

    assert_eq!(first.contents(), second.contents());
    assert_eq!(first.contents(), &[8, 1, 1, 1, 8, 2, 2, 8, 8, 8]);
}

#[test]
fn three_writers_fill_a_hundred_million_bytes() {
    let total: usize = 100_000_000;
    let half: usize = 50_000_000;
    let payload = vec![0x10u8; total];
    let mut slot = SlotImage::new();

    slot.write_at(0, &payload[..half]);
    let reported = decimal(slot.size() as u64);
    let resume = parse_offset(&reported).unwrap() as usize;
    assert_eq!(resume, half);
    slot.write_at(resume, &payload[resume..]);
    slot.write_at(half, &payload[half..]);

    assert_eq!(slot.size(), total);
    assert!(slot.contents().iter().all(|b| *b == 0x10));
}
