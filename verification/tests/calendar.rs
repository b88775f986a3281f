use hashchain::block::Block;
use hashchain::calendar::format_timestamp;

#[test]
fn the_epoch_itself() {
    assert_eq!(format_timestamp(0), Some(String::from("1970-01-01 00:00:00")));
}

#[test]
fn a_known_moment() {
    assert_eq!(format_timestamp(1_431_648_000), Some(String::from("2015-05-15 00:00:00")));
    assert_eq!(format_timestamp(1_700_000_000), Some(String::from("2023-11-14 22:13:20")));
}

#[test]
fn the_upper_half_of_the_range_is_before_the_epoch() {
    assert_eq!(format_timestamp(u64::MAX), Some(String::from("1969-12-31 23:59:59")));
}

#[test]
fn a_moment_beyond_the_calendar() {
    assert_eq!(format_timestamp(i64::MAX as u64), None);
    assert_eq!(format_timestamp(1 << 63), None);
}

#[test]
fn describe_names_index_data_and_moment() {
    let block = Block::with_timestamp(12, String::new(), String::from("Ann sent to Bob"), 1_700_000_000);
    assert_eq!(
        block.describe(),
        Some(String::from("Block 12: Ann sent to Bob at 2023-11-14 22:13:20"))
    );
}

#[test]
fn describe_without_a_date() {
    let block = Block::with_timestamp(1, String::new(), String::from("x"), 1 << 62);
    assert_eq!(block.describe(), None);
}

#[test]
fn describe_at_takes_the_moment_as_given() {
    let block = Block::with_timestamp(0, String::from("p"), String::from("Genesis block"), 3);
    assert_eq!(block.describe_at("noon"), "Block 0: Genesis block at noon");
    assert_eq!(block.describe_at(""), "Block 0: Genesis block at ");
}
