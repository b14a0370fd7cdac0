use fastdate::{offset_sec, DateTime};
use std::time::Duration;

#[test]
fn test_offset_sec() {
    let d = offset_sec();
}

#[test]
fn test_offset_time() {
    let z_time = DateTime::now().sub_duration(Duration::from_secs(offset_sec() as u64));
}
