use nbdmount::block_count_for;
use nbdmount::device::{MemBackedDevice, ENOSPC};

#[test]
fn block_count_is_ceiling_division() {
    assert_eq!(block_count_for(0, 4), 0);
    assert_eq!(block_count_for(1, 4), 1);
    assert_eq!(block_count_for(8, 4), 2);
    assert_eq!(block_count_for(9, 4), 3);
    assert_eq!(block_count_for(10, 4), 3);
    assert_eq!(block_count_for(12, 4), 3);
    assert_eq!(block_count_for(7, 1), 7);
    assert_eq!(block_count_for(u64::MAX, 1), u64::MAX);
}

#[test]
fn device_geometry() {
    let dev = MemBackedDevice::new(4, vec![0u8; 10]);
    assert_eq!(dev.block_size(), 4);
    assert_eq!(dev.block_count(), 3);
    assert_eq!(dev.len(), 10);
}

#[test]
fn read_inside_backing() {
    let data: Vec<u8> = (1u8..=10).collect();
    let mut dev = MemBackedDevice::new(4, data);
    let mut buf = vec![0xee_u8; 4];
    dev.read(2, &mut buf).unwrap();
    assert_eq!(buf, vec![3, 4, 5, 6]);
}

#[test]
fn read_past_end_zero_fills_tail() {
    let data: Vec<u8> = (1u8..=10).collect();
    let mut dev = MemBackedDevice::new(4, data);
    let mut buf = vec![0xee_u8; 8];
    dev.read(6, &mut buf).unwrap();
    assert_eq!(buf, vec![7, 8, 9, 10, 0, 0, 0, 0]);
}

#[test]
fn read_entirely_past_end_is_all_zero() {
    let mut dev = MemBackedDevice::new(4, vec![5u8; 10]);
    let mut buf = vec![0xee_u8; 4];
    dev.read(100, &mut buf).unwrap();
    assert_eq!(buf, vec![0, 0, 0, 0]);
}

#[test]
fn sequential_reads_do_not_seek() {
    let mut dev = MemBackedDevice::new(4, (0u8..=99).collect());
    let mut buf = vec![0u8; 10];
    dev.read(0, &mut buf).unwrap();
    assert_eq!(dev.seek_count(), 0);
    dev.read(10, &mut buf).unwrap();
    assert_eq!(dev.seek_count(), 0);
    dev.read(20, &mut buf).unwrap();
    assert_eq!(dev.seek_count(), 0);
}

#[test]
fn mismatched_offset_seeks_exactly_once() {
    let mut dev = MemBackedDevice::new(4, (0u8..=99).collect());
    let mut buf = vec![0u8; 10];
    dev.read(50, &mut buf).unwrap();
    assert_eq!(dev.seek_count(), 1);
    dev.read(60, &mut buf).unwrap();
    assert_eq!(dev.seek_count(), 1);
    dev.read(0, &mut buf).unwrap();
    assert_eq!(dev.seek_count(), 2);
}

#[test]
fn short_backing_read_does_not_advance_past_end() {
    // The cursor stops at the backing's end, so reading the zero-filled
    // region again still seeks: the tail came from zero-fill, not the store.
    let mut dev = MemBackedDevice::new(4, vec![1u8; 6]);
    let mut buf = vec![0u8; 8];
    dev.read(0, &mut buf).unwrap();
    assert_eq!(buf, vec![1, 1, 1, 1, 1, 1, 0, 0]);
    assert_eq!(dev.seek_count(), 0);
    dev.read(6, &mut buf).unwrap();
    assert_eq!(dev.seek_count(), 0);
}

#[test]
fn write_then_read_back() {
    let mut dev = MemBackedDevice::new(4, vec![0u8; 10]);
    dev.write(3, &[7, 8, 9], false).unwrap();
    let mut buf = vec![0u8; 10];
    dev.read(0, &mut buf).unwrap();
    assert_eq!(buf, vec![0, 0, 0, 7, 8, 9, 0, 0, 0, 0]);
    assert_eq!(dev.len(), 10);
}

#[test]
fn write_past_end_grows_with_zero_gap() {
    let mut dev = MemBackedDevice::new(4, vec![1u8; 2]);
    dev.write(5, &[9, 9], true).unwrap();
    assert_eq!(dev.len(), 7);
    let mut buf = vec![0xee_u8; 7];
    dev.read(0, &mut buf).unwrap();
    assert_eq!(buf, vec![1, 1, 0, 0, 0, 9, 9]);
}

#[test]
fn write_out_of_range_fails_untouched() {
    let mut dev = MemBackedDevice::new(4, vec![1u8; 4]);
    let err = dev.write(u64::MAX, &[1], false).unwrap_err();
    assert_eq!(err, ENOSPC);
    assert_eq!(dev.len(), 4);
    let mut buf = vec![0u8; 4];
    dev.read(0, &mut buf).unwrap();
    assert_eq!(buf, vec![1, 1, 1, 1]);
}

#[test]
fn trim_zeroes_the_covered_range() {
    let mut dev = MemBackedDevice::new(4, (1u8..=8).collect());
    dev.trim(2, 3, false).unwrap();
    let mut buf = vec![0u8; 8];
    dev.read(0, &mut buf).unwrap();
    assert_eq!(buf, vec![1, 2, 0, 0, 0, 6, 7, 8]);
    assert_eq!(dev.len(), 8);
}

#[test]
fn trim_past_end_is_clipped() {
    let mut dev = MemBackedDevice::new(4, (1u8..=4).collect());
    dev.trim(3, 100, false).unwrap();
    let mut buf = vec![0u8; 4];
    dev.read(0, &mut buf).unwrap();
    assert_eq!(buf, vec![1, 2, 3, 0]);
    assert_eq!(dev.len(), 4);
}

#[test]
fn trim_with_no_hole_changes_nothing() {
    let mut dev = MemBackedDevice::new(4, (1u8..=8).collect());
    dev.trim(2, 3, true).unwrap();
    let mut buf = vec![0u8; 8];
    dev.read(0, &mut buf).unwrap();
    assert_eq!(buf, vec![1, 2, 3, 4, 5, 6, 7, 8]);
}

#[test]
fn flush_succeeds_and_changes_nothing() {
    let mut dev = MemBackedDevice::new(4, vec![3u8; 5]);
    dev.flush().unwrap();
    assert_eq!(dev.len(), 5);
    assert_eq!(dev.seek_count(), 0);
}
