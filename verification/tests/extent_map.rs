// Exercises the byte-range-to-extent mapping and the bulk-copy helpers.

use downstairs::extent::{block_address, extent_from_offset, extents_needed, pad_to_block};
use downstairs::protocol::RegionDefinition;

/*
 * Beware, if you change these defaults, then you will have to change
 * all the hard coded tests below that use make_def().
 */
fn make_def() -> RegionDefinition {
    RegionDefinition {
        uuid: 0,
        block_size: 512,
        extent_size: 100,
        extent_count: 10,
    }
}

#[test]
fn off_to_extent_basic() {
    /*
     * Verify the offsets match the expected block_offset for the
     * default size region.
     */
    let up = make_def();

    let exv = vec![(0, 0, 512)];
    assert_eq!(extent_from_offset(&up, 0, 512).unwrap(), exv);
    let exv = vec![(0, 1, 512)];
    assert_eq!(extent_from_offset(&up, 512, 512).unwrap(), exv);
    let exv = vec![(0, 2, 512)];
    assert_eq!(extent_from_offset(&up, 1024, 512).unwrap(), exv);
    let exv = vec![(0, 3, 512)];
    assert_eq!(extent_from_offset(&up, 1024 + 512, 512).unwrap(), exv);
    let exv = vec![(0, 99, 512)];
    assert_eq!(extent_from_offset(&up, 51200 - 512, 512).unwrap(), exv);

    let exv = vec![(1, 0, 512)];
    assert_eq!(extent_from_offset(&up, 51200, 512).unwrap(), exv);
    let exv = vec![(1, 1, 512)];
    assert_eq!(extent_from_offset(&up, 51200 + 512, 512).unwrap(), exv);
    let exv = vec![(1, 2, 512)];
    assert_eq!(extent_from_offset(&up, 51200 + 1024, 512).unwrap(), exv);
    let exv = vec![(1, 99, 512)];
    assert_eq!(extent_from_offset(&up, 102400 - 512, 512).unwrap(), exv);

    let exv = vec![(2, 0, 512)];
    assert_eq!(extent_from_offset(&up, 102400, 512).unwrap(), exv);

    let exv = vec![(9, 99, 512)];
    assert_eq!(
        extent_from_offset(&up, (512 * 100 * 10) - 512, 512).unwrap(),
        exv
    );
}

#[test]
fn off_to_extent_buffer() {
    /*
     * Testing a buffer size larger than the default 512
     */
    let up = make_def();

    let exv = vec![(0, 0, 1024)];
    assert_eq!(extent_from_offset(&up, 0, 1024).unwrap(), exv);
    let exv = vec![(0, 1, 1024)];
    assert_eq!(extent_from_offset(&up, 512, 1024).unwrap(), exv);
    let exv = vec![(0, 2, 1024)];
    assert_eq!(extent_from_offset(&up, 1024, 1024).unwrap(), exv);
    let exv = vec![(0, 98, 1024)];
    assert_eq!(extent_from_offset(&up, 51200 - 1024, 1024).unwrap(), exv);

    let exv = vec![(1, 0, 1024)];
    assert_eq!(extent_from_offset(&up, 51200, 1024).unwrap(), exv);
    let exv = vec![(1, 1, 1024)];
    assert_eq!(extent_from_offset(&up, 51200 + 512, 1024).unwrap(), exv);
    let exv = vec![(1, 2, 1024)];
    assert_eq!(extent_from_offset(&up, 51200 + 1024, 1024).unwrap(), exv);
    let exv = vec![(1, 98, 1024)];
    assert_eq!(extent_from_offset(&up, 102400 - 1024, 1024).unwrap(), exv);

    let exv = vec![(2, 0, 1024)];
    assert_eq!(extent_from_offset(&up, 102400, 1024).unwrap(), exv);

    let exv = vec![(9, 98, 1024)];
    assert_eq!(
        extent_from_offset(&up, (512 * 100 * 10) - 1024, 1024).unwrap(),
        exv
    );
}

#[test]
fn off_to_extent_vbuff() {
    let up = make_def();

    /*
     * Walk the buffer sizes from 512 to the whole extent, make sure
     * it all works as expected
     */
    for bsize in (512..=51200).step_by(512) {
        let exv = vec![(0, 0, bsize)];
        assert_eq!(extent_from_offset(&up, 0, bsize).unwrap(), exv);
    }
}

#[test]
fn off_to_extent_bridge() {
    /*
     * Testing when our buffer crosses extents.
     */
    let up = make_def();
    /*
     * 1024 buffer
     */
    let exv = vec![(0, 99, 512), (1, 0, 512)];
    assert_eq!(extent_from_offset(&up, 51200 - 512, 1024).unwrap(), exv);
    let exv = vec![(0, 98, 1024), (1, 0, 1024)];
    assert_eq!(extent_from_offset(&up, 51200 - 1024, 2048).unwrap(), exv);

    /*
     * Largest buffer
     */
    let exv = vec![(0, 1, 51200 - 512), (1, 0, 512)];
    assert_eq!(extent_from_offset(&up, 512, 51200).unwrap(), exv);
    let exv = vec![(0, 2, 51200 - 1024), (1, 0, 1024)];
    assert_eq!(extent_from_offset(&up, 1024, 51200).unwrap(), exv);
    let exv = vec![(0, 4, 51200 - 2048), (1, 0, 2048)];
    assert_eq!(extent_from_offset(&up, 2048, 51200).unwrap(), exv);

    /*
     * Largest buffer, last block offset possible
     */
    let exv = vec![(0, 99, 512), (1, 0, 51200 - 512)];
    assert_eq!(extent_from_offset(&up, 51200 - 512, 51200).unwrap(), exv);
}

/*
 * Testing various invalid inputs
 */
#[test]
#[should_panic]
fn off_to_extent_length_zero() {
    let up = make_def();
    extent_from_offset(&up, 0, 0).unwrap();
}

#[test]
#[should_panic]
fn off_to_extent_block_align() {
    let up = make_def();
    extent_from_offset(&up, 0, 511).unwrap();
}

#[test]
#[should_panic]
fn off_to_extent_block_align2() {
    let up = make_def();
    extent_from_offset(&up, 0, 513).unwrap();
}

#[test]
#[should_panic]
fn off_to_extent_length_big() {
    let up = make_def();
    extent_from_offset(&up, 0, 51200 + 512).unwrap();
}

#[test]
#[should_panic]
fn off_to_extent_offset_align() {
    let up = make_def();
    extent_from_offset(&up, 511, 512).unwrap();
}

#[test]
#[should_panic]
fn off_to_extent_offset_align2() {
    let up = make_def();
    extent_from_offset(&up, 513, 512).unwrap();
}

#[test]
#[should_panic]
fn off_to_extent_offset_big() {
    let up = make_def();
    extent_from_offset(&up, 512000, 512).unwrap();
}

#[test]
fn off_to_extent_error_kind() {
    let up = make_def();
    assert_eq!(
        extent_from_offset(&up, 0, 0).unwrap_err(),
        downstairs::protocol::CrucibleError::GenericError
    );
}

#[test]
fn extents_needed_exact_and_rounded() {
    // 10 blocks of 512 bytes per extent.
    assert_eq!(extents_needed(0, 5120), 0);
    assert_eq!(extents_needed(5120, 5120), 1);
    assert_eq!(extents_needed(5121, 5120), 2);
    assert_eq!(extents_needed(10240, 5120), 2);
    assert_eq!(extents_needed(1, 5120), 1);
}

#[test]
fn pad_to_block_boundaries() {
    assert_eq!(pad_to_block(0, 512), 0);
    assert_eq!(pad_to_block(1, 512), 512);
    assert_eq!(pad_to_block(511, 512), 512);
    assert_eq!(pad_to_block(512, 512), 512);
    assert_eq!(pad_to_block(513, 512), 1024);
}

#[test]
fn block_address_maps_extents() {
    let up = make_def();
    assert_eq!(block_address(&up, 0), (0, 0));
    assert_eq!(block_address(&up, 99), (0, 99));
    assert_eq!(block_address(&up, 100), (1, 0));
    assert_eq!(block_address(&up, 999), (9, 99));
}
