use sound_shader::director::{
    asset_info_bytes, asset_pull_frames, batch_buffer_length, le_bytes_u32, FrameCursor,
};

#[test]
fn little_endian_encoding() {
    assert_eq!(le_bytes_u32(44100), vec![0x44, 0xac, 0x00, 0x00]);
    assert_eq!(le_bytes_u32(0), vec![0, 0, 0, 0]);
    assert_eq!(le_bytes_u32(u32::MAX), vec![0xff, 0xff, 0xff, 0xff]);
    assert_eq!(le_bytes_u32(0x01020304), vec![4, 3, 2, 1]);
}

#[test]
fn device_info_uniform_is_bit_exact() {
    let mut cursor = FrameCursor::new();
    let plan = cursor.begin_render(44100, 88200);
    assert_eq!(plan.base_frame, 0);
    assert_eq!(plan.device_info, vec![0x44, 0xac, 0x00, 0x00, 0x00, 0x00, 0x00, 0x00]);
    assert_eq!(plan.workgroups, 44100);
    assert_eq!(plan.output_bytes, 4 * 88200);

    let plan = cursor.begin_render(44100, 1024);
    assert_eq!(plan.base_frame, 44100);
    // (sample_rate, base_frame), both little-endian u32.
    assert_eq!(plan.device_info, vec![0x44, 0xac, 0x00, 0x00, 0x44, 0xac, 0x00, 0x00]);
    assert_eq!(plan.workgroups, 512);
}

#[test]
fn frame_ranges_tile_the_timeline() {
    // Render calls of lengths B1, B2, ... cover [0, B1/2), [B1/2, B1/2+B2/2),
    // ...: no gap, no overlap, strictly increasing bases.
    let lens: Vec<u32> = vec![88200, 1024, 2, 65536, 44100];
    let mut cursor = FrameCursor::new();
    let mut expected_base: u64 = 0;
    for &b in &lens {
        let plan = cursor.begin_render(48000, b);
        assert_eq!(plan.base_frame as u64, expected_base);
        expected_base += (b / 2) as u64;
        assert_eq!(cursor.base_frame() as u64, expected_base);
        assert!((cursor.base_frame() as u64) > plan.base_frame as u64);
    }
}

#[test]
fn asset_uniform_is_bit_exact() {
    assert_eq!(
        asset_info_bytes(22050, 2),
        vec![0x22, 0x56, 0x00, 0x00, 0x02, 0x00, 0x00, 0x00]
    );
}

#[test]
fn asset_pull_count_rounds_to_nearest() {
    // round(512 * 44100 / 48000) = round(470.4) = 470.
    assert_eq!(asset_pull_frames(512, 44100, 48000), 470);
    // Same rates: the count is the batch's own frame count.
    assert_eq!(asset_pull_frames(1024, 48000, 48000), 1024);
    // Halves round up: 1 * 3 / 2 = 1.5 -> 2.
    assert_eq!(asset_pull_frames(1, 3, 2), 2);
    assert_eq!(asset_pull_frames(0, 44100, 48000), 0);
}

#[test]
fn batch_length_covers_whole_duration() {
    // Ten seconds at 44.1 kHz: two floats per frame.
    assert_eq!(batch_buffer_length(44100, 10_000), 882_000);
    assert_eq!(batch_buffer_length(44100, 0), 0);
    assert_eq!(batch_buffer_length(8000, 1500), 24_000);
}
