use framework_crate::icon::{build_dib_entry, build_ico, select_icon_image};

#[test]
fn ico_layout_for_two_images() {
    let ico = build_ico(&[(256, vec![1, 2, 3]), (16, vec![9, 8])]);
    let mut expected = vec![0, 0, 1, 0, 2, 0];
    // 256px entry: size bytes 0, payload 3 bytes at offset 6 + 32 = 38.
    expected.extend_from_slice(&[0, 0, 0, 0, 1, 0, 32, 0, 3, 0, 0, 0, 38, 0, 0, 0]);
    // 16px entry: payload 2 bytes at offset 41.
    expected.extend_from_slice(&[16, 16, 0, 0, 1, 0, 32, 0, 2, 0, 0, 0, 41, 0, 0, 0]);
    expected.extend_from_slice(&[1, 2, 3, 9, 8]);
    assert_eq!(ico, expected);
}

#[test]
fn ico_without_images_is_a_bare_header() {
    assert_eq!(build_ico(&[]), vec![0, 0, 1, 0, 0, 0]);
}

#[test]
fn select_picks_the_largest_image() {
    let ico = build_ico(&[(16, vec![7; 4]), (256, vec![5; 6]), (32, vec![3; 2])]);
    let (offset, size) = select_icon_image(&ico).unwrap();
    assert_eq!(size, 6);
    assert_eq!(&ico[offset..offset + size], &[5; 6]);
}

#[test]
fn select_prefers_the_later_of_equal_sizes() {
    let ico = build_ico(&[(48, vec![1; 3]), (48, vec![2; 3])]);
    let (offset, size) = select_icon_image(&ico).unwrap();
    assert_eq!(&ico[offset..offset + size], &[2; 3]);
}

#[test]
fn select_rejects_malformed_files() {
    assert_eq!(select_icon_image(&[0; 21]), None);
    let mut ico = build_ico(&[(16, vec![1; 4])]);
    assert!(select_icon_image(&ico).is_some());
    ico[2] = 2; // not an icon
    assert_eq!(select_icon_image(&ico), None);
    let mut ico = build_ico(&[(16, vec![1; 4])]);
    ico[4] = 0; // no entries
    assert_eq!(select_icon_image(&ico), None);
    let mut ico = build_ico(&[(16, vec![1; 4])]);
    ico[14] = 200; // payload size past the end
    assert_eq!(select_icon_image(&ico), None);
}

#[test]
fn dib_of_two_by_one_image() {
    // Two pixels: opaque red-ish, and half-transparent premultiplied grey.
    let px = [200, 10, 20, 255, 64, 64, 64, 128];
    let dib = build_dib_entry(2, 1, &px);
    assert_eq!(dib.len(), 40 + 8 + 4);
    assert_eq!(&dib[0..4], &40u32.to_le_bytes());
    assert_eq!(&dib[4..8], &2u32.to_le_bytes());
    assert_eq!(&dib[8..12], &2u32.to_le_bytes());
    assert_eq!(&dib[12..16], &[1, 0, 32, 0]);
    assert!(dib[16..40].iter().all(|&b| b == 0));
    assert_eq!(&dib[40..48], &[20, 10, 200, 255, 127, 127, 127, 128]);
    assert_eq!(&dib[48..52], &[0, 0, 0, 0]);
}

#[test]
fn dib_rows_are_bottom_up_and_transparent_is_black() {
    // 1 x 2 image: top pixel transparent, bottom pixel opaque blue.
    let px = [9, 9, 9, 0, 0, 0, 255, 255];
    let dib = build_dib_entry(1, 2, &px);
    assert_eq!(&dib[40..44], &[255, 0, 0, 255]);
    assert_eq!(&dib[44..48], &[0, 0, 0, 0]);
    assert_eq!(dib.len(), 40 + 8 + 2 * 4);
}
