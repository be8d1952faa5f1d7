use bevy_text_mesh::bitmap::blit;
use bevy_text_mesh::PixelRect;
use bevy_text_mesh::RasterizedBitmap;

#[test]
fn a_bitmap_needs_four_bytes_a_texel() {
    assert!(RasterizedBitmap::new(2, 3, vec![0u8; 24]).is_some());
    assert!(RasterizedBitmap::new(2, 3, vec![0u8; 23]).is_none());
    assert!(RasterizedBitmap::new(2, 3, vec![0u8; 6]).is_none());
    assert!(RasterizedBitmap::new(0, 3, vec![]).is_some());
    assert!(RasterizedBitmap::new(0, 0, vec![1]).is_none());
}

#[test]
fn a_bitmap_keeps_its_size_and_bytes() {
    let data: Vec<u8> = (0u8..24).collect();
    let bitmap = RasterizedBitmap::new(3, 2, data.clone()).unwrap();
    assert_eq!(bitmap.width(), 3);
    assert_eq!(bitmap.height(), 2);
    assert_eq!(bitmap.max_side(), 3);
    assert_eq!(bitmap.data(), &data);
}

#[test]
fn the_larger_side_may_be_the_height() {
    let bitmap = RasterizedBitmap::new(2, 5, vec![0u8; 40]).unwrap();
    assert_eq!(bitmap.max_side(), 5);
}

#[test]
fn a_distance_field_goes_into_the_last_channel() {
    let bitmap = RasterizedBitmap::from_distance_field(2, 2, &vec![10, 20, 30, 40]).unwrap();
    assert_eq!(bitmap.width(), 2);
    assert_eq!(bitmap.height(), 2);
    assert_eq!(
        bitmap.data(),
        &vec![0, 0, 0, 10, 0, 0, 0, 20, 0, 0, 0, 30, 0, 0, 0, 40]
    );
}

#[test]
fn a_distance_field_of_the_wrong_length_is_refused() {
    assert!(RasterizedBitmap::from_distance_field(2, 2, &vec![1, 2, 3]).is_none());
    assert!(RasterizedBitmap::from_distance_field(2, 2, &vec![1, 2, 3, 4, 5]).is_none());
}

#[test]
fn an_empty_distance_field_is_an_empty_bitmap() {
    let bitmap = RasterizedBitmap::from_distance_field(0, 7, &vec![]).unwrap();
    assert_eq!(bitmap.data().len(), 0);
    assert_eq!(bitmap.height(), 7);
}

#[test]
fn blit_copies_the_bitmap_to_its_place_and_nothing_else() {
    // a page of 4 by 4 texels, all bytes 9
    let mut page = vec![9u8; 4 * 4 * 4];
    // a bitmap of 2 by 3 texels whose bytes count up from 100
    let data: Vec<u8> = (0u8..24).map(|b| 100 + b).collect();
    let bitmap = RasterizedBitmap::new(2, 3, data.clone()).unwrap();
    let rect = PixelRect { min_x: 1, min_y: 1, max_x: 3, max_y: 4 };
    blit(&mut page, 4, rect, &bitmap);
    for y in 0..4usize {
        for x in 0..4usize {
            for c in 0..4usize {
                let got = page[(y * 4 + x) * 4 + c];
                if (1..3).contains(&x) && (1..4).contains(&y) {
                    assert_eq!(got, data[((y - 1) * 2 + (x - 1)) * 4 + c]);
                } else {
                    assert_eq!(got, 9);
                }
            }
        }
    }
}

#[test]
fn blit_of_an_empty_bitmap_changes_nothing() {
    let mut page = vec![7u8; 2 * 2 * 4];
    let bitmap = RasterizedBitmap::new(0, 2, vec![]).unwrap();
    blit(&mut page, 2, PixelRect { min_x: 1, min_y: 0, max_x: 1, max_y: 2 }, &bitmap);
    assert_eq!(page, vec![7u8; 16]);
}
