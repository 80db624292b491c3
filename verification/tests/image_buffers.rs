use hillshade::blend::blend;
use hillshade::hillshade::shade;
use hillshade::imaging::{
    can_hold, colors_from_image, elevation_from_image, image_from_colors, GrayBuffer,
};
use hillshade::light::{CellSize, LightSource};
use hillshade::ramp::colorize;
use hillshade::raster::{Color, Raster};

#[test]
fn gray_image_takes_one_byte_for_each_pixel() {
    assert!(GrayBuffer::from_bytes(3, 2, vec![0u8; 6]).is_some());
    assert!(GrayBuffer::from_bytes(3, 2, vec![0u8; 5]).is_none());
    assert!(GrayBuffer::from_bytes(3, 2, vec![0u8; 7]).is_none());
    assert!(GrayBuffer::from_bytes(0, 0, Vec::new()).is_some());
    assert!(GrayBuffer::from_bytes(u32::MAX, u32::MAX, vec![0u8; 4]).is_none());
}

#[test]
fn elevation_is_read_pixel_for_pixel() {
    let img = GrayBuffer::from_bytes(3, 2, vec![10, 11, 12, 20, 21, 22]).unwrap();
    let elevation = elevation_from_image(&img);
    assert_eq!(elevation.width(), 3);
    assert_eq!(elevation.height(), 2);
    assert_eq!(*elevation.pixel(0, 0), 10);
    assert_eq!(*elevation.pixel(1, 0), 11);
    assert_eq!(*elevation.pixel(2, 0), 12);
    assert_eq!(*elevation.pixel(0, 1), 20);
    assert_eq!(*elevation.pixel(1, 1), 21);
    assert_eq!(*elevation.pixel(2, 1), 22);
}

#[test]
fn elevation_of_an_empty_image_is_empty() {
    let img = GrayBuffer::from_bytes(0, 3, Vec::new()).unwrap();
    let elevation = elevation_from_image(&img);
    assert_eq!(elevation.width(), 0);
    assert_eq!(elevation.height(), 3);
    assert_eq!(elevation.len(), 0);
}

#[test]
fn colours_are_written_and_read_back_pixel_for_pixel() {
    let pixels = vec![
        Color { red: 1, green: 2, blue: 3 },
        Color { red: 4, green: 5, blue: 6 },
        Color { red: 7, green: 8, blue: 9 },
        Color { red: 10, green: 11, blue: 12 },
        Color { red: 13, green: 14, blue: 15 },
        Color { red: 16, green: 17, blue: 18 },
    ];
    let colors = Raster::from_vec(2, 3, pixels.clone()).unwrap();
    let img = image_from_colors(&colors).unwrap();
    let back = colors_from_image(&img);
    assert_eq!(back.width(), 2);
    assert_eq!(back.height(), 3);
    for y in 0..3 {
        for x in 0..2 {
            assert_eq!(*back.pixel(x, y), pixels[y * 2 + x]);
        }
    }
}

#[test]
fn image_bytes_are_red_green_blue_row_after_row() {
    let pixels = vec![
        Color { red: 1, green: 2, blue: 3 },
        Color { red: 4, green: 5, blue: 6 },
        Color { red: 7, green: 8, blue: 9 },
        Color { red: 10, green: 11, blue: 12 },
        Color { red: 13, green: 14, blue: 15 },
        Color { red: 16, green: 17, blue: 18 },
    ];
    let colors = Raster::from_vec(3, 2, pixels).unwrap();
    let (width, height, bytes) = image_from_colors(&colors).unwrap().into_bytes();
    assert_eq!(width, 3);
    assert_eq!(height, 2);
    assert_eq!(bytes, (1..=18).collect::<Vec<u8>>());
}

#[test]
fn image_bytes_can_be_handed_to_the_image_crate() {
    let pixels = vec![
        Color { red: 1, green: 2, blue: 3 },
        Color { red: 4, green: 5, blue: 6 },
        Color { red: 7, green: 8, blue: 9 },
        Color { red: 10, green: 11, blue: 12 },
    ];
    let colors = Raster::from_vec(1, 4, pixels).unwrap();
    let (width, height, bytes) = image_from_colors(&colors).unwrap().into_bytes();
    let img = image::RgbImage::from_raw(width, height, bytes).unwrap();
    assert_eq!(img.dimensions(), (1, 4));
    assert_eq!(img.get_pixel(0, 2).0, [7, 8, 9]);
}

#[test]
fn an_image_built_by_the_image_crate_is_read_alike() {
    let mut source = image::GrayImage::new(4, 2);
    source.put_pixel(3, 0, image::Luma([77]));
    source.put_pixel(1, 1, image::Luma([200]));
    let (width, height) = source.dimensions();
    let img = GrayBuffer::from_bytes(width, height, source.into_raw()).unwrap();
    let elevation = elevation_from_image(&img);
    assert_eq!(*elevation.pixel(3, 0), 77);
    assert_eq!(*elevation.pixel(1, 1), 200);
    assert_eq!(*elevation.pixel(0, 0), 0);
    assert_eq!(*elevation.pixel(3, 1), 0);
}

#[test]
fn an_empty_raster_gives_an_empty_image() {
    let colors = Raster::from_vec(0, 0, Vec::<Color>::new()).unwrap();
    let (width, height, bytes) = image_from_colors(&colors).unwrap().into_bytes();
    assert_eq!((width, height), (0, 0));
    assert!(bytes.is_empty());
}

#[test]
fn only_grids_that_fit_an_image_can_be_held() {
    assert!(can_hold(0, 0));
    assert!(can_hold(640, 480));
    assert!(can_hold(u32::MAX as usize, 0));
    assert!(!can_hold(usize::MAX, 1));
    assert!(!can_hold(1, usize::MAX));
    assert!(!can_hold(usize::MAX, usize::MAX));
    assert!(!can_hold(isize::MAX as usize / 2, 1));
}

#[test]
fn a_raster_too_wide_for_an_image_is_refused() {
    let wide = (u32::MAX as u64 + 1) as usize;
    if wide as u64 == u32::MAX as u64 + 1 {
        let colors = Raster::from_vec(wide, 0, Vec::<Color>::new()).unwrap();
        assert!(image_from_colors(&colors).is_none());
    }
}

#[test]
fn relief_of_a_flat_image_from_bytes_to_bytes() {
    let img = GrayBuffer::from_bytes(3, 3, vec![0u8; 9]).unwrap();
    let elevation = elevation_from_image(&img);
    let color = colorize(&elevation);
    let light = LightSource::new(-46341, 46341, 46341, 46341).unwrap();
    let hillshade = shade(&elevation, CellSize::new(30 * 65536).unwrap(), &light);
    let blended = blend(&color, &hillshade).unwrap();
    let (_, _, shade_bytes) = image_from_colors(&hillshade).unwrap().into_bytes();
    assert_eq!(shade_bytes, vec![180u8; 27]);
    let (width, height, bytes) = image_from_colors(&blended).unwrap().into_bytes();
    assert_eq!((width, height), (3, 3));
    let mut expected = Vec::new();
    for _ in 0..9 {
        expected.extend_from_slice(&[0u8, 89, 90]);
    }
    assert_eq!(bytes, expected);
}
