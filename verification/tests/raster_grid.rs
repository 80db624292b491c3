use hillshade::raster::{Color, Raster};

#[test]
fn from_vec_accepts_exactly_width_times_height_samples() {
    assert!(Raster::from_vec(3, 2, vec![0u8; 6]).is_some());
    assert!(Raster::from_vec(3, 2, vec![0u8; 5]).is_none());
    assert!(Raster::from_vec(3, 2, vec![0u8; 7]).is_none());
    assert!(Raster::from_vec(0, 0, Vec::<u8>::new()).is_some());
    assert!(Raster::from_vec(0, 5, Vec::<u8>::new()).is_some());
    assert!(Raster::from_vec(0, 5, vec![1u8]).is_none());
}

#[test]
fn from_vec_refuses_a_size_that_cannot_be_counted() {
    assert!(Raster::from_vec(usize::MAX, 2, vec![0u8; 4]).is_none());
    assert!(Raster::from_vec(usize::MAX, usize::MAX, Vec::<u8>::new()).is_none());
}

#[test]
fn samples_are_stored_row_after_row() {
    let r = Raster::from_vec(3, 2, vec![10u8, 11, 12, 20, 21, 22]).unwrap();
    assert_eq!(r.width(), 3);
    assert_eq!(r.height(), 2);
    assert_eq!(r.len(), 6);
    assert_eq!(*r.pixel(0, 0), 10);
    assert_eq!(*r.pixel(2, 0), 12);
    assert_eq!(*r.pixel(0, 1), 20);
    assert_eq!(*r.pixel(2, 1), 22);
    assert_eq!(*r.sample(4), 21);
}

#[test]
fn get_is_none_outside_the_grid() {
    let r = Raster::from_vec(3, 2, vec![10u8, 11, 12, 20, 21, 22]).unwrap();
    assert_eq!(r.get(1, 1), Some(&21));
    assert_eq!(r.get(3, 0), None);
    assert_eq!(r.get(0, 2), None);
    assert_eq!(r.get(usize::MAX, usize::MAX), None);
}

#[test]
fn rasters_hold_colours_as_well() {
    let red = Color { red: 255, green: 0, blue: 0 };
    let blue = Color { red: 0, green: 0, blue: 255 };
    let r = Raster::from_vec(1, 2, vec![red, blue]).unwrap();
    assert_eq!(r.get(0, 0), Some(&red));
    assert_eq!(r.get(0, 1), Some(&blue));
}
