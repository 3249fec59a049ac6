use julia::palette::color_palette;

#[test]
fn crystal_palette_stops() {
    assert_eq!(
        color_palette("crystal"),
        [[255, 255, 255], [200, 255, 255], [150, 220, 255], [90, 90, 180], [0, 0, 0]]
    );
}

#[test]
fn named_palettes_first_and_last_stops() {
    assert_eq!(color_palette("cool")[2], [128, 238, 255]);
    assert_eq!(color_palette("plasma")[3], [200, 0, 128]);
    assert_eq!(color_palette("sapling")[0], [204, 236, 255]);
    assert_eq!(color_palette("firelotus")[4], [255, 230, 158]);
    assert_eq!(color_palette("underwater")[1], [0, 43, 95]);
}

#[test]
fn unknown_palette_falls_back_to_grayscale() {
    let gray = [[0, 0, 0], [100, 100, 100], [150, 150, 150], [200, 200, 200], [255, 255, 255]];
    assert_eq!(color_palette("nonexistent"), gray);
    assert_eq!(color_palette(""), gray);
    assert_eq!(color_palette("Crystal"), gray);
}
