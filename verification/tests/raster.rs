use tinyrenderer::raster::PixelBox;

fn area(min_x: u32, min_y: u32, max_x: u32, max_y: u32) -> Option<PixelBox> {
    Some(PixelBox { min_x, min_y, max_x, max_y })
}

#[test]
fn a_rectangle_on_the_screen_is_kept_whole() {
    assert_eq!(PixelBox::on_screen(3, 4, 10, 20, 512, 512), area(3, 4, 10, 20));
    assert_eq!(PixelBox::on_screen(0, 0, 511, 511, 512, 512), area(0, 0, 511, 511));
    assert_eq!(PixelBox::on_screen(7, 7, 7, 7, 8, 8), area(7, 7, 7, 7));
}

#[test]
fn a_rectangle_that_leaves_the_screen_is_cut_at_its_edges() {
    assert_eq!(PixelBox::on_screen(-5, -1, 10, 20, 512, 512), area(0, 0, 10, 20));
    assert_eq!(PixelBox::on_screen(500, 500, 600, 700, 512, 512), area(500, 500, 511, 511));
    assert_eq!(PixelBox::on_screen(-100, 3, 1000, 4, 512, 256), area(0, 3, 511, 4));
    assert_eq!(PixelBox::on_screen(3, -100, 4, 1000, 512, 256), area(3, 0, 4, 255));
}

#[test]
fn a_rectangle_off_the_screen_reaches_no_pixel() {
    assert_eq!(PixelBox::on_screen(-10, 5, -1, 9, 512, 512), None);
    assert_eq!(PixelBox::on_screen(512, 5, 600, 9, 512, 512), None);
    assert_eq!(PixelBox::on_screen(5, -10, 9, -1, 512, 512), None);
    assert_eq!(PixelBox::on_screen(5, 512, 9, 600, 512, 512), None);
    assert_eq!(PixelBox::on_screen(-3, -3, -1, 700, 512, 512), None);
}

#[test]
fn a_rectangle_that_touches_the_edge_of_the_screen_reaches_the_edge() {
    assert_eq!(PixelBox::on_screen(-10, 5, 0, 9, 512, 512), area(0, 5, 0, 9));
    assert_eq!(PixelBox::on_screen(511, 5, 600, 9, 512, 512), area(511, 5, 511, 9));
}

#[test]
fn an_empty_rectangle_reaches_no_pixel() {
    assert_eq!(PixelBox::on_screen(10, 0, 9, 5, 512, 512), None);
    assert_eq!(PixelBox::on_screen(0, 6, 9, 5, 512, 512), None);
}

#[test]
fn a_screen_without_pixels_is_never_reached() {
    assert_eq!(PixelBox::on_screen(0, 0, 10, 10, 0, 512), None);
    assert_eq!(PixelBox::on_screen(0, 0, 10, 10, 512, 0), None);
}

#[test]
fn the_widest_rectangle_and_the_widest_screen() {
    assert_eq!(
        PixelBox::on_screen(i64::MIN, i64::MIN, i64::MAX, i64::MAX, u32::MAX, u32::MAX),
        area(0, 0, u32::MAX - 1, u32::MAX - 1)
    );
    assert_eq!(PixelBox::on_screen(i64::MIN, i64::MIN, i64::MIN, i64::MIN, 4, 4), None);
    assert_eq!(PixelBox::on_screen(i64::MAX, i64::MAX, i64::MAX, i64::MAX, 4, 4), None);
}
