use tui_image::geometry::{horizontal_offset, scaling_needed, vertical_offset};
use tui_image::pixels::fit_to_area;
use tui_image::render::{
    backdrop, composite_pixel, generator_target, paint, Backdrop, BLOCK_FULL, BLOCK_LIGHT,
    BLOCK_MEDIUM, BLOCK_UPPER_HALF,
};
use tui_image::{Alignment, Cell, CellBuffer, Color, ColorMode, Image, PixelBuffer, Rect, Rgba, Style};

fn blank() -> Cell {
    Cell { symbol: ' ', fg: Color::Reset, bg: Color::Reset, modifier: 0 }
}

fn uniform(width: u32, height: u32, px: [u8; 4]) -> PixelBuffer {
    let mut data = Vec::new();
    for _ in 0..(width * height) {
        data.extend_from_slice(&px);
    }
    PixelBuffer::from_raw(width, height, data).unwrap()
}

#[test]
fn white_image_fills_one_cell_in_rgb() {
    let img = uniform(2, 2, [255, 255, 255, 255]);
    let area = Rect::new(0, 0, 1, 1);
    let mut buf = CellBuffer::filled(area, blank());
    Image::with_img(img).color_mode(ColorMode::Rgb).render(area, &mut buf, None);
    let c = buf.get(0, 0);
    assert_eq!(c.symbol, BLOCK_UPPER_HALF);
    assert_eq!(c.fg, Color::Rgb(255, 255, 255));
    assert_eq!(c.bg, Color::Rgb(255, 255, 255));
}

#[test]
fn zero_area_changes_nothing() {
    let img = uniform(3, 3, [255, 255, 255, 255]);
    let whole = Rect::new(0, 0, 3, 2);
    let mut buf = CellBuffer::filled(whole, blank());
    let style = Style { fg: Some(Color::Red), bg: Some(Color::Blue), add_modifier: 1, sub_modifier: 0 };
    let image = Image::with_img(img).style(style);
    image.render(Rect::new(0, 0, 0, 2), &mut buf, None);
    image.render(Rect::new(1, 1, 2, 0), &mut buf, None);
    assert!(buf.content.iter().all(|c| *c == blank()));
}

#[test]
fn transparent_pixel_over_black_leaves_cell_in_luma() {
    let img = uniform(1, 2, [0, 0, 0, 0]);
    let area = Rect::new(0, 0, 1, 1);
    let mut buf = CellBuffer::filled(area, blank());
    Image::with_img(img).render(area, &mut buf, None);
    assert_eq!(buf.get(0, 0), blank());
}

#[test]
fn transparent_pixel_over_red_shows_lightest_shade() {
    // the red backdrop alone has density level one
    let img = uniform(1, 2, [0, 0, 0, 0]);
    let area = Rect::new(0, 0, 1, 1);
    let mut buf = CellBuffer::filled(area, blank());
    let style = Style { fg: None, bg: Some(Color::Rgb(255, 0, 0)), add_modifier: 0, sub_modifier: 0 };
    Image::with_img(img).style(style).render(area, &mut buf, None);
    assert_eq!(buf.get(0, 0).symbol, BLOCK_LIGHT);
    assert_eq!(buf.get(0, 0).bg, Color::Rgb(255, 0, 0));
}

#[test]
fn opaque_pixels_fill_both_halves_in_rgb() {
    let data = vec![10, 20, 30, 255, 40, 50, 60, 255];
    let img = PixelBuffer::from_raw(1, 2, data).unwrap();
    let area = Rect::new(0, 0, 1, 1);
    let mut buf = CellBuffer::filled(area, blank());
    Image::with_img(img).color_mode(ColorMode::Rgb).render(area, &mut buf, None);
    let c = buf.get(0, 0);
    assert_eq!(c.symbol, BLOCK_UPPER_HALF);
    assert_eq!(c.fg, Color::Rgb(10, 20, 30));
    assert_eq!(c.bg, Color::Rgb(40, 50, 60));
}

#[test]
fn paint_even_and_odd_rows() {
    let c = composite_pixel(Rgba { r: 7, g: 8, b: 9, a: 255 }, Backdrop { r: 100, g: 100, b: 100 });
    let even = paint(blank(), c, ColorMode::Rgb, 4);
    assert_eq!(even.symbol, BLOCK_UPPER_HALF);
    assert_eq!(even.fg, Color::Rgb(7, 8, 9));
    assert_eq!(even.bg, Color::Reset);
    let odd = paint(blank(), c, ColorMode::Rgb, 5);
    assert_eq!(odd.symbol, ' ');
    assert_eq!(odd.fg, Color::Reset);
    assert_eq!(odd.bg, Color::Rgb(7, 8, 9));
}

#[test]
fn alignment_offsets() {
    assert_eq!(horizontal_offset(Alignment::Left, 10, 4), 0);
    assert_eq!(horizontal_offset(Alignment::Center, 10, 4), 3);
    assert_eq!(horizontal_offset(Alignment::Right, 10, 4), 6);
    assert_eq!(horizontal_offset(Alignment::Center, 10, 5), 2);
    assert_eq!(horizontal_offset(Alignment::Right, 10, 20), 0);
    assert_eq!(horizontal_offset(Alignment::Right, 10, 0), 9);
}

#[test]
fn vertical_offsets_are_centred_and_clamped() {
    assert_eq!(vertical_offset(5, 4), 3);
    assert_eq!(vertical_offset(5, 5), 2);
    assert_eq!(vertical_offset(5, 20), 0);
    assert_eq!(vertical_offset(5, 0), 5);
    assert_eq!(vertical_offset(1, 1), 0);
}

#[test]
fn small_images_are_not_scaled() {
    let img = uniform(4, 6, [1, 2, 3, 4]);
    let area = Rect::new(0, 0, 4, 3);
    assert!(!scaling_needed(area, 4, 6));
    assert!(fit_to_area(&img, area).is_none());
}

#[test]
fn large_images_are_scaled_to_the_canvas() {
    let area = Rect::new(2, 1, 4, 3);
    let wide = uniform(8, 2, [9, 9, 9, 255]);
    let s = fit_to_area(&wide, area).unwrap();
    assert_eq!((s.width, s.height, s.data.len()), (4, 6, 96));
    assert!(s.data.chunks(4).all(|p| p == [9, 9, 9, 255]));
    let tall = uniform(1, 7, [1, 1, 1, 1]);
    let s = fit_to_area(&tall, area).unwrap();
    assert_eq!((s.width, s.height, s.data.len()), (4, 6, 96));
}

#[test]
fn nearest_scaling_keeps_pixel_colours() {
    // left half red, right half blue, halved in width
    let mut data = Vec::new();
    for _ in 0..2 {
        data.extend_from_slice(&[255, 0, 0, 255, 255, 0, 0, 255, 0, 0, 255, 255, 0, 0, 255, 255]);
    }
    let img = PixelBuffer::from_raw(4, 2, data).unwrap();
    let area = Rect::new(0, 0, 2, 1);
    let mut buf = CellBuffer::filled(area, blank());
    Image::with_img(img).color_mode(ColorMode::Rgb).render(area, &mut buf, None);
    assert_eq!(buf.get(0, 0).fg, Color::Rgb(255, 0, 0));
    assert_eq!(buf.get(1, 0).fg, Color::Rgb(0, 0, 255));
}

#[test]
fn rendering_twice_gives_the_same_buffer() {
    let mut data = Vec::new();
    for i in 0..12u8 {
        data.extend_from_slice(&[i * 20, 255 - i * 20, i * 7, i * 21]);
    }
    let img = PixelBuffer::from_raw(3, 4, data).unwrap();
    let whole = Rect::new(0, 0, 6, 4);
    let area = Rect::new(1, 1, 4, 3);
    let style = Style { fg: Some(Color::Green), bg: Some(Color::White), add_modifier: 3, sub_modifier: 1 };
    for mode in [ColorMode::Luma, ColorMode::Rgb] {
        let image = Image::with_img(img.clone()).style(style).color_mode(mode).alignment(Alignment::Right);
        let mut a = CellBuffer::filled(whole, blank());
        let mut b = CellBuffer::filled(whole, blank());
        image.render(area, &mut a, None);
        image.render(area, &mut b, None);
        assert_eq!(a.content, b.content);
        let once = a.content.clone();
        image.render(area, &mut a, None);
        assert_eq!(a.content, once);
    }
}

#[test]
fn luma_levels_pick_the_ramp() {
    let black = Backdrop { r: 0, g: 0, b: 0 };
    let white = composite_pixel(Rgba { r: 255, g: 255, b: 255, a: 255 }, black);
    assert_eq!(paint(blank(), white, ColorMode::Luma, 0).symbol, BLOCK_FULL);
    let gray = composite_pixel(Rgba { r: 128, g: 128, b: 128, a: 255 }, black);
    assert_eq!(gray, (32640, 32640, 32640));
    assert_eq!(paint(blank(), gray, ColorMode::Luma, 0).symbol, BLOCK_MEDIUM);
    let dark = composite_pixel(Rgba { r: 10, g: 10, b: 10, a: 255 }, black);
    assert_eq!(paint(blank(), dark, ColorMode::Luma, 0), blank());
}

#[test]
fn compositing_is_exact() {
    let c = composite_pixel(Rgba { r: 200, g: 100, b: 0, a: 128 }, Backdrop { r: 0, g: 0, b: 255 });
    assert_eq!(c, (25600, 12800, 32385));
}

#[test]
fn backdrop_from_style() {
    let mut style = Style::default();
    assert_eq!(backdrop(style), Backdrop { r: 0, g: 0, b: 0 });
    style.bg = Some(Color::White);
    assert_eq!(backdrop(style), Backdrop { r: 255, g: 255, b: 255 });
    style.bg = Some(Color::Rgb(1, 2, 3));
    assert_eq!(backdrop(style), Backdrop { r: 1, g: 2, b: 3 });
    style.bg = Some(Color::Red);
    assert_eq!(backdrop(style), Backdrop { r: 0, g: 0, b: 0 });
}

#[test]
fn style_covers_area_only() {
    let whole = Rect::new(0, 0, 4, 3);
    let mut buf = CellBuffer::filled(whole, Cell { modifier: 0b101, ..blank() });
    let style = Style { fg: Some(Color::Yellow), bg: None, add_modifier: 0b010, sub_modifier: 0b001 };
    buf.set_style(Rect::new(1, 1, 2, 1), style);
    for y in 0..3u16 {
        for x in 0..4u16 {
            let c = buf.get(x, y);
            if y == 1 && (x == 1 || x == 2) {
                assert_eq!(c.fg, Color::Yellow);
                assert_eq!(c.bg, Color::Reset);
                assert_eq!(c.modifier, 0b110);
            } else {
                assert_eq!(c, Cell { modifier: 0b101, ..blank() });
            }
        }
    }
}

#[test]
fn image_is_placed_by_alignment_and_centred() {
    let img = uniform(1, 2, [255, 255, 255, 255]);
    let whole = Rect::new(0, 0, 5, 3);
    let area = Rect::new(1, 0, 3, 3);
    let mut buf = CellBuffer::filled(whole, blank());
    Image::with_img(img).alignment(Alignment::Right).render(area, &mut buf, None);
    // canvas rows 2 and 3, i.e. cell row 1; column 2 of the area
    for y in 0..3u16 {
        for x in 0..5u16 {
            let expected = if x == 3 && y == 1 { BLOCK_FULL } else { ' ' };
            assert_eq!(buf.get(x, y).symbol, expected);
        }
    }
}

#[test]
fn generator_result_is_drawn_unscaled() {
    let area = Rect::new(0, 0, 2, 1);
    assert_eq!(generator_target(area), Some((2, 2)));
    assert_eq!(generator_target(Rect::new(0, 0, 2, 0)), None);
    let style = Style { fg: None, bg: Some(Color::Blue), add_modifier: 0, sub_modifier: 0 };
    let image = Image::with_generator().style(style).color_mode(ColorMode::Rgb).alignment(Alignment::Left);
    let mut failed = CellBuffer::filled(area, blank());
    image.render(area, &mut failed, None);
    assert!(failed.content.iter().all(|c| *c == blank()));
    let mut drawn = CellBuffer::filled(area, blank());
    image.render(area, &mut drawn, Some(uniform(4, 4, [0, 255, 0, 255])));
    assert_eq!(drawn.get(0, 0).fg, Color::Rgb(0, 255, 0));
    assert_eq!(drawn.get(1, 0).bg, Color::Rgb(0, 255, 0));
    let mut small = CellBuffer::filled(area, blank());
    image.render(area, &mut small, Some(uniform(1, 1, [0, 0, 255, 255])));
    assert_eq!(small.get(0, 0).fg, Color::Rgb(0, 0, 255));
    assert_eq!(small.get(1, 0), Cell { bg: Color::Blue, ..blank() });
}

#[test]
fn raw_buffers_need_four_bytes_a_pixel() {
    assert!(PixelBuffer::from_raw(2, 2, vec![0; 15]).is_none());
    assert!(PixelBuffer::from_raw(2, 2, vec![0; 17]).is_none());
    let p = PixelBuffer::from_raw(2, 1, vec![1, 2, 3, 4, 5, 6, 7, 8]).unwrap();
    assert_eq!(p.get_pixel(1, 0), Rgba { r: 5, g: 6, b: 7, a: 8 });
    assert_eq!((p.width(), p.height()), (2, 1));
}

#[test]
fn defaults_are_luma_centred_unstyled() {
    let img = uniform(1, 1, [255, 255, 255, 255]);
    let image = Image::with_img(img);
    assert_eq!(image.color_mode, ColorMode::Luma);
    assert_eq!(image.alignment, Alignment::Center);
    assert_eq!(image.style, Style::default());
    let area = Rect::new(0, 0, 3, 1);
    let mut buf = CellBuffer::filled(area, blank());
    image.render(area, &mut buf, None);
    // a one-pixel image: column 1, canvas row 0
    assert_eq!(buf.get(0, 0), blank());
    assert_eq!(buf.get(1, 0), Cell { symbol: BLOCK_FULL, ..blank() });
    assert_eq!(buf.get(2, 0), blank());
}
