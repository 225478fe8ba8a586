use walrust::clock::FrameClock;
use walrust::color::Color;
use walrust::program::Program;
use walrust::shader::{Shader, ShaderType};
use walrust::texture::Texture;

#[test]
fn from_rgb_is_opaque() {
    let c = Color::from_rgb(10, 20, 30);
    assert_eq!((c.red, c.green, c.blue, c.alpha), (10, 20, 30, 255));
}

#[test]
fn from_rgba_keeps_all_channels() {
    let c = Color::from_rgba(1, 2, 3, 4);
    assert_eq!((c.red, c.green, c.blue, c.alpha), (1, 2, 3, 4));
}

#[test]
fn default_color_is_transparent() {
    let c = Color::default();
    assert_eq!((c.red, c.green, c.blue, c.alpha), (0, 0, 0, 0));
}

#[test]
fn color_add_saturates_at_255() {
    let c = Color::from_rgba(250, 1, 128, 255).add(Color::from_rgba(10, 2, 127, 1));
    assert_eq!((c.red, c.green, c.blue, c.alpha), (255, 3, 255, 255));
}

#[test]
fn color_sub_saturates_at_0() {
    let c = Color::from_rgba(5, 3, 128, 0).sub(Color::from_rgba(10, 2, 127, 1));
    assert_eq!((c.red, c.green, c.blue, c.alpha), (0, 1, 1, 0));
}

#[test]
fn new_texture_is_blank() {
    let t = Texture::new(4, 3);
    assert_eq!(t.width(), 4);
    assert_eq!(t.height(), 3);
    assert_eq!(t.get_pixel(2, 1), Color::default());
}

#[test]
fn set_then_get_pixel_round_trips() {
    let mut t = Texture::new(4, 3);
    let c = Color::from_rgb(9, 8, 7);
    t.set_pixel(2, 1, c);
    assert_eq!(t.get_pixel(2, 1), c);
    assert_eq!(t.get_pixel(1, 2), Color::default());
}

#[test]
fn out_of_bounds_get_reads_transparent() {
    let mut t = Texture::new(2, 2);
    t.set_pixel(0, 0, Color::from_rgb(255, 255, 255));
    assert_eq!(t.get_pixel(2, 0), Color::default());
    assert_eq!(t.get_pixel(0, 2), Color::default());
}

#[test]
fn out_of_bounds_set_changes_nothing() {
    let mut t = Texture::new(2, 2);
    t.set_pixel(5, 5, Color::from_rgb(1, 2, 3));
    for y in 0..2 {
        for x in 0..2 {
            assert_eq!(t.get_pixel(x, y), Color::default());
        }
    }
}

#[test]
fn from_rgba_bytes_reads_pixels_in_row_order() {
    let bytes = vec![
        1, 2, 3, 4, //
        5, 6, 7, 8, //
        9, 10, 11, 12, //
        13, 14, 15, 16,
    ];
    let t = Texture::from_rgba_bytes(2, 2, &bytes);
    assert_eq!(t.get_pixel(0, 0), Color::from_rgba(1, 2, 3, 4));
    assert_eq!(t.get_pixel(1, 0), Color::from_rgba(5, 6, 7, 8));
    assert_eq!(t.get_pixel(0, 1), Color::from_rgba(9, 10, 11, 12));
    assert_eq!(t.get_pixel(1, 1), Color::from_rgba(13, 14, 15, 16));
}

#[test]
fn to_rgba_bytes_round_trips() {
    let bytes: Vec<u8> = (0u8..24).collect();
    let t = Texture::from_rgba_bytes(3, 2, &bytes);
    assert_eq!(t.to_rgba_bytes(), bytes);
}

#[test]
fn clock_reports_elapsed_ticks() {
    let mut c = FrameClock::new();
    assert_eq!(c.tick(100), 100);
    assert_eq!(c.tick(116), 16);
    assert_eq!(c.tick(116), 0);
    assert_eq!(c.tick(110), 0);
    assert_eq!(c.tick(120), 10);
}

#[test]
fn shader_and_program_keep_their_handles() {
    let s = Shader::from_id(7);
    assert_eq!(s.id(), 7);
    let p = Program::from_id(9);
    assert_eq!(p.id(), 9);
    assert!(matches!(ShaderType::Vertex, ShaderType::Vertex));
    let t = ShaderType::Fragment;
    assert_ne!(t, ShaderType::Geometry);
}
