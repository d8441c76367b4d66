use boxtrace::color::Color;
use boxtrace::framebuffer::Framebuffer;
use boxtrace::render::render;

#[test]
fn new_buffer_is_black() {
    let fb = Framebuffer::new(4, 3);
    assert_eq!(fb.width(), 4);
    assert_eq!(fb.height(), 3);
    assert_eq!(fb.buffer(), &vec![0u32; 12]);
}

#[test]
fn point_writes_row_major() {
    let mut fb = Framebuffer::new(4, 3);
    fb.set_current_color(0xabcdef);
    fb.point(1, 2);
    let mut want = vec![0u32; 12];
    want[2 * 4 + 1] = 0xabcdef;
    assert_eq!(fb.buffer(), &want);
}

#[test]
fn point_outside_the_grid_changes_nothing() {
    let mut fb = Framebuffer::new(4, 3);
    fb.set_current_color(0xabcdef);
    fb.point(4, 0);
    fb.point(0, 3);
    fb.point(usize::MAX, usize::MAX);
    assert_eq!(fb.buffer(), &vec![0u32; 12]);
}

#[test]
fn clear_fills_with_the_background() {
    let mut fb = Framebuffer::new(2, 2);
    fb.set_current_color(0x111111);
    fb.point(0, 0);
    fb.set_background_color(0x333333);
    fb.clear();
    assert_eq!(fb.buffer(), &vec![0x333333u32; 4]);
}

#[test]
fn render_writes_every_cell_in_its_colour() {
    let mut fb = Framebuffer::new(3, 2);
    let mut colors = Vec::new();
    for i in 0..6u8 {
        colors.push(Color::new(i, 2 * i, 3 * i));
    }
    render(&mut fb, &colors);
    let want: Vec<u32> = colors.iter().map(|c| c.to_hex()).collect();
    assert_eq!(fb.buffer(), &want);
    assert_eq!(want[4], 0x04080c);
}

#[test]
fn render_of_an_empty_grid_is_empty() {
    let mut fb = Framebuffer::new(0, 5);
    render(&mut fb, &Vec::new());
    assert_eq!(fb.buffer().len(), 0);
}

#[test]
fn render_accepts_the_usual_resolution() {
    let mut fb = Framebuffer::new(800, 600);
    let colors = vec![Color::new(68, 142, 228); 800 * 600];
    render(&mut fb, &colors);
    assert_eq!(fb.buffer().len(), 480_000);
    assert!(fb.buffer().iter().all(|w| *w == 0x448ee4));
}
