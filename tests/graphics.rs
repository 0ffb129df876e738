use chip8::graphics::Graphics;
use chip8::Fault;

fn memory_with(at: usize, bytes: &[u8]) -> [u8; 4096] {
    let mut mem = [0u8; 4096];
    mem[at..at + bytes.len()].copy_from_slice(bytes);
    mem
}

fn lit_pixels(g: &Graphics) -> Vec<(usize, usize)> {
    let mut lit = Vec::new();
    for y in 0..32 {
        for x in 0..64 {
            if g.pixel(x, y) {
                lit.push((x, y));
            }
        }
    }
    lit
}

#[test]
fn new_framebuffer_is_blank_and_dirty() {
    let g = Graphics::new();
    assert!(lit_pixels(&g).is_empty());
    assert!(g.is_dirty());
}

#[test]
fn draw_hands_out_a_frame_once() {
    let mut g = Graphics::new();
    let frame = g.draw().expect("a new framebuffer is dirty");
    assert!(frame.iter().all(|p| !p));
    assert!(!g.is_dirty());
    assert!(g.draw().is_none());
    let mem = memory_with(0x300, &[0x80]);
    assert_eq!(g.update(2, 1, 1, 0x300, &mem), Ok(false));
    let frame = g.draw().expect("drawing marks the framebuffer dirty");
    assert!(frame[64 + 2]);
    assert_eq!(frame.iter().filter(|p| **p).count(), 1);
}

#[test]
fn sprite_over_blank_region_does_not_collide_and_redraw_erases() {
    let mut g = Graphics::new();
    let mem = memory_with(0x300, &[0b1011_0001, 0b0100_1110, 0xFF]);
    assert_eq!(g.update(10, 5, 3, 0x300, &mem), Ok(false));
    assert_eq!(lit_pixels(&g).len(), 4 + 4 + 8);
    assert!(g.pixel(10, 5));
    assert!(!g.pixel(11, 5));
    assert!(g.pixel(17, 5));
    assert!(g.pixel(11, 6));
    assert!(g.pixel(17, 7));
    assert_eq!(g.update(10, 5, 3, 0x300, &mem), Ok(true));
    assert!(lit_pixels(&g).is_empty());
}

#[test]
fn partial_overlap_collides() {
    let mut g = Graphics::new();
    let mem = memory_with(0x300, &[0x80]);
    assert_eq!(g.update(0, 0, 1, 0x300, &mem), Ok(false));
    // A second sprite that covers (0, 0) among others.
    let mem2 = memory_with(0x300, &[0xC0]);
    assert_eq!(g.update(0, 0, 1, 0x300, &mem2), Ok(true));
    assert_eq!(lit_pixels(&g), vec![(1, 0)]);
    // One that misses the lit pixel does not collide.
    assert_eq!(g.update(5, 5, 1, 0x300, &mem2), Ok(false));
}

#[test]
fn drawing_at_last_column_wraps_to_the_left_edge() {
    let mut g = Graphics::new();
    let mem = memory_with(0x300, &[0xFF]);
    assert_eq!(g.update(63, 0, 1, 0x300, &mem), Ok(false));
    let lit = lit_pixels(&g);
    let mut columns: Vec<usize> = lit.iter().map(|(x, _)| *x).collect();
    columns.sort();
    assert_eq!(columns, vec![0, 1, 2, 3, 4, 5, 6, 63]);
    assert!(lit.iter().all(|(_, y)| *y == 0));
}

#[test]
fn drawing_at_bottom_wraps_to_the_top() {
    let mut g = Graphics::new();
    let mem = memory_with(0x300, &[0x80, 0x80, 0x80]);
    assert_eq!(g.update(0, 31, 3, 0x300, &mem), Ok(false));
    assert_eq!(lit_pixels(&g), vec![(0, 0), (0, 1), (0, 31)]);
}

#[test]
fn coordinates_beyond_the_screen_wrap() {
    let mut g = Graphics::new();
    let mem = memory_with(0x300, &[0x80]);
    assert_eq!(g.update(64 + 3, 32 + 2, 1, 0x300, &mem), Ok(false));
    assert_eq!(lit_pixels(&g), vec![(3, 2)]);
}

#[test]
fn zero_height_sprite_changes_no_pixel_but_marks_dirty() {
    let mut g = Graphics::new();
    let _ = g.draw();
    let mem = memory_with(0x300, &[0xFF]);
    assert_eq!(g.update(0, 0, 0, 0x300, &mem), Ok(false));
    assert!(lit_pixels(&g).is_empty());
    assert!(g.is_dirty());
}

#[test]
fn too_tall_sprite_is_refused() {
    let mut g = Graphics::new();
    let _ = g.draw();
    let mem = [0xFFu8; 4096];
    assert_eq!(g.update(0, 0, 16, 0x300, &mem), Err(Fault::SpriteTooTall));
    assert!(lit_pixels(&g).is_empty());
    assert!(!g.is_dirty());
}

#[test]
fn sprite_past_memory_end_is_refused() {
    let mut g = Graphics::new();
    let mem = [0xFFu8; 4096];
    assert_eq!(g.update(0, 0, 2, 0xFFF, &mem), Err(Fault::MemoryOutOfBounds));
    assert!(lit_pixels(&g).is_empty());
    assert_eq!(g.update(0, 0, 1, 0xFFF, &mem), Ok(false));
    assert_eq!(lit_pixels(&g).len(), 8);
}

#[test]
fn clear_blanks_and_marks_dirty() {
    let mut g = Graphics::new();
    let mem = memory_with(0x300, &[0xFF]);
    assert_eq!(g.update(0, 0, 1, 0x300, &mem), Ok(false));
    let _ = g.draw();
    g.clear();
    assert!(lit_pixels(&g).is_empty());
    assert!(g.is_dirty());
}

#[test]
fn zero_row_sprite_at_any_address_is_drawn() {
    let mut g = Graphics::new();
    let _ = g.draw();
    let mem = [0xFFu8; 4096];
    assert_eq!(g.update(0, 0, 0, 0xFFFF, &mem), Ok(false));
    assert!(lit_pixels(&g).is_empty());
    assert!(g.is_dirty());
    assert_eq!(g.pixels(), [false; 2048]);
}
