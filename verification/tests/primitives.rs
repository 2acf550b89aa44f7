use tetris_lib::color::{color_of, Rgb, BRICK_IDX, GREEN_IDX, PINK_IDX, RED_IDX};
use tetris_lib::dot::Dot;
use tetris_lib::figure::{tank_figure, Figure};
use tetris_lib::framebuffer::FrameBuffer;
use tetris_lib::prng::Prng;

#[test]
fn rotation_closure_tank() {
    let f = tank_figure();
    let r4 = f.rotate().rotate().rotate().rotate();
    assert_eq!(r4, f);
}

#[test]
fn rotation_swaps_dimensions() {
    let f = Figure { width: 3, height: 5, cells: [false; 64] };
    let r = f.rotate();
    assert_eq!(r.width(), 5);
    assert_eq!(r.height(), 3);
    let r4 = f.rotate().rotate().rotate().rotate();
    assert_eq!(r4, f);
}

#[test]
fn rotation_moves_bits_clockwise() {
    // The base tank sprite faces down; one clockwise rotation makes it
    // face left: the barrel cell moves from bottom-center to mid-left.
    let f = tank_figure();
    assert!(f.get_bit(1, 2));
    assert!(!f.get_bit(1, 0));
    let r = f.rotate();
    // new (c, r) = old (r, h-1-c): barrel (1, 2) maps to (h-1-2, 1) = (0, 1)
    assert!(r.get_bit(0, 1));
}

#[test]
fn to_direction_zero_and_units() {
    assert_eq!(Dot::new(0, 0).to_direction(), Dot::new(0, 0));
    assert_eq!(Dot::new(1, 0).to_direction(), Dot::new(1, 0));
    assert_eq!(Dot::new(-3, 0).to_direction(), Dot::new(-1, 0));
    assert_eq!(Dot::new(0, 7).to_direction(), Dot::new(0, 1));
    assert_eq!(Dot::new(0, -2).to_direction(), Dot::new(0, -1));
}

#[test]
fn to_direction_tie_breaks_on_horizontal_axis() {
    assert_eq!(Dot::new(3, -4).to_direction(), Dot::new(1, 0));
    assert_eq!(Dot::new(-1, 1).to_direction(), Dot::new(-1, 0));
}

#[test]
fn prng_is_deterministic_for_equal_seeds() {
    let mut a = Prng::new(123);
    let mut b = Prng::new(123);
    for _ in 0..32 {
        assert_eq!(a.next(), b.next());
    }
}

#[test]
fn prng_xorshift_sequence() {
    let mut p = Prng::new(1);
    assert_eq!(p.next(), 270369);
    assert_eq!(p.next(), 67634689);
    assert_eq!(p.next(), 2647435461);
    assert_eq!(p.next(), 307599695);
}

#[test]
fn prng_range_stays_below_bound() {
    let mut p = Prng::new(42);
    for n in 1..=10u8 {
        for _ in 0..20 {
            assert!(p.next_range(n) < n);
        }
    }
}

#[test]
fn palette_background_is_black() {
    assert_eq!(color_of(0), Rgb { r: 0, g: 0, b: 0 });
    assert_ne!(color_of(GREEN_IDX), color_of(RED_IDX));
    assert_ne!(color_of(PINK_IDX), color_of(BRICK_IDX));
}

#[test]
fn framebuffer_set_get_clear() {
    let mut fb = FrameBuffer::new();
    assert_eq!(fb.get(3, 10), 0);
    fb.set(3, 10, GREEN_IDX);
    assert_eq!(fb.get(3, 10), GREEN_IDX);
    fb.clear();
    assert_eq!(fb.get(3, 10), 0);
}

#[test]
fn static_collision_against_drawn_pixels() {
    let mut fb = FrameBuffer::new();
    let f = tank_figure();
    assert!(!fb.collides(0, 6, &f));
    // any solid cell of the figure on a painted pixel collides
    fb.set(1, 7, PINK_IDX);
    assert!(fb.collides(0, 6, &f));
}

#[test]
fn static_collision_at_grid_edges() {
    let fb = FrameBuffer::new();
    let f = tank_figure();
    // leaving the grid counts as a collision
    assert!(fb.collides(-1, 6, &f));
    assert!(fb.collides(6, 6, &f));
    assert!(fb.collides(0, 30, &f));
    assert!(!fb.collides(5, 29, &f));
}

#[test]
fn draw_figure_paints_solid_cells_only() {
    let mut fb = FrameBuffer::new();
    let f = tank_figure();
    fb.draw_figure(2, 10, &f, BRICK_IDX);
    // base sprite row 0 is "# #"
    assert_eq!(fb.get(2, 10), BRICK_IDX);
    assert_eq!(fb.get(3, 10), 0);
    assert_eq!(fb.get(4, 10), BRICK_IDX);
    // row 1 is "###"
    assert_eq!(fb.get(2, 11), BRICK_IDX);
    assert_eq!(fb.get(3, 11), BRICK_IDX);
    assert_eq!(fb.get(4, 11), BRICK_IDX);
    // row 2 is " # "
    assert_eq!(fb.get(3, 12), BRICK_IDX);
    assert_eq!(fb.get(2, 12), 0);
}

#[test]
fn draw_figure_clips_off_screen_sprites() {
    let mut fb = FrameBuffer::new();
    let f = tank_figure();
    fb.draw_figure(6, 30, &f, GREEN_IDX);
    fb.draw_figure(-2, -2, &f, GREEN_IDX);
    // the clipped draws painted the in-grid cells and nothing panicked
    assert_eq!(fb.get(6, 30), GREEN_IDX);
}

#[test]
fn render_maps_indices_through_palette() {
    let mut fb = FrameBuffer::new();
    fb.set(0, 0, GREEN_IDX);
    fb.set(7, 31, RED_IDX);
    let mut leds = [Rgb { r: 0, g: 0, b: 0 }; 256];
    fb.render(&mut leds);
    assert_eq!(leds[0], color_of(GREEN_IDX));
    assert_eq!(leds[255], color_of(RED_IDX));
    assert_eq!(leds[1], color_of(0));
}
