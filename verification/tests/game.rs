use tetris_lib::color::{GREEN_IDX, PINK_IDX};
use tetris_lib::dot::Dot;
use tetris_lib::prng::Prng;
use tetris_lib::figure::tank_figure;
use tetris_lib::tanks::{Missile, Tank, TanksGame};

fn fresh_game() -> TanksGame {
    TanksGame::new(Prng::new(7), true)
}

#[test]
fn missile_visibility_needs_playfield_position() {
    assert!(!Missile::new(-1, -1, 0, 0).visible());
    assert!(Missile::new(0, 0, 0, 0).visible());
    assert!(Missile::new(7, 31, 1, 0).visible());
    assert!(!Missile::new(8, 0, 0, 0).visible());
    assert!(!Missile::new(0, 32, 0, 0).visible());
}

#[test]
fn missile_hides_when_leaving_grid() {
    let mut t = Tank::new(Dot::new(3, 16), -1, 3);
    t.missiles[0] = Missile::new(4, 0, 0, -1);
    t.move_missiles();
    assert!(!t.missiles[0].visible());
    assert_eq!(t.missiles[0].x, -1);
    assert_eq!(t.missiles[0].y, -1);
}

#[test]
fn fire_fills_first_free_slot() {
    let mut t = Tank::new(Dot::new(3, 16), -1, 3);
    t.fire();
    assert!(t.missiles[0].visible());
    assert!(!t.missiles[1].visible());
    // facing right: the missile starts right of the sprite center
    assert_eq!(t.missiles[0].x, 5);
    assert_eq!(t.missiles[0].y, 17);
    assert_eq!(t.missiles[0].dx, 1);
    assert_eq!(t.missiles[0].dy, 0);
    t.fire();
    assert!(t.missiles[1].visible());
}

#[test]
fn fire_with_full_pool_changes_nothing() {
    let mut t = Tank::new(Dot::new(3, 16), -1, 3);
    t.fire();
    t.fire();
    let before = t.missiles;
    t.fire();
    assert_eq!(t.missiles[0], before[0]);
    assert_eq!(t.missiles[1], before[1]);
}

#[test]
fn rotation_cycles_back_after_four_steps() {
    let mut t = Tank::new(Dot::new(3, 16), -1, 3);
    let fig0 = t.figure;
    for _ in 0..4 {
        assert!(t.rotate(&Dot::new(0, 0)));
    }
    assert_eq!(t.rotation, 2);
    assert_eq!(t.figure, fig0);
}

#[test]
fn rotate_toward_direction_reaches_it() {
    let mut t = Tank::new(Dot::new(3, 16), -1, 3);
    assert_eq!(t.direction(), Dot::new(1, 0));
    assert!(t.rotate(&Dot::new(0, 1)));
    assert_eq!(t.rotation, 3);
    assert_eq!(t.direction(), Dot::new(0, 1));
    // already facing down: no rotation happens
    assert!(!t.rotate(&Dot::new(0, 1)));
    assert_eq!(t.rotation, 3);
}

#[test]
fn hit_decrements_lives_to_death() {
    let mut t = Tank::new(Dot::new(2, 10), 0, 1);
    assert!(!t.is_dead());
    t.hit();
    assert!(t.is_dead());
    assert!(!t.is_dying());
    assert_eq!(t.lives, 0);
    t.hit();
    assert!(t.is_dying());
    assert_eq!(t.lives, -1);
}

#[test]
fn point_collision_matches_sprite_cells() {
    // a fresh tank's sprite (the base rotated twice) is:
    //  " # " / "###" / "# #"
    let t = Tank::new(Dot::new(2, 10), 0, 1);
    assert!(t.collides(Dot::new(3, 10)));
    assert!(!t.collides(Dot::new(2, 10)));
    assert!(t.collides(Dot::new(2, 11)));
    assert!(t.collides(Dot::new(4, 12)));
    assert!(!t.collides(Dot::new(3, 12)));
    assert!(!t.collides(Dot::new(-1, -1)));
}

#[test]
fn actor_overlap_detects_shared_cells() {
    let a = Tank::new(Dot::new(2, 10), 0, 1);
    let b = Tank::new(Dot::new(2, 10), 1, 1);
    assert!(a.overlaps_figure(b.pos.x, b.pos.y, &b.figure));
    assert!(a.overlaps_figure(4, 11, &b.figure));
    assert!(!a.overlaps_figure(5, 13, &b.figure));
}

#[test]
fn new_game_initial_state() {
    let g = fresh_game();
    assert_eq!(g.enemy_count, 0);
    assert_eq!(g.score, 0);
    assert_eq!(g.tank.pos, Dot::new(3, 16));
    assert_eq!(g.tank.lives, 3);
    assert!(!g.tank.missiles[0].visible());
    assert!(!g.tank.missiles[1].visible());
}

#[test]
fn player_move_blocked_by_drawn_pixel() {
    let mut g = fresh_game();
    // facing right; a painted pixel in the target footprint blocks the move
    g.screen.set(6, 17, PINK_IDX);
    g.move_player(Dot::new(1, 0));
    assert_eq!(g.tank.pos, Dot::new(3, 16));
    g.screen.clear();
    g.move_player(Dot::new(1, 0));
    assert_eq!(g.tank.pos, Dot::new(4, 16));
}

#[test]
fn player_rotates_then_moves_on_repeated_input() {
    let mut g = fresh_game();
    g.step = 0;
    // face down first, then feed "up" on two consecutive frames
    g.tank.rotate(&Dot::new(0, 1));
    g.begin_frame();
    g.step_frame(false, 0, -1);
    assert_eq!(g.tank.pos, Dot::new(3, 16));
    assert_eq!(g.tank.rotation, 1);
    g.begin_frame();
    g.step_frame(false, 0, -1);
    assert_eq!(g.tank.pos, Dot::new(3, 15));
}

#[test]
fn head_on_shot_kills_enemy_and_scores_once() {
    let mut g = fresh_game();
    g.enemies[0] = Tank::new(Dot::new(2, 10), 0, 1);
    g.enemy_count = 1;
    g.tank.rotate(&Dot::new(0, -1));
    g.tank.fire();
    assert_eq!(g.tank.missiles[0].x, 4);
    assert_eq!(g.tank.missiles[0].y, 15);
    for _ in 0..3 {
        g.move_missiles();
        g.check_collisions();
    }
    assert_eq!(g.enemies[0].lives, 0);
    assert_eq!(g.score, 1);
    assert!(!g.tank.missiles[0].visible());
    assert_eq!(g.tank.lives, 3);
}

#[test]
fn second_hit_on_dead_enemy_does_not_score() {
    // two missiles land on the same enemy in one tick: the kill scores
    // once, and the second hit on the already dead enemy does not
    let mut g = fresh_game();
    g.enemies[0] = Tank::new(Dot::new(2, 10), 0, 1);
    g.enemy_count = 1;
    g.tank.missiles[0] = Missile::new(3, 10, 0, 0);
    g.tank.missiles[1] = Missile::new(2, 11, 0, 0);
    g.check_collisions();
    assert_eq!(g.enemies[0].lives, -1);
    assert_eq!(g.score, 1);
    assert!(!g.tank.missiles[0].visible());
    assert!(!g.tank.missiles[1].visible());
}

#[test]
fn enemy_missile_hits_player_once_and_hides() {
    let mut g = fresh_game();
    let mut e = Tank::new(Dot::new(2, 10), 0, 1);
    e.missiles[0] = Missile::new(4, 17, 0, 1);
    g.enemies[0] = e;
    g.enemy_count = 1;
    g.check_collisions();
    assert_eq!(g.tank.lives, 2);
    assert!(!g.enemies[0].missiles[0].visible());
    assert_eq!(g.score, 0);
}

#[test]
fn spawn_adds_one_enemy_with_fresh_life() {
    let mut g = fresh_game();
    g.spawn_enemies();
    assert_eq!(g.enemy_count, 1);
    assert_eq!(g.enemies[0].lives, 1);
    assert!(g.enemies[0].origin >= 0 && g.enemies[0].origin < 4);
}

#[test]
fn spawn_with_three_enemies_is_a_no_op() {
    let mut g = fresh_game();
    g.enemies[0] = Tank::new(Dot::new(0, 6), 0, 1);
    g.enemies[1] = Tank::new(Dot::new(5, 6), 1, 1);
    g.enemies[2] = Tank::new(Dot::new(0, 29), 2, 1);
    g.enemy_count = 3;
    g.spawn_enemies();
    assert_eq!(g.enemy_count, 3);
}

#[test]
fn spawn_with_all_origins_taken_is_a_no_op() {
    let mut g = fresh_game();
    g.enemies[0] = Tank::new(Dot::new(0, 6), 0, 1);
    g.enemies[1] = Tank::new(Dot::new(5, 6), 1, 1);
    g.enemies[2] = Tank::new(Dot::new(0, 29), 2, 1);
    g.enemies[3] = Tank::new(Dot::new(5, 29), 3, 1);
    g.enemy_count = 4;
    g.spawn_enemies();
    assert_eq!(g.enemy_count, 4);
}

#[test]
fn dead_enemies_are_compacted_in_order() {
    let mut g = fresh_game();
    g.enemies[0] = Tank::new(Dot::new(0, 6), 0, 1);
    g.enemies[1] = Tank::new(Dot::new(5, 6), 1, 0);
    g.enemies[2] = Tank::new(Dot::new(0, 29), 2, 1);
    g.enemy_count = 3;
    g.remove_dead_enemies();
    assert_eq!(g.enemy_count, 2);
    assert_eq!(g.enemies[0].origin, 0);
    assert_eq!(g.enemies[1].origin, 2);
}

#[test]
fn ai_pass_keeps_enemy_count_within_cap() {
    let mut g = fresh_game();
    g.enemies[0] = Tank::new(Dot::new(0, 6), 0, 1);
    g.enemies[1] = Tank::new(Dot::new(5, 6), 1, 0);
    g.enemies[2] = Tank::new(Dot::new(0, 29), 2, 1);
    g.enemy_count = 3;
    g.ai();
    assert!(g.enemy_count <= 3);
    for i in 0..g.enemy_count {
        assert!(g.enemies[i].lives > 0);
    }
}

#[test]
fn first_frame_runs_the_ai_pass() {
    let mut g = fresh_game();
    g.begin_frame();
    g.step_frame(false, 0, 0);
    assert_eq!(g.enemy_count, 1);
    assert_eq!(g.step, 1);
}

#[test]
fn death_reduces_to_attract_state() {
    let mut g = fresh_game();
    for _ in 0..3 {
        g.tank.hit();
    }
    g.begin_frame();
    assert!(g.is_game_over());
    let score = g.score;
    let count = g.enemy_count;
    let lives = g.tank.lives;
    g.death_tick();
    assert_eq!(g.score, score);
    assert_eq!(g.enemy_count, count);
    assert_eq!(g.tank.lives, lives);
}

#[test]
fn death_tick_paints_one_deterministic_cell() {
    let mut g = TanksGame::new(Prng::new(42), false);
    g.screen.clear();
    g.death_tick();
    // seed 42: the three draws pick x = 0, y = 12, color = 3
    assert_eq!(g.screen.get(0, 12), 3);
}

#[test]
fn frame_ui_shows_delimiter_lives_and_score() {
    let mut g = fresh_game();
    g.begin_frame();
    for x in 0..8 {
        assert_eq!(g.screen.get(x, 5), PINK_IDX);
    }
    assert_eq!(g.screen.get(7, 0), PINK_IDX);
    assert_eq!(g.screen.get(7, 1), PINK_IDX);
    assert_eq!(g.screen.get(7, 2), PINK_IDX);
    assert_eq!(g.screen.get(7, 3), 0);
    // score 00: the top-left corner of each zero glyph is lit
    assert_eq!(g.screen.get(0, 0), GREEN_IDX);
    assert_eq!(g.screen.get(4, 0), GREEN_IDX);
    // the center of a zero glyph is a hole
    assert_eq!(g.screen.get(1, 1), 0);
}

#[test]
fn enemy_moves_stay_inside_their_box() {
    let mut g = TanksGame::new(Prng::new(99), true);
    g.enemies[0] = Tank::new(Dot::new(0, 6), 0, 1);
    g.enemies[1] = Tank::new(Dot::new(5, 29), 3, 1);
    g.enemy_count = 2;
    for _ in 0..50 {
        g.move_enemies();
        for i in 0..g.enemy_count {
            let p = g.enemies[i].pos;
            assert!(p.x >= 0 && p.x <= 5 && p.y >= 6 && p.y <= 29);
        }
    }
    assert_eq!(g.enemy_count, 2);
    assert_eq!(g.enemies[0].lives, 1);
    assert_eq!(g.enemies[1].lives, 1);
}

#[test]
fn figure_stays_in_lock_step_with_rotation() {
    let mut t = Tank::new(Dot::new(3, 16), -1, 3);
    t.rotate(&Dot::new(0, -1));
    assert_eq!(t.rotation, 1);
    assert_eq!(t.figure, tank_figure().rotate());
    t.rotate(&Dot::new(0, 1));
    assert_eq!(t.rotation, 3);
    assert_eq!(t.figure, tank_figure().rotate().rotate().rotate());
}

#[test]
fn collision_pass_without_enemies_changes_nothing() {
    let mut g = fresh_game();
    g.tank.fire();
    let before_missile = g.tank.missiles[0];
    g.check_collisions();
    assert_eq!(g.tank.lives, 3);
    assert_eq!(g.score, 0);
    assert_eq!(g.tank.missiles[0], before_missile);
}

#[test]
fn press_fires_during_a_frame() {
    let mut g = fresh_game();
    g.step = 0;
    g.begin_frame();
    g.step_frame(true, 0, 0);
    // fired at (5, 17) facing right, then advanced one step
    assert!(g.tank.missiles[0].visible());
    assert_eq!(g.tank.missiles[0].x, 6);
    assert_eq!(g.tank.missiles[0].y, 17);
}

#[test]
fn score_wraps_within_display_width() {
    let mut g = fresh_game();
    g.score = 255;
    g.enemies[0] = Tank::new(Dot::new(2, 10), 0, 1);
    g.enemy_count = 1;
    g.tank.missiles[0] = Missile::new(3, 10, 0, 0);
    g.check_collisions();
    assert_eq!(g.enemies[0].lives, 0);
    assert_eq!(g.score, 0);
}

#[test]
fn spawn_draws_are_deterministic() {
    // seed 7, empty field: all four origins are eligible, so the first
    // draw picks the fourth origin and the second picks one rotation
    let mut g = fresh_game();
    g.spawn_enemies();
    assert_eq!(g.enemy_count, 1);
    assert_eq!(g.enemies[0].origin, 3);
    assert_eq!(g.enemies[0].rotation, 1);
    assert_eq!(g.enemies[0].pos, Dot::new(5, 29));
}
