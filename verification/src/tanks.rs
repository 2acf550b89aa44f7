//! The Tanks game: missiles, tanks, and the game orchestrator with its
//! enemy AI, collision resolution, scoring and drawing.
use crate::color::{BRICK_IDX, COLORS_LEN, GREEN_IDX, PINK_IDX, RED_IDX};
use crate::digits::{digit_base, digit_figure};
use crate::dot::Dot;
use crate::figure::{
    covers, lemma_spin_center, lemma_spin_step, lemma_spin_wf, lemma_tank_base_wf, spin, tank_base,
    tank_figure, Figure, FigureV,
};
use crate::framebuffer::{in_grid, FrameBuffer};
use crate::prng::{spec_next_state, Prng};
use vstd::prelude::*;

verus! {

broadcast use vstd::array::group_array_axioms;

/// A single projectile: position, unit velocity, and visibility
/// implied by the position lying on the 8x32 grid.
#[derive(Clone, Copy, PartialEq, Eq, Structural, Debug)]
pub struct Missile {
    pub x: i8,
    pub y: i8,
    pub dx: i8,
    pub dy: i8,
}

/// A missile whose position already left the playfield far enough, or
/// whose velocity is not a unit step, never occurs; this bound keeps
/// every coordinate update inside `i8`.
pub open spec fn missile_wf(m: Missile) -> bool {
    &&& -1 <= m.dx <= 1
    &&& -1 <= m.dy <= 1
    &&& -40 <= m.x <= 40
    &&& -40 <= m.y <= 40
}

/// The hidden missile: parked at `(-1, -1)` outside the grid.
pub open spec fn spec_hidden(m: Missile) -> Missile {
    Missile { x: -1i8, y: -1i8, dx: m.dx, dy: m.dy }
}

/// One advancement tick of a missile: a visible missile moves by its
/// velocity and is parked at `(-1, -1)` if that leaves the grid; a
/// hidden missile stays put.
pub open spec fn spec_step_missile(m: Missile) -> Missile {
    if m.spec_visible() {
        let n = Missile { x: (m.x + m.dx) as i8, y: (m.y + m.dy) as i8, dx: m.dx, dy: m.dy };
        if n.spec_visible() {
            n
        } else {
            spec_hidden(m)
        }
    } else {
        m
    }
}

impl Missile {
    /// Visible exactly when the position lies inside `[0,8) x [0,32)`.
    pub open spec fn spec_visible(self) -> bool {
        0 <= self.x < 8 && 0 <= self.y < 32
    }

    pub fn new(x: i8, y: i8, dx: i8, dy: i8) -> (m: Missile)
        ensures
            m == (Missile { x, y, dx, dy }),
    {
        Missile { x, y, dx, dy }
    }

    /// Advances the missile one step along its velocity.
    pub fn move_(&mut self)
        requires
            missile_wf(*old(self)),
        ensures
            final(self).x == old(self).x + old(self).dx,
            final(self).y == old(self).y + old(self).dy,
            final(self).dx == old(self).dx,
            final(self).dy == old(self).dy,
    {
        self.x = self.x + self.dx;
        self.y = self.y + self.dy;
    }

    /// A missile with a position outside the playfield always reports
    /// itself invisible.
    pub fn visible(&self) -> (r: bool)
        ensures
            r == self.spec_visible(),
    {
        self.x >= 0 && self.x < 8 && self.y >= 0 && self.y < 32
    }

    /// Parks the missile outside the grid.
    pub fn conceal(&mut self)
        ensures
            *final(self) == spec_hidden(*old(self)),
    {
        self.x = -1;
        self.y = -1;
    }
}

/// The facing direction bound to rotation state `r`: left, up, right,
/// down for `r = 0, 1, 2, 3`.
pub open spec fn dir_of(r: int) -> Dot {
    if r == 0 {
        Dot { x: -1i8, y: 0i8 }
    } else if r == 1 {
        Dot { x: 0i8, y: -1i8 }
    } else if r == 2 {
        Dot { x: 1i8, y: 0i8 }
    } else {
        Dot { x: 0i8, y: 1i8 }
    }
}

/// The rotation state whose facing is the cardinal direction `d`.
pub open spec fn dir_index(d: Dot) -> int {
    if d == (Dot { x: -1i8, y: 0i8 }) {
        0
    } else if d == (Dot { x: 0i8, y: -1i8 }) {
        1
    } else if d == (Dot { x: 1i8, y: 0i8 }) {
        2
    } else {
        3
    }
}

/// `lives` decremented by one, saturating at the bottom of `i8`.
pub open spec fn sat_dec(l: int) -> int {
    if l <= -128 {
        -128int
    } else {
        l - 1
    }
}

/// An actor: position, rotation state with its figure in lock-step, a
/// two-slot missile pool, a spawn-origin tag and a life counter.
#[derive(Clone, Copy, PartialEq, Eq, Debug)]
pub struct Tank {
    pub missiles: [Missile; 2],
    pub pos: Dot,
    pub origin: i8,
    pub rotation: u8,
    pub figure: Figure,
    pub lives: i8,
}

/// The missile a tank at `pos` facing `d` fires: placed one cell past
/// the sprite's center along `d`, moving with velocity `d`.
pub open spec fn spec_fired(pos: Dot, d: Dot) -> Missile {
    Missile {
        x: (pos.x + 1 + d.x - (if d.x < 0 {
            1int
        } else {
            0int
        })) as i8,
        y: (pos.y + 1 + d.y - (if d.y < 0 {
            1int
        } else {
            0int
        })) as i8,
        dx: d.x,
        dy: d.y,
    }
}

impl Tank {
    /// Well-formed tank: rotation is one of the four facings, the
    /// figure is the base sprite rotated exactly `rotation` times
    /// (direction/rotation lock-step), the position stays near the
    /// playfield, and both missiles are well-formed.
    pub open spec fn wf(self) -> bool {
        &&& self.rotation < 4
        &&& self.figure@ == spin(tank_base(), self.rotation as int)
        &&& self.figure@.wf()
        &&& -7 <= self.pos.x <= 7
        &&& -7 <= self.pos.y <= 31
        &&& missile_wf(self.missiles@[0])
        &&& missile_wf(self.missiles@[1])
    }

    /// True when some solid cell of the tank's sprite lies on `p`.
    pub open spec fn spec_collides(self, p: Dot) -> bool {
        covers(self.figure@, self.pos.x as int, self.pos.y as int, p.x as int, p.y as int)
    }

    /// True when the tank's sprite and `f` placed at `(x, y)` share a
    /// solid cell.
    pub open spec fn spec_overlaps(self, x: int, y: int, f: FigureV) -> bool {
        exists|c: int, r: int|
            0 <= c < self.figure@.w && 0 <= r < self.figure@.h && #[trigger] self.figure@.cell(c, r)
                && covers(f, x, y, self.pos.x + c, self.pos.y + r)
    }

    /// A fresh tank: both missile slots hidden, facing right
    /// (rotation 2), the sprite in lock-step with that rotation.
    pub fn new(pos: Dot, origin: i8, lives: i8) -> (t: Tank)
        requires
            -7 <= pos.x <= 7,
            -7 <= pos.y <= 31,
        ensures
            t.wf(),
            t.pos == pos,
            t.origin == origin,
            t.lives == lives,
            t.rotation == 2,
            t.missiles@[0] == (Missile { x: -1i8, y: -1i8, dx: 0i8, dy: 0i8 }),
            t.missiles@[1] == (Missile { x: -1i8, y: -1i8, dx: 0i8, dy: 0i8 }),
    {
        let f0 = tank_figure();
        let f1 = f0.rotate();
        let f2 = f1.rotate();
        proof {
            reveal_with_fuel(spin, 3);
            lemma_tank_base_wf();
            lemma_spin_wf(tank_base(), 2);
        }
        Tank {
            missiles: [Missile::new(-1, -1, 0, 0);2],
            pos,
            origin,
            rotation: 2,
            figure: f2,
            lives,
        }
    }

    /// The direction the tank currently faces.
    pub fn direction(&self) -> (d: Dot)
        requires
            self.rotation < 4,
        ensures
            d == dir_of(self.rotation as int),
    {
        if self.rotation == 0 {
            Dot::new(-1, 0)
        } else if self.rotation == 1 {
            Dot::new(0, -1)
        } else if self.rotation == 2 {
            Dot::new(1, 0)
        } else {
            Dot::new(0, 1)
        }
    }

    /// Rotates the tank. A zero `direction` means one 90-degree step;
    /// a cardinal `direction` rotates until the tank faces it. Returns
    /// whether any rotation happened.
    pub fn rotate(&mut self, direction: &Dot) -> (r: bool)
        requires
            old(self).wf(),
            direction.spec_is_zero() || direction.spec_is_cardinal(),
        ensures
            final(self).wf(),
            final(self).pos == old(self).pos,
            final(self).missiles == old(self).missiles,
            final(self).lives == old(self).lives,
            final(self).origin == old(self).origin,
            direction.spec_is_zero() ==> final(self).rotation == (old(self).rotation + 1) % 4 && r,
            !direction.spec_is_zero() ==> final(self).rotation == dir_index(*direction) && r == (
            old(self).rotation != dir_index(*direction)),
    {
        if direction.is_zero() {
            proof {
                lemma_spin_step(self.rotation as int);
                lemma_spin_wf(tank_base(), ((self.rotation + 1) % 4) as int);
                lemma_tank_base_wf();
            }
            self.figure = self.figure.rotate();
            self.rotation = (self.rotation + 1) % 4;
            return true;
        }
        let ghost rot0 = old(self).rotation as int;
        let ghost t = (dir_index(*direction) - rot0) % 4;
        proof {
            assert(0 <= dir_index(*direction) < 4);
            assert(0 <= t < 4);
        }
        let mut rotated: usize = 0;
        loop
            invariant
                self.wf(),
                self.pos == old(self).pos,
                self.missiles == old(self).missiles,
                self.lives == old(self).lives,
                self.origin == old(self).origin,
                rotated <= t,
                self.rotation as int == (rot0 + rotated) % 4,
            decreases t - rotated,
        {
            let d = self.direction();
            if d.x == direction.x && d.y == direction.y {
                break ;
            }
            proof {
                assert(dir_of(self.rotation as int) != *direction);
                assert(self.rotation as int != dir_index(*direction));
                assert(rotated < t) by {
                    if rotated == t {
                        assert((rot0 + t) % 4 == dir_index(*direction));
                    }
                }
                lemma_spin_step(self.rotation as int);
                lemma_spin_wf(tank_base(), ((self.rotation + 1) % 4) as int);
                lemma_tank_base_wf();
            }
            self.figure = self.figure.rotate();
            self.rotation = (self.rotation + 1) % 4;
            rotated = rotated + 1;
            if rotated == 4 {
                // a cardinal direction is reached within three steps
                proof {
                    assert(false);
                }
                return false;
            }
        }
        proof {
            assert(dir_of(self.rotation as int) == *direction);
            assert(self.rotation as int == dir_index(*direction));
            assert(rotated == t) by {
                if rotated < t {
                    assert((rot0 + rotated) % 4 != dir_index(*direction)) by {
                        if (rot0 + rotated) % 4 == dir_index(*direction) {
                            assert((dir_index(*direction) - rot0) % 4 == rotated);
                        }
                    }
                }
            }
            assert((rotated > 0) == (old(self).rotation != dir_index(*direction))) by {
                if t == 0 {
                    assert(rot0 % 4 == dir_index(*direction) % 4);
                }
            }
        }
        rotated > 0
    }

    /// Fires one missile if a pool slot is free: the first hidden slot
    /// becomes the fired missile; when both slots are visible the fire
    /// request changes nothing (the missile pool bound).
    pub fn fire(&mut self)
        requires
            old(self).wf(),
        ensures
            final(self).wf(),
            final(self).pos == old(self).pos,
            final(self).rotation == old(self).rotation,
            final(self).figure == old(self).figure,
            final(self).lives == old(self).lives,
            final(self).origin == old(self).origin,
            !old(self).missiles@[0].spec_visible() ==> final(self).missiles@[0] == spec_fired(
                old(self).pos,
                dir_of(old(self).rotation as int),
            ) && final(self).missiles@[1] == old(self).missiles@[1],
            old(self).missiles@[0].spec_visible() && !old(self).missiles@[1].spec_visible() ==> {
                &&& final(self).missiles@[0] == old(self).missiles@[0]
                &&& final(self).missiles@[1] == spec_fired(
                    old(self).pos,
                    dir_of(old(self).rotation as int),
                )
            },
            old(self).missiles@[0].spec_visible() && old(self).missiles@[1].spec_visible()
                ==> final(self).missiles == old(self).missiles,
    {
        let direction = self.direction();
        if !self.missiles[0].visible() {
            let m = self.fired_missile(direction);
            self.missiles[0] = m;
        } else if !self.missiles[1].visible() {
            let m = self.fired_missile(direction);
            self.missiles[1] = m;
        }
    }

    /// Builds the missile that a fire from the current position along
    /// `d` produces.
    fn fired_missile(&self, d: Dot) -> (m: Missile)
        requires
            -7 <= self.pos.x <= 7,
            -7 <= self.pos.y <= 31,
            -1 <= d.x <= 1,
            -1 <= d.y <= 1,
        ensures
            m == spec_fired(self.pos, d),
            missile_wf(m),
    {
        let mut mx = self.pos.x + 1 + d.x;
        let mut my = self.pos.y + 1 + d.y;
        if d.x < 0 {
            mx = mx - 1;
        }
        if d.y < 0 {
            my = my - 1;
        }
        Missile { x: mx, y: my, dx: d.x, dy: d.y }
    }

    /// Advances both missiles, hiding any that leaves the playfield.
    pub fn move_missiles(&mut self)
        requires
            old(self).wf(),
        ensures
            final(self).wf(),
            final(self).pos == old(self).pos,
            final(self).rotation == old(self).rotation,
            final(self).figure == old(self).figure,
            final(self).lives == old(self).lives,
            final(self).origin == old(self).origin,
            final(self).missiles@[0] == spec_step_missile(old(self).missiles@[0]),
            final(self).missiles@[1] == spec_step_missile(old(self).missiles@[1]),
    {
        let mut m0 = self.missiles[0];
        if m0.visible() {
            m0.move_();
            if !m0.visible() {
                m0.conceal();
            }
            self.missiles[0] = m0;
        }
        let mut m1 = self.missiles[1];
        if m1.visible() {
            m1.move_();
            if !m1.visible() {
                m1.conceal();
            }
            self.missiles[1] = m1;
        }
    }

    /// Point collision: whether the single cell `p` lies on a solid
    /// cell of the tank's sprite. Used for missile hit detection.
    pub fn collides(&self, p: Dot) -> (r: bool)
        requires
            self.figure@.wf(),
        ensures
            r == self.spec_collides(p),
    {
        let c = p.x as i16 - self.pos.x as i16;
        let r = p.y as i16 - self.pos.y as i16;
        if c >= 0 && c < self.figure.width() as i16 && r >= 0 && r < self.figure.height() as i16 {
            self.figure.get_bit(c as usize, r as usize)
        } else {
            false
        }
    }

    /// Actor overlap: brute-force bit-by-bit intersection between the
    /// tank's sprite and `figure` placed at `(x, y)`.
    pub fn overlaps_figure(&self, x: i8, y: i8, figure: &Figure) -> (r: bool)
        requires
            self.figure@.wf(),
            figure@.wf(),
        ensures
            r == self.spec_overlaps(x as int, y as int, figure@),
    {
        let w = self.figure.width();
        let h = self.figure.height();
        let mut row: usize = 0;
        while row < h
            invariant
                row <= h,
                forall|c: int, r: int|
                    0 <= c < self.figure@.w && 0 <= r < row && #[trigger] self.figure@.cell(c, r)
                        ==> !covers(figure@, x as int, y as int, self.pos.x + c, self.pos.y + r),
            decreases h - row,
        {
            let mut col: usize = 0;
            while col < w
                invariant
                    row < h,
                    col <= w,
                    forall|c: int, r: int|
                        0 <= c < self.figure@.w && 0 <= r < row && #[trigger] self.figure@.cell(
                            c,
                            r,
                        ) ==> !covers(figure@, x as int, y as int, self.pos.x + c, self.pos.y + r),
                    forall|c: int|
                        0 <= c < col && #[trigger] self.figure@.cell(c, row as int) ==> !covers(
                            figure@,
                            x as int,
                            y as int,
                            self.pos.x + c,
                            self.pos.y + row,
                        ),
                decreases w - col,
            {
                if self.figure.get_bit(col, row) {
                    let px = self.pos.x as i16 + col as i16;
                    let py = self.pos.y as i16 + row as i16;
                    let oc = px - x as i16;
                    let or = py - y as i16;
                    if oc >= 0 && oc < figure.width() as i16 && or >= 0 && or < figure.height()
                        as i16 {
                        if figure.get_bit(oc as usize, or as usize) {
                            return true;
                        }
                    }
                }
                col = col + 1;
            }
            row = row + 1;
        }
        false
    }

    /// One hit: decrements the life counter (saturating at the bottom
    /// of `i8`, which normal play never reaches).
    pub fn hit(&mut self)
        ensures
            final(self).lives == sat_dec(old(self).lives as int),
            final(self).pos == old(self).pos,
            final(self).rotation == old(self).rotation,
            final(self).figure == old(self).figure,
            final(self).missiles == old(self).missiles,
            final(self).origin == old(self).origin,
            old(self).wf() ==> final(self).wf(),
    {
        if self.lives > i8::MIN {
            self.lives = self.lives - 1;
        }
    }

    /// Dead or dying: no lives left.
    pub fn is_dead(&self) -> (r: bool)
        ensures
            r == (self.lives <= 0),
    {
        self.lives <= 0
    }

    /// Already past death this tick: excluded from AI action.
    pub fn is_dying(&self) -> (r: bool)
        ensures
            r == (self.lives < 0),
    {
        self.lives < 0
    }
}

/// Direction/rotation lock-step: a well-formed tank's figure is always
/// the base sprite rotated exactly `rotation` times, whatever sequence
/// of rotations produced it.
pub proof fn lemma_direction_rotation_lock_step(t: Tank)
    requires
        t.wf(),
    ensures
        t.figure@ == spin(tank_base(), t.rotation as int),
        t.rotation < 4,
{
}

/// An enemy tank's position box: enemies spawn inside it and their
/// moves are clamped to it, keeping them below the score rows.
pub open spec fn enemy_in_box(t: Tank) -> bool {
    0 <= t.pos.x <= 5 && 6 <= t.pos.y <= 29
}

/// The four fixed spawn coordinates, by origin index.
pub open spec fn spawn_pos(idx: int) -> Dot {
    if idx == 0 {
        Dot { x: 0i8, y: 6i8 }
    } else if idx == 1 {
        Dot { x: 5i8, y: 6i8 }
    } else if idx == 2 {
        Dot { x: 0i8, y: 29i8 }
    } else {
        Dot { x: 5i8, y: 29i8 }
    }
}

/// The live prefix of an enemy array: the tanks among the first `n`
/// with lives left, in their original order. Dead-enemy compaction
/// leaves exactly this sequence.
pub open spec fn live_filter(s: Seq<Tank>, n: int) -> Seq<Tank>
    decreases n,
{
    if n <= 0 {
        Seq::empty()
    } else {
        let pre = live_filter(s, n - 1);
        if s[n - 1].lives > 0 {
            pre.push(s[n - 1])
        } else {
            pre
        }
    }
}

/// The number of `true` entries among the first `n` of `s`.
spec fn count_true(s: Seq<bool>, n: int) -> int
    decreases n,
{
    if n <= 0 {
        0
    } else {
        count_true(s, n - 1) + (if s[n - 1] {
            1int
        } else {
            0int
        })
    }
}

/// The Tanks game state: one player tank, up to four enemies with a
/// live count, the score, the session generator and the frame buffer,
/// plus the AI-cadence accumulator.
pub struct TanksGame {
    pub screen: FrameBuffer,
    pub tank: Tank,
    pub enemies: [Tank; 4],
    pub enemy_count: usize,
    pub score: u8,
    pub prng: Prng,
    pub test_mode: bool,
    pub step: u8,
}

impl TanksGame {
    /// Well-formed game: every tank well-formed, enemies within their
    /// box, the enemy cap respected, the screen valid, and the AI
    /// accumulator bounded.
    pub open spec fn wf(self) -> bool {
        &&& self.tank.wf()
        &&& self.tank.lives <= 3
        &&& self.enemy_count <= 4
        &&& forall|i: int| 0 <= i < 4 ==> (#[trigger] self.enemies@[i]).wf()
        &&& forall|i: int| 0 <= i < self.enemy_count ==> enemy_in_box(#[trigger] self.enemies@[i])
        &&& self.screen.wf()
        &&& self.step <= 35
    }

    /// The single movement-legality rule: placing `f` at `(x, y)`
    /// collides if it hits the drawn background, overlaps the live
    /// player (unless excluded), or overlaps a live enemy other than
    /// the excluded one.
    pub open spec fn spec_collides_at(
        self,
        x: int,
        y: int,
        f: FigureV,
        exclude_player: bool,
        exclude_enemy: Option<usize>,
    ) -> bool {
        ||| self.screen.spec_collides(x, y, f)
        ||| (!exclude_player && self.tank.lives > 0 && self.tank.spec_overlaps(x, y, f))
        ||| exists|i: int|
            0 <= i < self.enemy_count && (#[trigger] self.enemies@[i]).lives > 0 && exclude_enemy
                != Some(i as usize) && self.enemies@[i].spec_overlaps(x, y, f)
    }

    /// One origin index is taken while some current enemy carries it.
    pub open spec fn origin_used(self, idx: int) -> bool {
        exists|j: int| 0 <= j < self.enemy_count && (#[trigger] self.enemies@[j]).origin == idx
    }

    /// An origin is eligible for a spawn when no current enemy carries
    /// it and the spawn footprint does not overlap the player.
    pub open spec fn spawn_eligible(self, idx: int) -> bool {
        &&& !self.origin_used(idx)
        &&& !self.tank.spec_overlaps(
            spawn_pos(idx).x as int,
            spawn_pos(idx).y as int,
            spin(tank_base(), 2),
        )
    }

    /// A fresh session: player at `(3, 16)` with 3 lives, no enemies,
    /// zero score, and the AI accumulator primed so the first frame
    /// runs an AI pass.
    pub fn new(prng: Prng, test_mode: bool) -> (g: TanksGame)
        ensures
            g.wf(),
            g.enemy_count == 0,
            g.score == 0,
            g.step == 10,
            g.prng == prng,
            g.test_mode == test_mode,
            g.tank.pos == (Dot { x: 3i8, y: 16i8 }),
            g.tank.lives == 3,
            g.tank.rotation == 2,
            g.tank.origin == -1,
            g.tank.missiles@[0] == (Missile { x: -1i8, y: -1i8, dx: 0i8, dy: 0i8 }),
            g.tank.missiles@[1] == (Missile { x: -1i8, y: -1i8, dx: 0i8, dy: 0i8 }),
            forall|i: int| 0 <= i < 256 ==> #[trigger] g.screen.cells@[i] == 0,
    {
        TanksGame {
            screen: FrameBuffer::new(),
            tank: Tank::new(Dot::new(3, 16), -1, 3),
            enemies: [Tank::new(Dot::new(0, 0), 0, 1);4],
            enemy_count: 0,
            score: 0,
            prng,
            test_mode,
            step: 10,
        }
    }

    /// The uniform movement-legality test for a proposed placement.
    pub fn collides(
        &self,
        x: i8,
        y: i8,
        tank: &Tank,
        exclude_player: bool,
        exclude_enemy_idx: Option<usize>,
    ) -> (hit: bool)
        requires
            self.wf(),
            tank.figure@.wf(),
        ensures
            hit == self.spec_collides_at(
                x as int,
                y as int,
                tank.figure@,
                exclude_player,
                exclude_enemy_idx,
            ),
    {
        if self.screen.collides(x, y, &tank.figure) {
            return true;
        }
        if !exclude_player && !self.tank.is_dead() && self.tank.overlaps_figure(
            x,
            y,
            &tank.figure,
        ) {
            return true;
        }
        let mut i: usize = 0;
        while i < self.enemy_count
            invariant
                i <= self.enemy_count,
                forall|j: int|
                    0 <= j < i ==> !((#[trigger] self.enemies@[j]).lives > 0 && exclude_enemy_idx
                        != Some(j as usize) && self.enemies@[j].spec_overlaps(
                        x as int,
                        y as int,
                        tank.figure@,
                    )),
            decreases self.enemy_count - i,
        {
            let excluded = match exclude_enemy_idx {
                Option::Some(j) => j == i,
                Option::None => false,
            };
            if !self.enemies[i].is_dead() && !excluded && self.enemies[i].overlaps_figure(
                x,
                y,
                &tank.figure,
            ) {
                return true;
            }
            i = i + 1;
        }
        false
    }

    /// One AI pass: spawn, move, then compact dead enemies, in that
    /// order (the callees' contracts fix each stage exactly). The
    /// enemy count never exceeds 3 right after the spawn decision,
    /// compaction can only lower it, and when a spawn is owed (room,
    /// an eligible origin, and no dead enemy awaiting compaction) the
    /// pass ends with exactly one enemy more.
    pub fn ai(&mut self)
        requires
            old(self).wf(),
        ensures
            final(self).wf(),
            final(self).tank == old(self).tank,
            final(self).screen == old(self).screen,
            final(self).score == old(self).score,
            final(self).step == old(self).step,
            final(self).test_mode == old(self).test_mode,
            final(self).enemy_count <= 3 || final(self).enemy_count == old(self).enemy_count,
            forall|i: int|
                0 <= i < final(self).enemy_count ==> (#[trigger] final(self).enemies@[i]).lives
                    > 0,
            (old(self).enemy_count < 3 && (exists|idx: int|
                0 <= idx < 4 && old(self).spawn_eligible(idx)) && (forall|i: int|
                0 <= i < old(self).enemy_count ==> (#[trigger] old(self).enemies@[i]).lives > 0))
                ==> final(self).enemy_count == old(self).enemy_count + 1,
            (old(self).enemy_count >= 3 && (forall|i: int|
                0 <= i < old(self).enemy_count ==> (#[trigger] old(self).enemies@[i]).lives > 0))
                ==> final(self).enemy_count == old(self).enemy_count,
    {
        let ghost grew = old(self).enemy_count < 3 && (exists|idx: int|
            0 <= idx < 4 && old(self).spawn_eligible(idx));
        self.spawn_enemies();
        let ghost after_spawn = *self;
        self.move_enemies();
        let ghost after_move = *self;
        self.remove_dead_enemies();
        proof {
            if forall|i: int|
                0 <= i < old(self).enemy_count ==> (#[trigger] old(self).enemies@[i]).lives > 0 {
                if grew || old(self).enemy_count >= 3 {
                    assert forall|i: int| 0 <= i < after_move.enemy_count implies (
                    #[trigger] after_move.enemies@[i]).lives > 0 by {
                        assert(after_move.enemies@[i].lives == after_spawn.enemies@[i].lives);
                    }
                    lemma_live_filter_all_alive(
                        after_move.enemies@,
                        after_move.enemy_count as int,
                    );
                    assert(final(self).enemies@.subrange(
                        0,
                        final(self).enemy_count as int,
                    ).len() == after_move.enemy_count as int);
                }
            }
        }
    }

    /// Spawn decision: when fewer than 3 enemies are alive, collect
    /// the eligible origins and spawn one enemy on a uniformly chosen
    /// eligible origin with a uniformly random initial facing; when no
    /// origin is eligible nothing changes.
    pub fn spawn_enemies(&mut self)
        requires
            old(self).wf(),
        ensures
            final(self).wf(),
            final(self).tank == old(self).tank,
            final(self).screen == old(self).screen,
            final(self).score == old(self).score,
            final(self).step == old(self).step,
            final(self).test_mode == old(self).test_mode,
            old(self).enemy_count >= 3 ==> *final(self) == *old(self),
            forall|i: int|
                0 <= i < old(self).enemy_count ==> #[trigger] final(self).enemies@[i] == old(self).enemies@[i],
            final(self).enemy_count == old(self).enemy_count || final(self).enemy_count == old(self).enemy_count + 1,
            final(self).enemy_count <= 3 || final(self).enemy_count == old(self).enemy_count,
            (old(self).enemy_count < 3 && exists|idx: int|
                0 <= idx < 4 && old(self).spawn_eligible(idx)) ==> final(self).enemy_count == old(self).enemy_count + 1,
            (forall|idx: int| 0 <= idx < 4 ==> !old(self).spawn_eligible(idx)) ==> *final(self)
                == *old(self),
            final(self).enemy_count == old(self).enemy_count + 1 ==> {
                let e = final(self).enemies@[old(self).enemy_count as int];
                &&& e.wf()
                &&& e.lives == 1
                &&& 0 <= e.origin < 4
                &&& old(self).spawn_eligible(e.origin as int)
                &&& e.pos == spawn_pos(e.origin as int)
                &&& !e.missiles@[0].spec_visible()
                &&& !e.missiles@[1].spec_visible()
            },
            final(self).enemy_count == old(self).enemy_count + 1 ==> ({
                let s1 = spec_next_state(old(self).prng.state);
                let s2 = spec_next_state(s1);
                let ec = eligible_count_upto(*old(self), 4);
                let e = final(self).enemies@[old(self).enemy_count as int];
                &&& final(self).prng.state == s2
                &&& e.origin as int == nth_eligible_from(
                    *old(self),
                    (s1 % (ec as u32)) as int,
                    0,
                )
                &&& e.rotation as int == (2 + (s2 % 4) as int) % 4
            }),
    {
        if self.enemy_count >= 3 || self.enemy_count >= 4 {
            return ;
        }
        let spawns: [Dot; 4] = [Dot::new(0, 6), Dot::new(5, 6), Dot::new(0, 29), Dot::new(5, 29)];
        let test_figure = {
            let t = tank_figure();
            let t = t.rotate();
            t.rotate()
        };
        proof {
            reveal_with_fuel(spin, 3);
            lemma_tank_base_wf();
            lemma_spin_wf(tank_base(), 2);
            assert(test_figure@ == spin(tank_base(), 2));
        }
        let mut available_spawns: [bool; 4] = [false;4];
        let mut available_count: u8 = 0;
        let mut idx: usize = 0;
        while idx < 4
            invariant
                idx <= 4,
                forall|k: int|
                    0 <= k < idx ==> #[trigger] available_spawns@[k] == self.spawn_eligible(k),
                forall|k: int| idx <= k < 4 ==> !(#[trigger] available_spawns@[k]),
                available_count as int == count_true(available_spawns@, idx as int),
                available_count <= idx,
            decreases 4 - idx,
        {
            let mut used = false;
            let mut j: usize = 0;
            while j < self.enemy_count
                invariant
                    j <= self.enemy_count,
                    used == exists|k: int|
                        0 <= k < j && (#[trigger] self.enemies@[k]).origin == idx as i8,
                decreases self.enemy_count - j,
            {
                if self.enemies[j].origin == idx as i8 {
                    used = true;
                }
                j = j + 1;
            }
            let ghost pre_spawns = available_spawns@;
            if !used {
                let spawn_p = spawns[idx];
                if !self.tank.overlaps_figure(spawn_p.x, spawn_p.y, &test_figure) {
                    available_spawns[idx] = true;
                    available_count = available_count + 1;
                }
            }
            proof {
                assert(count_true(available_spawns@, idx + 1) == count_true(
                    available_spawns@,
                    idx as int,
                ) + (if available_spawns@[idx as int] {
                    1int
                } else {
                    0int
                }));
                assert forall|n: int| 0 <= n <= idx implies count_true(available_spawns@, n)
                    == count_true(pre_spawns, n) by {
                    lemma_count_true_agree(available_spawns@, pre_spawns, n);
                }
            }
            idx = idx + 1;
        }
        if available_count > 0 {
            proof {
                lemma_eligible_counts_match(*old(self), available_spawns@, 4);
            }
            let target = self.prng.next_range(available_count);
            let mut current: u8 = 0;
            let mut pick: usize = 4;
            let mut k: usize = 0;
            while k < 4
                invariant
                    k <= 4,
                    pick <= 4,
                    pick == 4 ==> current as int == count_true(available_spawns@, k as int)
                        && current <= target,
                    pick < 4 ==> available_spawns@[pick as int] && self.spawn_eligible(pick as int),
                    pick == 4 ==> nth_eligible_from(
                        *old(self),
                        target as int - current as int,
                        k as int,
                    ) == nth_eligible_from(*old(self), target as int, 0),
                    pick < 4 ==> pick as int == nth_eligible_from(*old(self), target as int, 0),
                    forall|n: int|
                        0 <= n < 4 ==> #[trigger] available_spawns@[n] == self.spawn_eligible(n),
                    forall|n: int|
                        0 <= n < 4 ==> #[trigger] available_spawns@[n] == old(
                            self,
                        ).spawn_eligible(n),
                    (target as int) < count_true(available_spawns@, 4),
                decreases 4 - k,
            {
                if available_spawns[k] {
                    if current == target && pick == 4 {
                        pick = k;
                    } else if pick == 4 {
                        current = current + 1;
                    }
                }
                proof {
                    if pick == 4 {
                        assert(count_true(available_spawns@, k + 1) == count_true(
                            available_spawns@,
                            k as int,
                        ) + (if available_spawns@[k as int] {
                            1int
                        } else {
                            0int
                        }));
                    }
                }
                k = k + 1;
            }
            if pick < 4 {
                let mut enemy = Tank::new(spawns[pick], pick as i8, 1);
                let target_rotation = self.prng.next_range(4);
                let mut r: u8 = 0;
                while r < target_rotation
                    invariant
                        r <= target_rotation,
                        enemy.wf(),
                        enemy.pos == spawns@[pick as int],
                        enemy.origin == pick as i8,
                        enemy.lives == 1,
                        enemy.rotation as int == (2 + r as int) % 4,
                        !enemy.missiles@[0].spec_visible(),
                        !enemy.missiles@[1].spec_visible(),
                    decreases target_rotation - r,
                {
                    enemy.rotate(&Dot::new(0, 0));
                    r = r + 1;
                }
                self.enemies[self.enemy_count] = enemy;
                self.enemy_count = self.enemy_count + 1;
                proof {
                    let s1 = spec_next_state(old(self).prng.state);
                    let s2 = spec_next_state(s1);
                    let ec = eligible_count_upto(*old(self), 4);
                    assert(self.prng.state == s2);
                    assert(available_count as int == ec);
                    assert(target as int == (s1 % (ec as u32)) as int);
                    assert(enemy.origin as int == nth_eligible_from(*old(self), target as int, 0));
                    assert(enemy.rotation as int == (2 + (s2 % 4) as int) % 4);
                }
            } else {
                proof {
                    assert(current as int == count_true(available_spawns@, 4));
                    assert(false);
                }
            }
        } else {
            proof {
                assert(count_true(available_spawns@, 4) == 0);
                lemma_count_true_zero(available_spawns@, 4);
                assert forall|idx2: int| 0 <= idx2 < 4 implies !self.spawn_eligible(idx2) by {
                    assert(!available_spawns@[idx2]);
                }
            }
        }
    }
}

/// When every enemy in the prefix is alive, compaction removes
/// nothing: the live filter keeps all `n` entries.
proof fn lemma_live_filter_all_alive(s: Seq<Tank>, n: int)
    requires
        0 <= n,
        forall|k: int| 0 <= k < n ==> (#[trigger] s[k]).lives > 0,
    ensures
        live_filter(s, n).len() == n,
    decreases n,
{
    if n > 0 {
        lemma_live_filter_all_alive(s, n - 1);
    }
}

/// Two prefixes of equal sequences count equally many `true` entries.
proof fn lemma_count_true_agree(a: Seq<bool>, b: Seq<bool>, n: int)
    requires
        0 <= n <= a.len(),
        n <= b.len(),
        forall|i: int| 0 <= i < n ==> a[i] == b[i],
    ensures
        count_true(a, n) == count_true(b, n),
    decreases n,
{
    if n > 0 {
        lemma_count_true_agree(a, b, n - 1);
    }
}

/// A prefix with no `true` entry counts zero, and conversely.
proof fn lemma_count_true_zero(a: Seq<bool>, n: int)
    requires
        0 <= n <= a.len(),
        count_true(a, n) == 0,
    ensures
        forall|i: int| 0 <= i < n ==> !a[i],
    decreases n,
{
    if n > 0 {
        assert(count_true(a, n) == count_true(a, n - 1) + (if a[n - 1] {
            1int
        } else {
            0int
        }));
        lemma_count_true_pos(a, n - 1);
        lemma_count_true_zero(a, n - 1);
    }
}

/// Counting `true` entries never goes negative.
proof fn lemma_count_true_pos(a: Seq<bool>, n: int)
    requires
        0 <= n,
    ensures
        count_true(a, n) >= 0,
    decreases n,
{
    if n > 0 {
        lemma_count_true_pos(a, n - 1);
    }
}


impl TanksGame {
    /// Per-enemy AI tick: with probability 1/10 fire (disabled in test
    /// mode), then with probability 1/3 either attempt a forward move
    /// or rotate 90 degrees, consuming the generator in that fixed
    /// order. Enemy lives, origins and the enemy count are untouched.
    pub fn move_enemies(&mut self)
        requires
            old(self).wf(),
        ensures
            final(self).wf(),
            final(self).tank == old(self).tank,
            final(self).screen == old(self).screen,
            final(self).score == old(self).score,
            final(self).step == old(self).step,
            final(self).test_mode == old(self).test_mode,
            final(self).enemy_count == old(self).enemy_count,
            forall|i: int|
                0 <= i < 4 ==> (#[trigger] final(self).enemies@[i]).lives == old(
                    self,
                ).enemies@[i].lives && final(self).enemies@[i].origin == old(
                    self,
                ).enemies@[i].origin,
            forall|i: int|
                old(self).enemy_count <= i < 4 ==> #[trigger] final(self).enemies@[i] == old(
                    self,
                ).enemies@[i],
            ({
                let r = s_ai_pass(
                    abs_tank(old(self).tank),
                    abs_enemies(*old(self)),
                    old(self).enemy_count as int,
                    old(self).test_mode,
                    0,
                    old(self).prng.state,
                );
                &&& abs_enemies(*final(self)) == r.0
                &&& final(self).prng.state == r.1
            }),
    {
        let ghost p0 = abs_tank(old(self).tank);
        let ghost cnt = old(self).enemy_count as int;
        let ghost tm = old(self).test_mode;
        let ghost abs0 = abs_enemies(*old(self));
        let ghost s0 = old(self).prng.state;
        let mut i: usize = 0;
        while i < self.enemy_count
            invariant
                i <= self.enemy_count,
                self.wf(),
                self.tank == old(self).tank,
                self.screen == old(self).screen,
                self.score == old(self).score,
                self.step == old(self).step,
                self.test_mode == old(self).test_mode,
                self.enemy_count == old(self).enemy_count,
                forall|k: int|
                    0 <= k < 4 ==> (#[trigger] self.enemies@[k]).lives == old(
                        self,
                    ).enemies@[k].lives && self.enemies@[k].origin == old(self).enemies@[k].origin,
                forall|k: int|
                    old(self).enemy_count <= k < 4 ==> #[trigger] self.enemies@[k] == old(
                        self,
                    ).enemies@[k],
                s_ai_pass(p0, abs_enemies(*self), cnt, tm, i as int, self.prng.state) == s_ai_pass(
                    p0,
                    abs0,
                    cnt,
                    tm,
                    0,
                    s0,
                ),
            decreases self.enemy_count - i,
        {
            let ghost pre_abs = abs_enemies(*self);
            let ghost pre_s = self.prng.state;
            if self.enemies[i].is_dying() {
                proof {
                    assert(s_enemy_turn(p0, pre_abs, cnt, tm, i as int, pre_s) == (pre_abs, pre_s));
                }
                i = i + 1;
                continue ;
            }
            let fire_draw = self.prng.next_range(10);
            let ghost s1 = self.prng.state;
            if fire_draw == 0 && !self.test_mode {
                let mut e = self.enemies[i];
                e.fire();
                self.enemies[i] = e;
            }
            let ghost e1 = (if s1 % 10 == 0 && !tm {
                s_fire(pre_abs[i as int])
            } else {
                pre_abs[i as int]
            });
            let ghost en1 = pre_abs.update(i as int, e1);
            proof {
                assert forall|k: int| 0 <= k < 4 implies abs_enemies(*self)[k] == en1[k] by {
                    assert(abs_enemies(*self)[k] =~= en1[k]);
                }
                assert(abs_enemies(*self) =~= en1);
            }
            let move_draw = self.prng.next_range(3);
            let ghost s2 = self.prng.state;
            if move_draw == 0 {
                let dir_draw = self.prng.next_range(2);
                let ghost s3 = self.prng.state;
                let mut enemy = self.enemies[i];
                if dir_draw == 0 {
                    self.try_move_enemy(&mut enemy, i);
                    proof {
                        let d = dir_of(e1.rotation);
                        let nx = e1.pos.x + d.x;
                        let ny = e1.pos.y + d.y;
                        let fig = spin(tank_base(), e1.rotation);
                        lemma_overlaps_abs(self.tank, nx, ny, fig);
                        assert forall|j: int| 0 <= j < cnt implies ((#[trigger] self.enemies@[j]).lives
                            > 0 && self.enemies@[j].spec_overlaps(nx, ny, fig)) == (en1[j].lives
                            > 0 && s_overlaps(en1[j], nx, ny, fig)) by {
                            lemma_overlaps_abs(self.enemies@[j], nx, ny, fig);
                        }
                        assert((exists|j: int|
                            0 <= j < cnt && j != i && (#[trigger] self.enemies@[j]).lives > 0
                                && self.enemies@[j].spec_overlaps(nx, ny, fig)) == (exists|j: int|
                            0 <= j < cnt && j != i && (#[trigger] en1[j]).lives > 0 && s_overlaps(
                                en1[j],
                                nx,
                                ny,
                                fig,
                            )));
                        assert(abs_tank(enemy) =~= s_try_move(p0, en1, cnt, i as int, e1));
                    }
                } else {
                    enemy.rotate(&Dot::new(0, 0));
                    proof {
                        assert(abs_tank(enemy) =~= s_rotate(e1));
                    }
                }
                self.enemies[i] = enemy;
                proof {
                    let e2 = (if s3 % 2 == 0 {
                        s_try_move(p0, en1, cnt, i as int, e1)
                    } else {
                        s_rotate(e1)
                    });
                    assert forall|k: int| 0 <= k < 4 implies abs_enemies(*self)[k] == en1.update(
                        i as int,
                        e2,
                    )[k] by {
                        assert(abs_enemies(*self)[k] =~= en1.update(i as int, e2)[k]);
                    }
                    assert(abs_enemies(*self) =~= en1.update(i as int, e2));
                    assert(s_enemy_turn(p0, pre_abs, cnt, tm, i as int, pre_s) == (abs_enemies(
                        *self,
                    ), s3));
                }
            } else {
                proof {
                    assert(s_enemy_turn(p0, pre_abs, cnt, tm, i as int, pre_s) == (abs_enemies(
                        *self,
                    ), s2));
                }
            }
            i = i + 1;
        }
        proof {
            assert(s_ai_pass(p0, abs_enemies(*self), cnt, tm, i as int, self.prng.state)
                == (abs_enemies(*self), self.prng.state));
        }
    }

    /// One forward-move attempt for an enemy: the move happens only if
    /// the target stays in the enemy box and overlaps neither the live
    /// player nor another live enemy; otherwise the enemy rotates 90
    /// degrees instead (rotate-or-move, never both).
    pub fn try_move_enemy(&self, enemy: &mut Tank, enemy_idx: usize)
        requires
            self.wf(),
            old(enemy).wf(),
            enemy_in_box(*old(enemy)),
            enemy_idx < self.enemy_count,
        ensures
            final(enemy).wf(),
            enemy_in_box(*final(enemy)),
            final(enemy).lives == old(enemy).lives,
            final(enemy).origin == old(enemy).origin,
            final(enemy).missiles == old(enemy).missiles,
            ({
                let d = dir_of(old(enemy).rotation as int);
                let nx = old(enemy).pos.x + d.x;
                let ny = old(enemy).pos.y + d.y;
                let blocked = !(0 <= nx <= 5 && 6 <= ny <= 29) || (self.tank.lives > 0
                    && self.tank.spec_overlaps(nx, ny, old(enemy).figure@)) || (exists|j: int|
                    0 <= j < self.enemy_count && j != enemy_idx && (#[trigger] self.enemies@[j]).lives
                        > 0 && self.enemies@[j].spec_overlaps(nx, ny, old(enemy).figure@));
                if blocked {
                    final(enemy).pos == old(enemy).pos && final(enemy).rotation == (old(
                        enemy,
                    ).rotation + 1) % 4
                } else {
                    final(enemy).pos == (Dot { x: nx as i8, y: ny as i8 }) && final(enemy).rotation
                        == old(enemy).rotation
                }
            }),
    {
        let direction = enemy.direction();
        let new_pos = enemy.pos.move_by(direction);
        if new_pos.x < 0 || new_pos.x > 5 || new_pos.y < 6 || new_pos.y > 29 {
            enemy.rotate(&Dot::new(0, 0));
            return ;
        }
        let collides_with_player = !self.tank.is_dead() && self.tank.overlaps_figure(
            new_pos.x,
            new_pos.y,
            &enemy.figure,
        );
        let mut collides_with_other = false;
        let mut j: usize = 0;
        while j < self.enemy_count
            invariant
                j <= self.enemy_count,
                collides_with_other == exists|k: int|
                    0 <= k < j && k != enemy_idx && (#[trigger] self.enemies@[k]).lives > 0
                        && self.enemies@[k].spec_overlaps(
                        new_pos.x as int,
                        new_pos.y as int,
                        enemy.figure@,
                    ),
            decreases self.enemy_count - j,
        {
            if j != enemy_idx && !self.enemies[j].is_dead() && self.enemies[j].overlaps_figure(
                new_pos.x,
                new_pos.y,
                &enemy.figure,
            ) {
                collides_with_other = true;
            }
            j = j + 1;
        }
        if collides_with_player || collides_with_other {
            enemy.rotate(&Dot::new(0, 0));
        } else {
            enemy.pos = new_pos;
        }
    }

    /// Dead-enemy compaction: enemies with no lives left are removed
    /// by compacting the live array, keeping the survivors' order with
    /// no gaps, and the enemy count drops accordingly.
    pub fn remove_dead_enemies(&mut self)
        requires
            old(self).wf(),
        ensures
            final(self).wf(),
            final(self).tank == old(self).tank,
            final(self).screen == old(self).screen,
            final(self).score == old(self).score,
            final(self).step == old(self).step,
            final(self).prng == old(self).prng,
            final(self).test_mode == old(self).test_mode,
            final(self).enemy_count <= old(self).enemy_count,
            final(self).enemies@.subrange(0, final(self).enemy_count as int) == live_filter(
                old(self).enemies@,
                old(self).enemy_count as int,
            ),
            forall|i: int|
                0 <= i < final(self).enemy_count ==> (#[trigger] final(self).enemies@[i]).lives
                    > 0,
    {
        let ghost orig = old(self).enemies@;
        let mut write_idx: usize = 0;
        let mut read_idx: usize = 0;
        while read_idx < self.enemy_count
            invariant
                write_idx <= read_idx <= self.enemy_count,
                self.wf(),
                self.tank == old(self).tank,
                self.screen == old(self).screen,
                self.score == old(self).score,
                self.step == old(self).step,
                self.prng == old(self).prng,
                self.test_mode == old(self).test_mode,
                self.enemy_count == old(self).enemy_count,
                self.enemies@.subrange(0, write_idx as int) == live_filter(orig, read_idx as int),
                forall|k: int| read_idx <= k < 4 ==> #[trigger] self.enemies@[k] == orig[k],
                forall|k: int|
                    0 <= k < write_idx ==> (#[trigger] self.enemies@[k]).lives > 0 && enemy_in_box(
                        self.enemies@[k],
                    ),
            decreases self.enemy_count - read_idx,
        {
            let ghost pre = self.enemies@;
            if !self.enemies[read_idx].is_dead() {
                let e = self.enemies[read_idx];
                self.enemies[write_idx] = e;
                write_idx = write_idx + 1;
            }
            proof {
                assert(self.enemies@.subrange(0, write_idx as int) =~= live_filter(
                    orig,
                    read_idx + 1,
                ));
            }
            read_idx = read_idx + 1;
        }
        self.enemy_count = write_idx;
    }

    /// Player movement: rotate-or-move, never both in one tick. A
    /// non-facing input rotates toward it, reverted if the rotated
    /// sprite would collide; a facing input translates one cell unless
    /// the target placement collides (movement legality: a colliding
    /// position is never adopted).
    pub fn move_player(&mut self, direction: Dot)
        requires
            old(self).wf(),
            direction.spec_is_zero() || direction.spec_is_cardinal(),
        ensures
            final(self).wf(),
            final(self).screen == old(self).screen,
            final(self).enemies == old(self).enemies,
            final(self).enemy_count == old(self).enemy_count,
            final(self).score == old(self).score,
            final(self).prng == old(self).prng,
            final(self).step == old(self).step,
            final(self).test_mode == old(self).test_mode,
            final(self).tank.lives == old(self).tank.lives,
            final(self).tank.missiles == old(self).tank.missiles,
            final(self).tank.origin == old(self).tank.origin,
            direction.spec_is_zero() ==> final(self).tank == old(self).tank,
            (!direction.spec_is_zero() && dir_of(old(self).tank.rotation as int) == direction)
                ==> {
                let np = Dot {
                    x: (old(self).tank.pos.x + direction.x) as i8,
                    y: (old(self).tank.pos.y + direction.y) as i8,
                };
                &&& final(self).tank.rotation == old(self).tank.rotation
                &&& final(self).tank.figure == old(self).tank.figure
                &&& final(self).tank.pos == (if !old(self).spec_collides_at(
                    np.x as int,
                    np.y as int,
                    old(self).tank.figure@,
                    true,
                    None,
                ) {
                    np
                } else {
                    old(self).tank.pos
                })
            },
            (!direction.spec_is_zero() && dir_of(old(self).tank.rotation as int) != direction)
                ==> {
                &&& final(self).tank.pos == old(self).tank.pos
                &&& (if !old(self).spec_collides_at(
                    old(self).tank.pos.x as int,
                    old(self).tank.pos.y as int,
                    spin(tank_base(), dir_index(direction)),
                    true,
                    None,
                ) {
                    final(self).tank.rotation == dir_index(direction)
                } else {
                    final(self).tank == old(self).tank
                })
            },
    {
        if !direction.is_zero() {
            let d = self.tank.direction();
            let was_facing = d.x == direction.x && d.y == direction.y;
            if !was_facing {
                let original_figure = self.tank.figure;
                let original_rotation = self.tank.rotation;
                if self.tank.rotate(&direction) {
                    if self.collides(self.tank.pos.x, self.tank.pos.y, &self.tank, true, None) {
                        self.tank.figure = original_figure;
                        self.tank.rotation = original_rotation;
                    }
                }
            } else {
                let new_pos = self.tank.pos.move_by(direction);
                if !self.collides(new_pos.x, new_pos.y, &self.tank, true, None) {
                    proof {
                        lemma_spin_center(self.tank.rotation as int);
                        assert(self.tank.figure@.cell(1, 1));
                        assert(in_grid(new_pos.x + 1, new_pos.y + 1));
                    }
                    self.tank.pos = new_pos;
                }
            }
        }
    }

    /// Advances every missile of the player and of all enemy slots.
    pub fn move_missiles(&mut self)
        requires
            old(self).wf(),
        ensures
            final(self).wf(),
            final(self).screen == old(self).screen,
            final(self).enemy_count == old(self).enemy_count,
            final(self).score == old(self).score,
            final(self).prng == old(self).prng,
            final(self).step == old(self).step,
            final(self).test_mode == old(self).test_mode,
            final(self).tank.pos == old(self).tank.pos,
            final(self).tank.rotation == old(self).tank.rotation,
            final(self).tank.figure == old(self).tank.figure,
            final(self).tank.lives == old(self).tank.lives,
            final(self).tank.origin == old(self).tank.origin,
            final(self).tank.missiles@[0] == spec_step_missile(old(self).tank.missiles@[0]),
            final(self).tank.missiles@[1] == spec_step_missile(old(self).tank.missiles@[1]),
            forall|i: int|
                0 <= i < 4 ==> {
                    let e0 = old(self).enemies@[i];
                    let e1 = #[trigger] final(self).enemies@[i];
                    e1.pos == e0.pos && e1.rotation == e0.rotation && e1.figure == e0.figure
                        && e1.lives == e0.lives && e1.origin == e0.origin && e1.missiles@[0]
                        == spec_step_missile(e0.missiles@[0]) && e1.missiles@[1]
                        == spec_step_missile(e0.missiles@[1])
                },
    {
        self.tank.move_missiles();
        let mut i: usize = 0;
        while i < 4
            invariant
                i <= 4,
                self.wf(),
                self.screen == old(self).screen,
                self.enemy_count == old(self).enemy_count,
                self.score == old(self).score,
                self.prng == old(self).prng,
                self.step == old(self).step,
                self.test_mode == old(self).test_mode,
                self.tank.pos == old(self).tank.pos,
                self.tank.rotation == old(self).tank.rotation,
                self.tank.figure == old(self).tank.figure,
                self.tank.lives == old(self).tank.lives,
                self.tank.origin == old(self).tank.origin,
                self.tank.missiles@[0] == spec_step_missile(old(self).tank.missiles@[0]),
                self.tank.missiles@[1] == spec_step_missile(old(self).tank.missiles@[1]),
                forall|k: int|
                    0 <= k < i ==> {
                        let e0 = old(self).enemies@[k];
                        let e1 = #[trigger] self.enemies@[k];
                        e1.pos == e0.pos && e1.rotation == e0.rotation && e1.figure == e0.figure
                            && e1.lives == e0.lives && e1.origin == e0.origin && e1.missiles@[0]
                            == spec_step_missile(e0.missiles@[0]) && e1.missiles@[1]
                            == spec_step_missile(e0.missiles@[1])
                    },
                forall|k: int| i <= k < 4 ==> #[trigger] self.enemies@[k] == old(self).enemies@[k],
            decreases 4 - i,
        {
            let mut e = self.enemies[i];
            e.move_missiles();
            self.enemies[i] = e;
            i = i + 1;
        }
    }
}

impl TanksGame {
    /// Draws the player tank in green at its current position.
    pub fn draw_player(&mut self)
        requires
            old(self).wf(),
        ensures
            final(self).wf(),
            final(self).tank == old(self).tank,
            final(self).enemies == old(self).enemies,
            final(self).enemy_count == old(self).enemy_count,
            final(self).score == old(self).score,
            final(self).prng == old(self).prng,
            final(self).step == old(self).step,
            final(self).test_mode == old(self).test_mode,
            forall|i: int|
                0 <= i < 256 ==> #[trigger] final(self).screen.cells@[i] == (if covers(
                    old(self).tank.figure@,
                    old(self).tank.pos.x as int,
                    old(self).tank.pos.y as int,
                    i % 8,
                    i / 8,
                ) {
                    GREEN_IDX
                } else {
                    old(self).screen.cells@[i]
                }),
    {
        let fig = self.tank.figure;
        self.screen.draw_figure(self.tank.pos.x, self.tank.pos.y, &fig, GREEN_IDX);
    }

    /// Draws one enemy tank in brick color and its visible missiles in
    /// red.
    pub fn draw_enemy(&mut self, idx: usize)
        requires
            old(self).wf(),
            idx < old(self).enemy_count,
        ensures
            final(self).wf(),
            final(self).tank == old(self).tank,
            final(self).enemies == old(self).enemies,
            final(self).enemy_count == old(self).enemy_count,
            final(self).score == old(self).score,
            final(self).prng == old(self).prng,
            final(self).step == old(self).step,
            final(self).test_mode == old(self).test_mode,
            forall|i: int|
                0 <= i < 256 ==> #[trigger] final(self).screen.cells@[i] == ({
                    let e = old(self).enemies@[idx as int];
                    if e.missiles@[1].spec_visible() && i == e.missiles@[1].y * 8
                        + e.missiles@[1].x {
                        RED_IDX
                    } else if e.missiles@[0].spec_visible() && i == e.missiles@[0].y * 8
                        + e.missiles@[0].x {
                        RED_IDX
                    } else if covers(e.figure@, e.pos.x as int, e.pos.y as int, i % 8, i / 8) {
                        BRICK_IDX
                    } else {
                        old(self).screen.cells@[i]
                    }
                }),
    {
        let e = self.enemies[idx];
        self.screen.draw_figure(e.pos.x, e.pos.y, &e.figure, BRICK_IDX);
        let m0 = e.missiles[0];
        if m0.visible() {
            self.screen.set(m0.x as usize, m0.y as usize, RED_IDX);
        }
        let m1 = e.missiles[1];
        if m1.visible() {
            self.screen.set(m1.x as usize, m1.y as usize, RED_IDX);
        }
    }

    /// Draws the player's visible missiles in red.
    pub fn draw_player_missiles(&mut self)
        requires
            old(self).wf(),
        ensures
            final(self).wf(),
            final(self).tank == old(self).tank,
            final(self).enemies == old(self).enemies,
            final(self).enemy_count == old(self).enemy_count,
            final(self).score == old(self).score,
            final(self).prng == old(self).prng,
            final(self).step == old(self).step,
            final(self).test_mode == old(self).test_mode,
            forall|i: int|
                0 <= i < 256 ==> #[trigger] final(self).screen.cells@[i] == ({
                    let t = old(self).tank;
                    if t.missiles@[1].spec_visible() && i == t.missiles@[1].y * 8
                        + t.missiles@[1].x {
                        RED_IDX
                    } else if t.missiles@[0].spec_visible() && i == t.missiles@[0].y * 8
                        + t.missiles@[0].x {
                        RED_IDX
                    } else {
                        old(self).screen.cells@[i]
                    }
                }),
    {
        let m0 = self.tank.missiles[0];
        if m0.visible() {
            self.screen.set(m0.x as usize, m0.y as usize, RED_IDX);
        }
        let m1 = self.tank.missiles[1];
        if m1.visible() {
            self.screen.set(m1.x as usize, m1.y as usize, RED_IDX);
        }
    }

    /// Draws the pink delimiter line under the score rows.
    pub fn draw_score_delimiter(&mut self)
        requires
            old(self).wf(),
        ensures
            final(self).wf(),
            final(self).tank == old(self).tank,
            final(self).enemies == old(self).enemies,
            final(self).enemy_count == old(self).enemy_count,
            final(self).score == old(self).score,
            final(self).prng == old(self).prng,
            final(self).step == old(self).step,
            final(self).test_mode == old(self).test_mode,
            forall|i: int|
                0 <= i < 256 ==> #[trigger] final(self).screen.cells@[i] == (if i / 8 == 5 {
                    PINK_IDX
                } else {
                    old(self).screen.cells@[i]
                }),
    {
        let mut x: usize = 0;
        while x < 8
            invariant
                x <= 8,
                self.wf(),
                self.tank == old(self).tank,
                self.enemies == old(self).enemies,
                self.enemy_count == old(self).enemy_count,
                self.score == old(self).score,
                self.prng == old(self).prng,
                self.step == old(self).step,
                self.test_mode == old(self).test_mode,
                forall|i: int|
                    0 <= i < 256 ==> #[trigger] self.screen.cells@[i] == (if i / 8 == 5 && i % 8
                        < x {
                        PINK_IDX
                    } else {
                        old(self).screen.cells@[i]
                    }),
            decreases 8 - x,
        {
            self.screen.set(x, 5, PINK_IDX);
            proof {
                assert forall|i: int| 0 <= i < 256 implies #[trigger] self.screen.cells@[i] == (if i
                    / 8 == 5 && i % 8 < x + 1 {
                    PINK_IDX
                } else {
                    old(self).screen.cells@[i]
                }) by {
                    assert(i == 5 * 8 + x <==> (i / 8 == 5 && i % 8 == x)) by (nonlinear_arith)
                        requires
                            0 <= i < 256 && 0 <= x < 8,
                    ;
                }
            }
            x = x + 1;
        }
    }

    /// Draws the two score digits (tens at column 0, ones at column 4)
    /// in green; the score display wraps at 100.
    pub fn draw_score(&mut self)
        requires
            old(self).wf(),
        ensures
            final(self).wf(),
            final(self).tank == old(self).tank,
            final(self).enemies == old(self).enemies,
            final(self).enemy_count == old(self).enemy_count,
            final(self).score == old(self).score,
            final(self).prng == old(self).prng,
            final(self).step == old(self).step,
            final(self).test_mode == old(self).test_mode,
            forall|i: int|
                0 <= i < 256 ==> #[trigger] final(self).screen.cells@[i] == ({
                    let tens = ((old(self).score as int) % 100) / 10;
                    let ones = ((old(self).score as int) % 100) % 10;
                    if covers(digit_base(ones), 4, 0, i % 8, i / 8) {
                        GREEN_IDX
                    } else if covers(digit_base(tens), 0, 0, i % 8, i / 8) {
                        GREEN_IDX
                    } else {
                        old(self).screen.cells@[i]
                    }
                }),
    {
        let score_display = self.score % 100;
        let tens = score_display / 10;
        let ones = score_display % 10;
        let ft = digit_figure(tens);
        let fo = digit_figure(ones);
        self.screen.draw_figure(0, 0, &ft, GREEN_IDX);
        self.screen.draw_figure(4, 0, &fo, GREEN_IDX);
    }

    /// Draws one pink life marker per remaining player life in the
    /// rightmost column.
    pub fn draw_lives(&mut self)
        requires
            old(self).wf(),
        ensures
            final(self).wf(),
            final(self).tank == old(self).tank,
            final(self).enemies == old(self).enemies,
            final(self).enemy_count == old(self).enemy_count,
            final(self).score == old(self).score,
            final(self).prng == old(self).prng,
            final(self).step == old(self).step,
            final(self).test_mode == old(self).test_mode,
            forall|i: int|
                0 <= i < 256 ==> #[trigger] final(self).screen.cells@[i] == (if i % 8 == 7 && i / 8
                    < old(self).tank.lives {
                    PINK_IDX
                } else {
                    old(self).screen.cells@[i]
                }),
    {
        let mut i: i8 = 0;
        while i < self.tank.lives
            invariant
                0 <= i,
                i <= (if self.tank.lives > 0 {
                    self.tank.lives as int
                } else {
                    0int
                }),
                self.wf(),
                self.tank == old(self).tank,
                self.enemies == old(self).enemies,
                self.enemy_count == old(self).enemy_count,
                self.score == old(self).score,
                self.prng == old(self).prng,
                self.step == old(self).step,
                self.test_mode == old(self).test_mode,
                forall|k: int|
                    0 <= k < 256 ==> #[trigger] self.screen.cells@[k] == (if k % 8 == 7 && k / 8
                        < i {
                        PINK_IDX
                    } else {
                        old(self).screen.cells@[k]
                    }),
            decreases self.tank.lives - i,
        {
            self.screen.set(7, i as usize, PINK_IDX);
            proof {
                assert forall|k: int| 0 <= k < 256 implies #[trigger] self.screen.cells@[k] == (if k
                    % 8 == 7 && k / 8 < i + 1 {
                    PINK_IDX
                } else {
                    old(self).screen.cells@[k]
                }) by {
                    assert(k == i * 8 + 7 <==> (k / 8 == i as int && k % 8 == 7))
                        by (nonlinear_arith)
                        requires
                            0 <= k < 256 && 0 <= i < 32,
                    ;
                }
            }
            i = i + 1;
        }
    }

    /// Opens a frame: clears the screen and draws the score, the life
    /// markers and the delimiter line. Only the screen changes.
    pub fn begin_frame(&mut self)
        requires
            old(self).wf(),
        ensures
            final(self).wf(),
            final(self).tank == old(self).tank,
            final(self).enemies == old(self).enemies,
            final(self).enemy_count == old(self).enemy_count,
            final(self).score == old(self).score,
            final(self).prng == old(self).prng,
            final(self).step == old(self).step,
            final(self).test_mode == old(self).test_mode,
            forall|i: int|
                0 <= i < 256 ==> #[trigger] final(self).screen.cells@[i] == ({
                    let tens = ((old(self).score as int) % 100) / 10;
                    let ones = ((old(self).score as int) % 100) % 10;
                    if i / 8 == 5 {
                        PINK_IDX
                    } else if i % 8 == 7 && i / 8 < old(self).tank.lives {
                        PINK_IDX
                    } else if covers(digit_base(ones), 4, 0, i % 8, i / 8) {
                        GREEN_IDX
                    } else if covers(digit_base(tens), 0, 0, i % 8, i / 8) {
                        GREEN_IDX
                    } else {
                        0
                    }
                }),
    {
        self.screen.clear();
        self.draw_score();
        self.draw_lives();
        self.draw_score_delimiter();
    }

    /// The session is over once the player has no lives left; the
    /// caller then drives the attract loop instead of simulating.
    pub fn is_game_over(&self) -> (r: bool)
        ensures
            r == (self.tank.lives <= 0),
    {
        self.tank.lives <= 0
    }

    /// One attract-loop tick after the player's death: repaints one
    /// uniformly random screen cell in a uniformly random palette
    /// color, consuming three draws. No simulation state changes.
    pub fn death_tick(&mut self)
        requires
            old(self).wf(),
        ensures
            final(self).wf(),
            final(self).tank == old(self).tank,
            final(self).enemies == old(self).enemies,
            final(self).enemy_count == old(self).enemy_count,
            final(self).score == old(self).score,
            final(self).step == old(self).step,
            final(self).test_mode == old(self).test_mode,
            ({
                let s1 = spec_next_state(old(self).prng.state);
                let s2 = spec_next_state(s1);
                let s3 = spec_next_state(s2);
                let x = (s1 % 8) as int;
                let y = (s2 % 32) as int;
                let c = (s3 % 8) as u8;
                &&& final(self).prng.state == s3
                &&& final(self).screen.cells@ == old(self).screen.cells@.update(y * 8 + x, c)
            }),
    {
        let x = self.prng.next_range(crate::SCREEN_WIDTH as u8);
        let y = self.prng.next_range(crate::SCREEN_HEIGHT as u8);
        let color = self.prng.next_range(COLORS_LEN);
        self.screen.set(x as usize, y as usize, color);
    }

    /// One simulation frame after the frame was opened, in order: a
    /// press fires into the first free pool slot; the snapped input is
    /// applied under the rotate-or-move rule; every missile advances;
    /// collisions resolve (player lives, enemy lives, score); the
    /// actors are drawn; and the cadence accumulator, fed 1 + score/10
    /// per frame, triggers one AI pass and resets exactly when it had
    /// reached 10.
    pub fn step_frame(&mut self, pressed: bool, dx: i8, dy: i8)
        requires
            old(self).wf(),
        ensures
            final(self).wf(),
            final(self).test_mode == old(self).test_mode,
            final(self).tank.lives <= old(self).tank.lives,
            final(self).tank.origin == old(self).tank.origin,
            final(self).tank.pos != old(self).tank.pos ==> final(self).tank.rotation == old(
                self,
            ).tank.rotation,
            final(self).tank.rotation != old(self).tank.rotation ==> final(self).tank.pos == old(
                self,
            ).tank.pos,
            ({
                let g0 = *old(self);
                let d = (Dot { x: dx, y: dy }).spec_to_direction();
                let fm = spec_fired(g0.tank.pos, dir_of(g0.tank.rotation as int));
                let pm0f = if pressed && !g0.tank.missiles@[0].spec_visible() {
                    fm
                } else {
                    g0.tank.missiles@[0]
                };
                let pm1f = if pressed && g0.tank.missiles@[0].spec_visible()
                    && !g0.tank.missiles@[1].spec_visible() {
                    fm
                } else {
                    g0.tank.missiles@[1]
                };
                let rot0 = g0.tank.rotation as int;
                let np = Dot {
                    x: (g0.tank.pos.x + d.x) as i8,
                    y: (g0.tank.pos.y + d.y) as i8,
                };
                let facing = dir_of(rot0) == d;
                let rot1 = if d.spec_is_zero() || facing {
                    rot0
                } else if !g0.spec_collides_at(
                    g0.tank.pos.x as int,
                    g0.tank.pos.y as int,
                    spin(tank_base(), dir_index(d)),
                    true,
                    None,
                ) {
                    dir_index(d)
                } else {
                    rot0
                };
                let pos1 = if !d.spec_is_zero() && facing && !g0.spec_collides_at(
                    np.x as int,
                    np.y as int,
                    spin(tank_base(), rot0),
                    true,
                    None,
                ) {
                    np
                } else {
                    g0.tank.pos
                };
                let pm0 = spec_step_missile(pm0f);
                let pm1 = spec_step_missile(pm1f);
                let cnt = g0.enemy_count as int;
                let hits = hits_on_player_stepped(spin(tank_base(), rot1), pos1, g0.enemies@, cnt);
                let lives0 = Seq::new(4, |i: int| g0.enemies@[i].lives as int);
                let r0 = resolve_player_missile(g0.enemies@, cnt, lives0, pm0, g0.score as int);
                let r1 = resolve_player_missile(g0.enemies@, cnt, r0.0, pm1, r0.2);
                &&& final(self).tank.pos == pos1
                &&& final(self).tank.rotation as int == rot1
                &&& final(self).tank.lives as int == sat_dec_n(g0.tank.lives as int, hits)
                &&& final(self).tank.missiles@[0] == r0.1
                &&& final(self).tank.missiles@[1] == r1.1
                &&& final(self).score as int == r1.2
                &&& (forall|idx: int|
                    0 <= idx < 256 ==> #[trigger] final(self).screen.cells@[idx] == ({
                        let fig1 = spin(tank_base(), rot1);
                        let base = if covers(
                            fig1,
                            pos1.x as int,
                            pos1.y as int,
                            idx % 8,
                            idx / 8,
                        ) {
                            GREEN_IDX
                        } else {
                            g0.screen.cells@[idx]
                        };
                        let ae = px_after_enemies(g0.enemies@, fig1, pos1, idx, 0, cnt, base);
                        if r1.1.spec_visible() && idx == r1.1.y * 8 + r1.1.x {
                            RED_IDX
                        } else if r0.1.spec_visible() && idx == r0.1.y * 8 + r0.1.x {
                            RED_IDX
                        } else {
                            ae
                        }
                    }))
                &&& final(self).step as int == (if g0.step >= 10 {
                    0int
                } else {
                    g0.step as int
                }) + 1 + r1.2 / 10
                &&& (g0.step < 10 ==> {
                    &&& final(self).enemy_count == g0.enemy_count
                    &&& final(self).prng == g0.prng
                    &&& forall|i: int|
                        0 <= i < 4 ==> {
                            let e0 = g0.enemies@[i];
                            let e1 = #[trigger] final(self).enemies@[i];
                            &&& e1.pos == e0.pos
                            &&& e1.rotation == e0.rotation
                            &&& e1.figure == e0.figure
                            &&& e1.origin == e0.origin
                            &&& e1.lives as int == r1.0[i]
                            &&& e1.missiles@[0] == (if i < cnt && missile_hits_at(
                                spin(tank_base(), rot1),
                                pos1,
                                spec_step_missile(e0.missiles@[0]),
                            ) {
                                spec_hidden(spec_step_missile(e0.missiles@[0]))
                            } else {
                                spec_step_missile(e0.missiles@[0])
                            })
                            &&& e1.missiles@[1] == (if i < cnt && missile_hits_at(
                                spin(tank_base(), rot1),
                                pos1,
                                spec_step_missile(e0.missiles@[1]),
                            ) {
                                spec_hidden(spec_step_missile(e0.missiles@[1]))
                            } else {
                                spec_step_missile(e0.missiles@[1])
                            })
                        }
                })
                &&& (g0.step >= 10 ==> (final(self).enemy_count <= 3 || final(self).enemy_count
                    == g0.enemy_count) && (forall|i: int|
                    0 <= i < final(self).enemy_count ==> (
                    #[trigger] final(self).enemies@[i]).lives > 0))
            }),
    {
        if pressed {
            self.tank.fire();
        }
        let direction = Dot::new(dx, dy).to_direction();
        self.move_player(direction);
        self.move_missiles();
        let ghost pre = *self;
        self.check_collisions();
        proof {
            let g0 = *old(self);
            let cnt = g0.enemy_count as int;
            lemma_hits_nonneg(pre.tank, pre.enemies@, cnt);
            lemma_sat_dec_n_le(
                pre.tank.lives as int,
                hits_on_player(pre.tank, pre.enemies@, cnt),
            );
            lemma_hits_stepped_eq(pre.tank, pre.enemies@, g0.enemies@, cnt);
            let lives0 = Seq::new(4, |i: int| g0.enemies@[i].lives as int);
            let lives0cc = Seq::new(4, |i: int| pre.enemies@[i].lives as int);
            assert(lives0cc =~= lives0);
            let pm0 = pre.tank.missiles@[0];
            let pm1 = pre.tank.missiles@[1];
            lemma_first_hit_bounds(g0.enemies@, cnt, pm0, 0);
            lemma_first_hit_bounds(g0.enemies@, cnt, pm1, 0);
            lemma_first_hit_congruence(pre.enemies@, g0.enemies@, cnt, pm0, 0);
            lemma_first_hit_congruence(pre.enemies@, g0.enemies@, cnt, pm1, 0);
            let r0 = resolve_player_missile(g0.enemies@, cnt, lives0, pm0, g0.score as int);
            let r0cc = resolve_player_missile(pre.enemies@, cnt, lives0cc, pm0, pre.score as int);
            assert(r0.0 == r0cc.0 && r0.1 == r0cc.1 && r0.2 == r0cc.2);
            let r1 = resolve_player_missile(g0.enemies@, cnt, r0.0, pm1, r0.2);
            let r1cc = resolve_player_missile(pre.enemies@, cnt, r0cc.0, pm1, r0cc.2);
            assert(r1.0 == r1cc.0 && r1.1 == r1cc.1 && r1.2 == r1cc.2);
        }
        let ghost after_cc = *self;
        self.draw_player();
        let ghost pre_draw = *self;
        let ghost fig1 = pre.tank.figure@;
        let ghost p1 = pre.tank.pos;
        let mut i: usize = 0;
        while i < self.enemy_count
            invariant
                i <= self.enemy_count,
                self.wf(),
                self.test_mode == old(self).test_mode,
                self.tank == pre_draw.tank,
                self.enemies == pre_draw.enemies,
                self.enemy_count == pre_draw.enemy_count,
                self.score == pre_draw.score,
                self.prng == pre_draw.prng,
                self.step == pre_draw.step,
                forall|idx: int|
                    0 <= idx < 256 ==> #[trigger] self.screen.cells@[idx] == px_after_enemies(
                        old(self).enemies@,
                        fig1,
                        p1,
                        idx,
                        0,
                        i as int,
                        (if covers(fig1, p1.x as int, p1.y as int, idx % 8, idx / 8) {
                            GREEN_IDX
                        } else {
                            old(self).screen.cells@[idx]
                        }),
                    ),
            decreases self.enemy_count - i,
        {
            self.draw_enemy(i);
            proof {
                let e0 = old(self).enemies@[i as int];
                let ecur = pre_draw.enemies@[i as int];
                assert(ecur.figure == e0.figure && ecur.pos == e0.pos);
                assert(ecur.missiles@[0] == post_hit_missile(fig1, p1, e0.missiles@[0]));
                assert(ecur.missiles@[1] == post_hit_missile(fig1, p1, e0.missiles@[1]));
                assert forall|idx: int| 0 <= idx < 256 implies #[trigger] self.screen.cells@[idx]
                    == px_after_enemies(
                    old(self).enemies@,
                    fig1,
                    p1,
                    idx,
                    0,
                    i + 1,
                    (if covers(fig1, p1.x as int, p1.y as int, idx % 8, idx / 8) {
                        GREEN_IDX
                    } else {
                        old(self).screen.cells@[idx]
                    }),
                ) by {
                    lemma_px_snoc(
                        old(self).enemies@,
                        fig1,
                        p1,
                        idx,
                        0,
                        i as int,
                        (if covers(fig1, p1.x as int, p1.y as int, idx % 8, idx / 8) {
                            GREEN_IDX
                        } else {
                            old(self).screen.cells@[idx]
                        }),
                    );
                }
            }
            i = i + 1;
        }
        self.draw_player_missiles();
        let speedup = self.score / 10;
        if self.step >= 10 {
            self.ai();
            self.step = 0;
        }
        self.step = self.step + 1 + speedup;
    }
}

/// The number of spawn-eligible origins among the first `n` of the
/// four.
pub open spec fn eligible_count_upto(g: TanksGame, n: int) -> int
    decreases n,
{
    if n <= 0 {
        0
    } else {
        eligible_count_upto(g, n - 1) + (if g.spawn_eligible(n - 1) {
            1int
        } else {
            0int
        })
    }
}

/// The `n`-th spawn-eligible origin at or after `idx` (0-based), or 4
/// when there are not that many.
pub open spec fn nth_eligible_from(g: TanksGame, n: int, idx: int) -> int
    decreases 4 - idx,
{
    if idx >= 4 {
        4
    } else if g.spawn_eligible(idx) {
        if n == 0 {
            idx
        } else {
            nth_eligible_from(g, n - 1, idx + 1)
        }
    } else {
        nth_eligible_from(g, n, idx + 1)
    }
}

/// The availability flags computed by the eligibility scan count
/// exactly the eligible origins.
proof fn lemma_eligible_counts_match(g: TanksGame, av: Seq<bool>, n: int)
    requires
        0 <= n <= 4,
        av.len() == 4,
        forall|k: int| 0 <= k < n ==> #[trigger] av[k] == g.spawn_eligible(k),
    ensures
        count_true(av, n) == eligible_count_upto(g, n),
    decreases n,
{
    if n > 0 {
        lemma_eligible_counts_match(g, av, n - 1);
    }
}

/// The decision-relevant slice of a tank: everything but the sprite
/// value, which the lock-step invariant determines from `rotation`.
#[verifier::ext_equal]
pub ghost struct TankS {
    pub pos: Dot,
    pub rotation: int,
    pub m0: Missile,
    pub m1: Missile,
    pub lives: int,
    pub origin: int,
}

/// The decision-relevant slice of a tank value.
pub open spec fn abs_tank(t: Tank) -> TankS {
    TankS {
        pos: t.pos,
        rotation: t.rotation as int,
        m0: t.missiles@[0],
        m1: t.missiles@[1],
        lives: t.lives as int,
        origin: t.origin as int,
    }
}

/// The four enemy slots of a game, as decision-relevant slices.
pub open spec fn abs_enemies(g: TanksGame) -> Seq<TankS> {
    Seq::new(4, |i: int| abs_tank(g.enemies@[i]))
}

/// Actor overlap on the reduced state: the tank's sprite is the base
/// rotated `rotation` times.
pub open spec fn s_overlaps(a: TankS, x: int, y: int, f: FigureV) -> bool {
    exists|c: int, r: int|
        0 <= c < 3 && 0 <= r < 3 && #[trigger] spin(tank_base(), a.rotation).cell(c, r) && covers(
            f,
            x,
            y,
            a.pos.x + c,
            a.pos.y + r,
        )
}

/// A well-formed tank overlaps exactly as its reduced state does.
pub proof fn lemma_overlaps_abs(t: Tank, x: int, y: int, f: FigureV)
    requires
        t.wf(),
    ensures
        t.spec_overlaps(x, y, f) == s_overlaps(abs_tank(t), x, y, f),
{
    lemma_spin_center(t.rotation as int);
    let a = abs_tank(t);
    if t.spec_overlaps(x, y, f) {
        let (c, r) = choose|c: int, r: int|
            0 <= c < t.figure@.w && 0 <= r < t.figure@.h && #[trigger] t.figure@.cell(c, r)
                && covers(f, x, y, t.pos.x + c, t.pos.y + r);
        assert(spin(tank_base(), a.rotation).cell(c, r));
        assert(s_overlaps(a, x, y, f));
    }
    if s_overlaps(a, x, y, f) {
        let (c, r) = choose|c: int, r: int|
            0 <= c < 3 && 0 <= r < 3 && #[trigger] spin(tank_base(), a.rotation).cell(c, r)
                && covers(f, x, y, a.pos.x + c, a.pos.y + r);
        assert(t.figure@.cell(c, r));
        assert(t.spec_overlaps(x, y, f));
    }
}

/// One fire request on the reduced state: the first hidden slot takes
/// the fired missile.
pub open spec fn s_fire(e: TankS) -> TankS {
    let fm = spec_fired(e.pos, dir_of(e.rotation));
    if !e.m0.spec_visible() {
        TankS { m0: fm, ..e }
    } else if !e.m1.spec_visible() {
        TankS { m1: fm, ..e }
    } else {
        e
    }
}

/// One 90-degree rotation step on the reduced state.
pub open spec fn s_rotate(e: TankS) -> TankS {
    TankS { rotation: (e.rotation + 1) % 4, ..e }
}

/// Whether an enemy's forward move to `(nx, ny)` is blocked: outside
/// the enemy box, on the live player, or on another live enemy.
pub open spec fn s_move_blocked(
    player: TankS,
    enemies: Seq<TankS>,
    count: int,
    idx: int,
    e: TankS,
    nx: int,
    ny: int,
) -> bool {
    ||| !(0 <= nx <= 5 && 6 <= ny <= 29)
    ||| (player.lives > 0 && s_overlaps(player, nx, ny, spin(tank_base(), e.rotation)))
    ||| exists|j: int|
        0 <= j < count && j != idx && (#[trigger] enemies[j]).lives > 0 && s_overlaps(
            enemies[j],
            nx,
            ny,
            spin(tank_base(), e.rotation),
        )
}

/// One forward-move attempt: move one cell in the current facing when
/// legal, otherwise rotate 90 degrees instead.
pub open spec fn s_try_move(
    player: TankS,
    enemies: Seq<TankS>,
    count: int,
    idx: int,
    e: TankS,
) -> TankS {
    let d = dir_of(e.rotation);
    let nx = e.pos.x + d.x;
    let ny = e.pos.y + d.y;
    if s_move_blocked(player, enemies, count, idx, e, nx, ny) {
        s_rotate(e)
    } else {
        TankS { pos: Dot { x: nx as i8, y: ny as i8 }, ..e }
    }
}

/// One enemy's AI turn, consuming the generator in the fixed order: a
/// dying enemy is skipped without a draw; otherwise one range-10 draw
/// (fire on 0, suppressed in test mode but still consumed), one
/// range-3 draw, and on 0 one range-2 draw deciding move-or-rotate.
pub open spec fn s_enemy_turn(
    player: TankS,
    enemies: Seq<TankS>,
    count: int,
    test_mode: bool,
    i: int,
    s: u32,
) -> (Seq<TankS>, u32) {
    let e = enemies[i];
    if e.lives < 0 {
        (enemies, s)
    } else {
        let s1 = spec_next_state(s);
        let e1 = if s1 % 10 == 0 && !test_mode {
            s_fire(e)
        } else {
            e
        };
        let en1 = enemies.update(i, e1);
        let s2 = spec_next_state(s1);
        if s2 % 3 == 0 {
            let s3 = spec_next_state(s2);
            let e2 = if s3 % 2 == 0 {
                s_try_move(player, en1, count, i, e1)
            } else {
                s_rotate(e1)
            };
            (en1.update(i, e2), s3)
        } else {
            (en1, s2)
        }
    }
}

/// The whole AI movement pass: every enemy from `i` up takes its turn
/// in order against the evolving enemy array.
pub open spec fn s_ai_pass(
    player: TankS,
    enemies: Seq<TankS>,
    count: int,
    test_mode: bool,
    i: int,
    s: u32,
) -> (Seq<TankS>, u32)
    decreases count - i,
{
    if i >= count {
        (enemies, s)
    } else {
        let r = s_enemy_turn(player, enemies, count, test_mode, i, s);
        s_ai_pass(player, r.0, count, test_mode, i + 1, r.1)
    }
}

/// Enemy cap: a well-formed game never holds more than 4 enemies, and
/// a spawn decision never raises the count above 3 (see the contract
/// of `spawn_enemies` for the second half).
pub proof fn lemma_enemy_cap(g: TanksGame)
    requires
        g.wf(),
    ensures
        g.enemy_count <= 4,
{
}

/// A visible missile whose cell lies on a solid cell of tank `t`.
pub open spec fn missile_hits_tank(t: Tank, m: Missile) -> bool {
    m.spec_visible() && t.spec_collides(Dot { x: m.x, y: m.y })
}

/// The number of enemy-missile hits on the player among the first `n`
/// enemies (each enemy contributes its two missile slots).
pub open spec fn hits_on_player(t: Tank, enemies: Seq<Tank>, n: int) -> int
    decreases n,
{
    if n <= 0 {
        0
    } else {
        hits_on_player(t, enemies, n - 1) + (if missile_hits_tank(t, enemies[n - 1].missiles@[0]) {
            1int
        } else {
            0int
        }) + (if missile_hits_tank(t, enemies[n - 1].missiles@[1]) {
            1int
        } else {
            0int
        })
    }
}

/// A missile's cell lying on a solid cell of a sprite placed at `pos`.
pub open spec fn missile_hits_at(fig: FigureV, pos: Dot, m: Missile) -> bool {
    m.spec_visible() && covers(fig, pos.x as int, pos.y as int, m.x as int, m.y as int)
}

/// The number of enemy-missile hits a sprite at `pos` takes once every
/// enemy missile has advanced one step: the per-frame pass first moves
/// all missiles, then tests them against the player.
pub open spec fn hits_on_player_stepped(fig: FigureV, pos: Dot, enemies: Seq<Tank>, n: int) -> int
    decreases n,
{
    if n <= 0 {
        0
    } else {
        hits_on_player_stepped(fig, pos, enemies, n - 1) + (if missile_hits_at(
            fig,
            pos,
            spec_step_missile(enemies[n - 1].missiles@[0]),
        ) {
            1int
        } else {
            0int
        }) + (if missile_hits_at(fig, pos, spec_step_missile(enemies[n - 1].missiles@[1])) {
            1int
        } else {
            0int
        })
    }
}

/// A missile as the collision pass leaves it: advanced one step, then
/// hidden if its cell lies on the player's sprite.
pub open spec fn post_hit_missile(fig: FigureV, pos: Dot, m: Missile) -> Missile {
    let sm = spec_step_missile(m);
    if missile_hits_at(fig, pos, sm) {
        spec_hidden(sm)
    } else {
        sm
    }
}

/// The color of flat cell `idx` after one enemy is drawn over `acc`:
/// its brick sprite, overpainted by its red missile cells.
pub open spec fn enemy_paint(
    fig: FigureV,
    pos: Dot,
    m0: Missile,
    m1: Missile,
    idx: int,
    acc: u8,
) -> u8 {
    if m1.spec_visible() && idx == m1.y * 8 + m1.x {
        RED_IDX
    } else if m0.spec_visible() && idx == m0.y * 8 + m0.x {
        RED_IDX
    } else if covers(fig, pos.x as int, pos.y as int, idx % 8, idx / 8) {
        BRICK_IDX
    } else {
        acc
    }
}

/// The color of flat cell `idx` after the enemies in `[i, n)` are
/// drawn in order over `acc`, each with the missiles the collision
/// pass against the player sprite at `(fig1, pos1)` left it.
pub open spec fn px_after_enemies(
    enemies: Seq<Tank>,
    fig1: FigureV,
    pos1: Dot,
    idx: int,
    i: int,
    n: int,
    acc: u8,
) -> u8
    decreases n - i,
{
    if i >= n {
        acc
    } else {
        let e = enemies[i];
        px_after_enemies(
            enemies,
            fig1,
            pos1,
            idx,
            i + 1,
            n,
            enemy_paint(
                e.figure@,
                e.pos,
                post_hit_missile(fig1, pos1, e.missiles@[0]),
                post_hit_missile(fig1, pos1, e.missiles@[1]),
                idx,
                acc,
            ),
        )
    }
}

/// Drawing one more enemy at the end repaints the fold's result.
proof fn lemma_px_snoc(
    enemies: Seq<Tank>,
    fig1: FigureV,
    pos1: Dot,
    idx: int,
    i: int,
    n: int,
    acc: u8,
)
    requires
        0 <= i <= n,
    ensures
        px_after_enemies(enemies, fig1, pos1, idx, i, n + 1, acc) == ({
            let e = enemies[n];
            enemy_paint(
                e.figure@,
                e.pos,
                post_hit_missile(fig1, pos1, e.missiles@[0]),
                post_hit_missile(fig1, pos1, e.missiles@[1]),
                idx,
                px_after_enemies(enemies, fig1, pos1, idx, i, n, acc),
            )
        }),
    decreases n - i,
{
    reveal_with_fuel(px_after_enemies, 3);
    if i < n {
        let e = enemies[i];
        let acc2 = enemy_paint(
            e.figure@,
            e.pos,
            post_hit_missile(fig1, pos1, e.missiles@[0]),
            post_hit_missile(fig1, pos1, e.missiles@[1]),
            idx,
            acc,
        );
        lemma_px_snoc(enemies, fig1, pos1, idx, i + 1, n, acc2);
    }
}

/// `k` saturating decrements applied to `l`.
pub open spec fn sat_dec_n(l: int, k: int) -> int
    decreases k,
{
    if k <= 0 {
        l
    } else {
        sat_dec(sat_dec_n(l, k - 1))
    }
}

/// Hit counts are never negative.
proof fn lemma_hits_nonneg(t: Tank, enemies: Seq<Tank>, n: int)
    ensures
        hits_on_player(t, enemies, n) >= 0,
    decreases n,
{
    if n > 0 {
        lemma_hits_nonneg(t, enemies, n - 1);
    }
}

/// Counting hits against already stepped missiles equals the stepped
/// count over the missiles before the step.
proof fn lemma_hits_stepped_eq(t: Tank, stepped: Seq<Tank>, orig: Seq<Tank>, n: int)
    requires
        0 <= n,
        forall|k: int|
            0 <= k < n ==> (#[trigger] stepped[k]).missiles@[0] == spec_step_missile(
                orig[k].missiles@[0],
            ) && stepped[k].missiles@[1] == spec_step_missile(orig[k].missiles@[1]),
    ensures
        hits_on_player(t, stepped, n) == hits_on_player_stepped(t.figure@, t.pos, orig, n),
    decreases n,
{
    if n > 0 {
        lemma_hits_stepped_eq(t, stepped, orig, n - 1);
    }
}

/// Saturating decrements never raise a life counter.
proof fn lemma_sat_dec_n_le(l: int, k: int)
    requires
        k >= 0,
        l >= -128,
    ensures
        sat_dec_n(l, k) <= l,
    decreases k,
{
    if k > 0 {
        lemma_sat_dec_n_le(l, k - 1);
    }
}

/// The first index in `[j, count)` whose tank sprite covers the
/// missile's cell, or -1 when none does.
pub open spec fn first_hit_from(enemies: Seq<Tank>, count: int, m: Missile, j: int) -> int
    decreases count - j,
{
    if j >= count {
        -1int
    } else if enemies[j].spec_collides(Dot { x: m.x, y: m.y }) {
        j
    } else {
        first_hit_from(enemies, count, m, j + 1)
    }
}

/// The score counter after one increment, wrapping within `u8`.
pub open spec fn wrap_inc(s: int) -> int {
    if s >= 255 {
        0int
    } else {
        s + 1
    }
}

/// One player missile resolved against the enemies in order: the first
/// enemy whose sprite covers the missile's cell takes one hit and the
/// missile is hidden at once (so it scores at most one hit); the score
/// rises by one exactly when the hit takes that enemy from alive to
/// dead (a hit on an enemy already dead, waiting for compaction, does
/// not score). Yields the enemy life counters, the missile, and the
/// score afterwards.
pub open spec fn resolve_player_missile(
    enemies: Seq<Tank>,
    count: int,
    lives: Seq<int>,
    m: Missile,
    score: int,
) -> (Seq<int>, Missile, int) {
    if !m.spec_visible() {
        (lives, m, score)
    } else {
        let j = first_hit_from(enemies, count, m, 0);
        if j < 0 {
            (lives, m, score)
        } else {
            let l2 = sat_dec(lives[j]);
            (lives.update(j, l2), spec_hidden(m), if lives[j] > 0 && l2 <= 0 {
                wrap_inc(score)
            } else {
                score
            })
        }
    }
}

/// If nothing before `j` hits and `j` hits, `j` is the first hit.
proof fn lemma_first_hit_found(enemies: Seq<Tank>, count: int, m: Missile, j: int, i: int)
    requires
        0 <= i <= j < count,
        forall|k: int| i <= k < j ==> !enemies[k].spec_collides(Dot { x: m.x, y: m.y }),
        enemies[j].spec_collides(Dot { x: m.x, y: m.y }),
    ensures
        first_hit_from(enemies, count, m, i) == j,
    decreases j - i,
{
    if i < j {
        lemma_first_hit_found(enemies, count, m, j, i + 1);
    }
}

/// If nothing from `i` on hits, there is no first hit.
proof fn lemma_first_hit_none(enemies: Seq<Tank>, count: int, m: Missile, i: int)
    requires
        0 <= i <= count,
        forall|k: int| i <= k < count ==> !enemies[k].spec_collides(Dot { x: m.x, y: m.y }),
    ensures
        first_hit_from(enemies, count, m, i) == -1,
    decreases count - i,
{
    if i < count {
        lemma_first_hit_none(enemies, count, m, i + 1);
    }
}

/// The first hit, when there is one, lies in `[j, count)`.
proof fn lemma_first_hit_bounds(enemies: Seq<Tank>, count: int, m: Missile, j: int)
    requires
        0 <= j,
    ensures
        first_hit_from(enemies, count, m, j) == -1 || (j <= first_hit_from(enemies, count, m, j)
            < count),
    decreases count - j,
{
    if j < count {
        lemma_first_hit_bounds(enemies, count, m, j + 1);
    }
}

/// The first hit depends only on the enemies' sprites and positions,
/// not on their lives or missiles.
proof fn lemma_first_hit_congruence(a: Seq<Tank>, b: Seq<Tank>, count: int, m: Missile, j: int)
    requires
        0 <= j <= count <= a.len(),
        count <= b.len(),
        forall|k: int|
            0 <= k < count ==> (#[trigger] a[k]).figure == b[k].figure && a[k].pos == b[k].pos,
    ensures
        first_hit_from(a, count, m, j) == first_hit_from(b, count, m, j),
    decreases count - j,
{
    if j < count {
        assert(a[j].spec_collides(Dot { x: m.x, y: m.y }) == b[j].spec_collides(
            Dot { x: m.x, y: m.y },
        ));
        lemma_first_hit_congruence(a, b, count, m, j + 1);
    }
}

/// Scoring on a kill: when a visible player missile first hits an
/// enemy that has exactly one life left, the resolution decrements
/// that enemy to zero lives, hides the missile, and raises the score
/// by exactly one.
pub proof fn lemma_score_on_kill(
    enemies: Seq<Tank>,
    count: int,
    lives: Seq<int>,
    m: Missile,
    score: int,
    j: int,
)
    requires
        0 <= j < count <= enemies.len(),
        0 <= j < lives.len(),
        m.spec_visible(),
        forall|k: int| 0 <= k < j ==> !enemies[k].spec_collides(Dot { x: m.x, y: m.y }),
        enemies[j].spec_collides(Dot { x: m.x, y: m.y }),
        lives[j] == 1,
        0 <= score < 255,
    ensures
        resolve_player_missile(enemies, count, lives, m, score).2 == score + 1,
        resolve_player_missile(enemies, count, lives, m, score).0[j] == 0,
        resolve_player_missile(enemies, count, lives, m, score).1 == spec_hidden(m),
{
    lemma_first_hit_found(enemies, count, m, j, 0);
}

/// A hit on an already dead enemy (compaction pending) never scores.
pub proof fn lemma_no_score_on_corpse(
    enemies: Seq<Tank>,
    count: int,
    lives: Seq<int>,
    m: Missile,
    score: int,
    j: int,
)
    requires
        0 <= j < count <= enemies.len(),
        0 <= j < lives.len(),
        m.spec_visible(),
        forall|k: int| 0 <= k < j ==> !enemies[k].spec_collides(Dot { x: m.x, y: m.y }),
        enemies[j].spec_collides(Dot { x: m.x, y: m.y }),
        lives[j] <= 0,
    ensures
        resolve_player_missile(enemies, count, lives, m, score).2 == score,
{
    lemma_first_hit_found(enemies, count, m, j, 0);
}

/// No score without a kill: when the first enemy a player missile hits
/// still has lives left afterwards, the score does not change.
pub proof fn lemma_no_score_without_kill(
    enemies: Seq<Tank>,
    count: int,
    lives: Seq<int>,
    m: Missile,
    score: int,
    j: int,
)
    requires
        0 <= j < count <= enemies.len(),
        0 <= j < lives.len(),
        m.spec_visible(),
        forall|k: int| 0 <= k < j ==> !enemies[k].spec_collides(Dot { x: m.x, y: m.y }),
        enemies[j].spec_collides(Dot { x: m.x, y: m.y }),
        lives[j] >= 2,
    ensures
        resolve_player_missile(enemies, count, lives, m, score).2 == score,
        resolve_player_missile(enemies, count, lives, m, score).0[j] == lives[j] - 1,
{
    lemma_first_hit_found(enemies, count, m, j, 0);
}

impl TanksGame {
    /// Resolves one of the player's missile slots against the enemies
    /// in order, exactly as `resolve_player_missile` states.
    fn resolve_player_missile_slot(&mut self, slot: usize)
        requires
            old(self).wf(),
            slot < 2,
        ensures
            final(self).wf(),
            final(self).screen == old(self).screen,
            final(self).prng == old(self).prng,
            final(self).step == old(self).step,
            final(self).test_mode == old(self).test_mode,
            final(self).enemy_count == old(self).enemy_count,
            final(self).tank.pos == old(self).tank.pos,
            final(self).tank.rotation == old(self).tank.rotation,
            final(self).tank.figure == old(self).tank.figure,
            final(self).tank.origin == old(self).tank.origin,
            final(self).tank.lives == old(self).tank.lives,
            final(self).tank.missiles@[1 - slot as int] == old(self).tank.missiles@[1 - slot as int],
            forall|i: int|
                0 <= i < 4 ==> {
                    let e0 = old(self).enemies@[i];
                    let e1 = #[trigger] final(self).enemies@[i];
                    e1.pos == e0.pos && e1.rotation == e0.rotation && e1.figure == e0.figure
                        && e1.origin == e0.origin && e1.missiles == e0.missiles
                },
            ({
                let lives0 = Seq::new(4, |i: int| old(self).enemies@[i].lives as int);
                let r = resolve_player_missile(
                    old(self).enemies@,
                    old(self).enemy_count as int,
                    lives0,
                    old(self).tank.missiles@[slot as int],
                    old(self).score as int,
                );
                &&& final(self).tank.missiles@[slot as int] == r.1
                &&& forall|i: int|
                    0 <= i < 4 ==> ((#[trigger] final(self).enemies@[i]).lives as int) == r.0[i]
                &&& final(self).score as int == r.2
            }),
    {
        let ghost enemies_in = old(self).enemies@;
        let ghost count = old(self).enemy_count as int;
        let ghost lives0 = Seq::new(4, |i: int| old(self).enemies@[i].lives as int);
        let m = self.tank.missiles[slot];
        if !m.visible() {
            return ;
        }
        let mut j: usize = 0;
        while j < self.enemy_count
            invariant
                j <= self.enemy_count,
                slot < 2,
                m == old(self).tank.missiles@[slot as int],
                m.spec_visible(),
                *self == *old(self),
                forall|k: int| 0 <= k < j ==> !enemies_in[k].spec_collides(Dot { x: m.x, y: m.y }),
            decreases self.enemy_count - j,
        {
            let e = self.enemies[j];
            if e.collides(Dot::new(m.x, m.y)) {
                let was_alive = e.lives > 0;
                let mut e2 = e;
                e2.hit();
                let mut mm = m;
                mm.conceal();
                self.tank.missiles[slot] = mm;
                if was_alive && e2.lives <= 0 {
                    self.score = if self.score == 255 {
                        0
                    } else {
                        self.score + 1
                    };
                }
                self.enemies[j] = e2;
                proof {
                    lemma_first_hit_found(enemies_in, count, m, j as int, 0);
                    let r = resolve_player_missile(
                        enemies_in,
                        count,
                        lives0,
                        m,
                        old(self).score as int,
                    );
                    assert forall|i: int| 0 <= i < 4 implies ((
                    #[trigger] self.enemies@[i]).lives as int) == r.0[i] by {
                        if i != j {
                            assert(self.enemies@[i] == enemies_in[i]);
                        }
                    }
                }
                return ;
            }
            j = j + 1;
        }
        proof {
            lemma_first_hit_none(enemies_in, count, m, count);
            lemma_first_hit_none(enemies_in, count, m, 0);
        }
    }

    /// Collision resolution, two independent passes. First every
    /// visible enemy missile whose cell lies on the player costs the
    /// player one life and is hidden. Then each player missile in turn
    /// is resolved against the enemies in order: the first enemy it
    /// covers takes one hit, the missile hides at once, and the score
    /// rises by one exactly when a hit leaves an enemy dead (an enemy
    /// can still be hit by both missiles in the same tick).
    pub fn check_collisions(&mut self)
        requires
            old(self).wf(),
        ensures
            final(self).wf(),
            final(self).screen == old(self).screen,
            final(self).prng == old(self).prng,
            final(self).step == old(self).step,
            final(self).test_mode == old(self).test_mode,
            final(self).enemy_count == old(self).enemy_count,
            final(self).tank.pos == old(self).tank.pos,
            final(self).tank.rotation == old(self).tank.rotation,
            final(self).tank.figure == old(self).tank.figure,
            final(self).tank.origin == old(self).tank.origin,
            final(self).tank.lives as int == sat_dec_n(
                old(self).tank.lives as int,
                hits_on_player(old(self).tank, old(self).enemies@, old(self).enemy_count as int),
            ),
            forall|i: int|
                0 <= i < old(self).enemy_count ==> {
                    let e0 = old(self).enemies@[i];
                    let e1 = #[trigger] final(self).enemies@[i];
                    &&& e1.pos == e0.pos
                    &&& e1.rotation == e0.rotation
                    &&& e1.figure == e0.figure
                    &&& e1.origin == e0.origin
                    &&& e1.missiles@[0] == (if missile_hits_tank(old(self).tank, e0.missiles@[0]) {
                        spec_hidden(e0.missiles@[0])
                    } else {
                        e0.missiles@[0]
                    })
                    &&& e1.missiles@[1] == (if missile_hits_tank(old(self).tank, e0.missiles@[1]) {
                        spec_hidden(e0.missiles@[1])
                    } else {
                        e0.missiles@[1]
                    })
                },
            forall|i: int|
                old(self).enemy_count <= i < 4 ==> #[trigger] final(self).enemies@[i] == old(
                    self,
                ).enemies@[i],
            ({
                let lives0 = Seq::new(4, |i: int| old(self).enemies@[i].lives as int);
                let r0 = resolve_player_missile(
                    old(self).enemies@,
                    old(self).enemy_count as int,
                    lives0,
                    old(self).tank.missiles@[0],
                    old(self).score as int,
                );
                let r1 = resolve_player_missile(
                    old(self).enemies@,
                    old(self).enemy_count as int,
                    r0.0,
                    old(self).tank.missiles@[1],
                    r0.2,
                );
                &&& final(self).tank.missiles@[0] == r0.1
                &&& final(self).tank.missiles@[1] == r1.1
                &&& forall|i: int|
                    0 <= i < 4 ==> ((#[trigger] final(self).enemies@[i]).lives as int) == r1.0[i]
                &&& final(self).score as int == r1.2
            }),
    {
        let ghost tank0 = old(self).tank;
        let ghost enemies0 = old(self).enemies@;
        let ghost count = old(self).enemy_count as int;
        let mut i: usize = 0;
        while i < self.enemy_count
            invariant
                i <= self.enemy_count,
                self.wf(),
                self.screen == old(self).screen,
                self.prng == old(self).prng,
                self.step == old(self).step,
                self.test_mode == old(self).test_mode,
                self.enemy_count == old(self).enemy_count,
                self.score == old(self).score,
                self.tank.pos == tank0.pos,
                self.tank.rotation == tank0.rotation,
                self.tank.figure == tank0.figure,
                self.tank.origin == tank0.origin,
                self.tank.missiles == tank0.missiles,
                self.tank.lives as int == sat_dec_n(
                    tank0.lives as int,
                    hits_on_player(tank0, enemies0, i as int),
                ),
                forall|k: int|
                    0 <= k < i ==> {
                        let e0 = enemies0[k];
                        let e1 = #[trigger] self.enemies@[k];
                        &&& e1.pos == e0.pos
                        &&& e1.rotation == e0.rotation
                        &&& e1.figure == e0.figure
                        &&& e1.origin == e0.origin
                        &&& e1.lives == e0.lives
                        &&& e1.missiles@[0] == (if missile_hits_tank(tank0, e0.missiles@[0]) {
                            spec_hidden(e0.missiles@[0])
                        } else {
                            e0.missiles@[0]
                        })
                        &&& e1.missiles@[1] == (if missile_hits_tank(tank0, e0.missiles@[1]) {
                            spec_hidden(e0.missiles@[1])
                        } else {
                            e0.missiles@[1]
                        })
                    },
                forall|k: int| i <= k < 4 ==> #[trigger] self.enemies@[k] == enemies0[k],
            decreases self.enemy_count - i,
        {
            let ghost lives_before = self.tank.lives as int;
            let mut e = self.enemies[i];
            let m0 = e.missiles[0];
            if m0.visible() && self.tank.collides(Dot::new(m0.x, m0.y)) {
                self.tank.hit();
                let mut mm = m0;
                mm.conceal();
                e.missiles[0] = mm;
            }
            let m1 = e.missiles[1];
            if m1.visible() && self.tank.collides(Dot::new(m1.x, m1.y)) {
                self.tank.hit();
                let mut mm = m1;
                mm.conceal();
                e.missiles[1] = mm;
            }
            self.enemies[i] = e;
            proof {
                let h = hits_on_player(tank0, enemies0, i as int);
                lemma_hits_nonneg(tank0, enemies0, i as int);
                assert(hits_on_player(tank0, enemies0, i + 1) == h + (if missile_hits_tank(
                    tank0,
                    enemies0[i as int].missiles@[0],
                ) {
                    1int
                } else {
                    0int
                }) + (if missile_hits_tank(tank0, enemies0[i as int].missiles@[1]) {
                    1int
                } else {
                    0int
                }));
                assert(sat_dec_n(tank0.lives as int, h + 1) == sat_dec(
                    sat_dec_n(tank0.lives as int, h),
                ));
                assert(sat_dec_n(tank0.lives as int, h + 2) == sat_dec(
                    sat_dec_n(tank0.lives as int, h + 1),
                ));
            }
            i = i + 1;
        }
        let ghost mid = *self;
        self.resolve_player_missile_slot(0);
        let ghost after0 = *self;
        self.resolve_player_missile_slot(1);
        proof {
            let m0 = tank0.missiles@[0];
            let m1 = tank0.missiles@[1];
            let score0 = old(self).score as int;
            let lives0 = Seq::new(4, |k: int| enemies0[k].lives as int);
            let lives_mid = Seq::new(4, |k: int| mid.enemies@[k].lives as int);
            assert(lives_mid =~= lives0);
            assert(mid.tank.missiles@[0] == m0);
            assert(mid.score as int == score0);
            let r_mid = resolve_player_missile(mid.enemies@, count, lives_mid, m0, score0);
            let r0 = resolve_player_missile(enemies0, count, lives0, m0, score0);
            lemma_first_hit_bounds(enemies0, count, m0, 0);
            lemma_first_hit_congruence(mid.enemies@, enemies0, count, m0, 0);
            assert(first_hit_from(mid.enemies@, count, m0, 0) == first_hit_from(
                enemies0,
                count,
                m0,
                0,
            ));
            assert(r_mid.0 == r0.0 && r_mid.1 == r0.1 && r_mid.2 == r0.2);
            assert(after0.tank.missiles@[0] == r0.1);
            assert(after0.score as int == r0.2);
            let lives_after0 = Seq::new(4, |k: int| after0.enemies@[k].lives as int);
            assert forall|k: int| 0 <= k < 4 implies lives_after0[k] == r0.0[k] by {
                assert((after0.enemies@[k].lives as int) == r_mid.0[k]);
            }
            assert(r0.0.len() == 4);
            assert(lives_after0 =~= r0.0);
            assert(after0.tank.missiles@[1] == m1);
            let r_after = resolve_player_missile(after0.enemies@, count, lives_after0, m1, r0.2);
            let r1 = resolve_player_missile(enemies0, count, r0.0, m1, r0.2);
            lemma_first_hit_bounds(enemies0, count, m1, 0);
            lemma_first_hit_congruence(after0.enemies@, enemies0, count, m1, 0);
            assert(first_hit_from(after0.enemies@, count, m1, 0) == first_hit_from(
                enemies0,
                count,
                m1,
                0,
            ));
            assert(r_after.0 == r1.0 && r_after.1 == r1.1 && r_after.2 == r1.2);
            assert(final(self).tank.missiles@[1] == r1.1);
            assert(final(self).tank.missiles@[0] == r0.1);
            assert forall|k: int| 0 <= k < 4 implies ((#[trigger] final(self).enemies@[k]).lives
                as int) == r1.0[k] by {
                assert((final(self).enemies@[k].lives as int) == r_after.0[k]);
            }
            assert(final(self).score as int == r1.2);
        }
    }
}
} // verus!
