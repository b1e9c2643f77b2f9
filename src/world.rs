//! The simulation state and one tick of it, phase by phase: the reset after
//! a death, motion and collisions, firing, the start of a wave, and the
//! cleanup pass.

use vstd::prelude::*;
use crate::geometry::{Vector2, Viewport, NANOS_PER_PIXEL, bullet_hits, player_hits, bullet_overlaps, player_overlaps};
use crate::entity::{Bullet, Enemy, Cue, BULLET_LIFETIME};
use crate::spawn::{valid_wave, spawnable};
use crate::laws::lemma_tick_keeps_wf;

verus! {

/// Cooldown after a shot, in hundredths; it loses one hundredth per tick.
pub const SHOT_COOLDOWN: i64 = 50;

/// A unit aim direction is given in thousandths per component.
pub const AIM_UNIT: i64 = 1000;

/// Bullet speed in pixels per second; with the aim in thousandths this gives
/// a velocity in thousandths of a pixel per second.
pub const SHOT_SPEED: i64 = 200;

/// Points for each bullet that hits an enemy.
pub const KILL_POINTS: u64 = 5;

/// What the player does during one tick.
#[derive(Clone, Copy, Debug, PartialEq, Eq, Structural)]
pub struct Input {
    /// The fire button is held.
    pub fire: bool,
    /// The direction the player faces, in thousandths per component. A new
    /// bullet travels against it.
    pub aim: Vector2,
}

impl Input {
    pub open spec fn wf(self) -> bool {
        -AIM_UNIT <= self.aim.x <= AIM_UNIT && -AIM_UNIT <= self.aim.y <= AIM_UNIT
    }
}

/// The whole simulation state.
pub struct MainState {
    pub player_pos: Vector2,
    pub bullets: Vec<Bullet>,
    pub enemies: Vec<Enemy>,
    /// Hundredths left before the next shot is allowed.
    pub shoot_cooldown: i64,
    pub score: u64,
    pub player_dead: bool,
}

/// The mathematical value of a `MainState`.
pub struct World {
    pub player_pos: Vector2,
    pub bullets: Seq<Bullet>,
    pub enemies: Seq<Enemy>,
    pub shoot_cooldown: i64,
    pub score: u64,
    pub player_dead: bool,
}

impl View for MainState {
    type V = World;

    open spec fn view(&self) -> World {
        World {
            player_pos: self.player_pos,
            bullets: self.bullets@,
            enemies: self.enemies@,
            shoot_cooldown: self.shoot_cooldown,
            score: self.score,
            player_dead: self.player_dead,
        }
    }
}

impl World {
    /// Every body moves within the speed limit and every bullet can age.
    pub open spec fn wf(self) -> bool {
        &&& forall|j: int| 0 <= j < self.bullets.len() ==> #[trigger] self.bullets[j].wf()
        &&& forall|i: int| 0 <= i < self.enemies.len() ==> #[trigger] self.enemies[i].wf()
    }
}

/// The state that a new game starts in.
pub open spec fn initial_world(view: Viewport) -> World {
    World {
        player_pos: Vector2 {
            x: (view.width * (NANOS_PER_PIXEL / 2)) as i64,
            y: (view.height * (NANOS_PER_PIXEL / 2)) as i64,
        },
        bullets: Seq::empty(),
        enemies: Seq::empty(),
        shoot_cooldown: 0,
        score: 0,
        player_dead: false,
    }
}

/// The reset at the start of a tick that follows a death.
pub open spec fn after_reset(w: World) -> World {
    if w.player_dead {
        World { score: 0, bullets: Seq::empty(), enemies: Seq::empty(), ..w }
    } else {
        w
    }
}

pub open spec fn cooled(c: i64) -> i64 {
    if c > i64::MIN {
        (c - 1) as i64
    } else {
        c
    }
}

pub open spec fn stepped_bullets(bs: Seq<Bullet>, dt: u32, view: Viewport) -> Seq<Bullet> {
    bs.map_values(|b: Bullet| b.stepped(dt, view))
}

pub open spec fn stepped_enemies(es: Seq<Enemy>, dt: u32, view: Viewport) -> Seq<Enemy> {
    es.map_values(|e: Enemy| e.stepped(dt, view))
}

/// Some enemy of `es` overlaps the bullet.
pub open spec fn struck(b: Bullet, es: Seq<Enemy>) -> bool {
    exists|i: int| 0 <= i < es.len() && #[trigger] bullet_hits(b.position, es[i].position)
}

/// Some bullet of `bs` overlaps the enemy.
pub open spec fn shot_down(e: Enemy, bs: Seq<Bullet>) -> bool {
    exists|j: int| 0 <= j < bs.len() && #[trigger] bullet_hits(bs[j].position, e.position)
}

/// Some enemy of `es` overlaps the player at `p`.
pub open spec fn caught(p: Vector2, es: Seq<Enemy>) -> bool {
    exists|i: int| 0 <= i < es.len() && #[trigger] player_hits(p, es[i].position)
}

/// A bullet that hit something has its lifetime forced to zero.
pub open spec fn spent(b: Bullet, es: Seq<Enemy>) -> Bullet {
    if struck(b, es) {
        Bullet { lifetime: 0, ..b }
    } else {
        b
    }
}

/// An enemy that some bullet hit is flagged dead.
pub open spec fn marked(e: Enemy, bs: Seq<Bullet>) -> Enemy {
    Enemy { is_dead: e.is_dead || shot_down(e, bs), ..e }
}

/// How many bullets of `bs` overlap an enemy at `e`.
pub open spec fn hit_count(bs: Seq<Bullet>, e: Vector2) -> nat
    decreases bs.len(),
{
    if bs.len() == 0 {
        0
    } else {
        hit_count(bs.drop_last(), e) + if bullet_hits(bs.last().position, e) {
            1nat
        } else {
            0nat
        }
    }
}

/// How many (enemy, bullet) pairs overlap.
pub open spec fn pair_count(es: Seq<Enemy>, bs: Seq<Bullet>) -> nat
    decreases es.len(),
{
    if es.len() == 0 {
        0
    } else {
        pair_count(es.drop_last(), bs) + hit_count(bs, es.last().position)
    }
}

/// The score after `hits` kills, saturating at the largest `u64`.
pub open spec fn plus_points(score: u64, hits: nat) -> u64 {
    if score + KILL_POINTS * hits > u64::MAX {
        u64::MAX
    } else {
        (score + KILL_POINTS * hits) as u64
    }
}

/// `n` pop cues.
pub open spec fn pops(n: nat) -> Seq<Cue> {
    Seq::new(n, |i: int| Cue::Pop)
}

/// Cooldown, motion of every body, and the collisions at the new positions.
pub open spec fn advanced(w: World, dt: u32, view: Viewport) -> World {
    let bs = stepped_bullets(w.bullets, dt, view);
    let es = stepped_enemies(w.enemies, dt, view);
    World {
        bullets: bs.map_values(|b: Bullet| spent(b, es)),
        enemies: es.map_values(|e: Enemy| marked(e, bs)),
        shoot_cooldown: cooled(w.shoot_cooldown),
        score: plus_points(w.score, pair_count(es, bs)),
        player_dead: w.player_dead || caught(w.player_pos, es),
        ..w
    }
}

/// The number of hits during the motion phase of `w`.
pub open spec fn hits_in(w: World, dt: u32, view: Viewport) -> nat {
    pair_count(stepped_enemies(w.enemies, dt, view), stepped_bullets(w.bullets, dt, view))
}

/// The fire button is held and the cooldown has run out.
pub open spec fn fires(w: World, input: Input) -> bool {
    input.fire && w.shoot_cooldown <= 0
}

/// A new bullet at the player's position, moving against the aim.
pub open spec fn shot(p: Vector2, aim: Vector2) -> Bullet {
    Bullet {
        position: p,
        velocity: Vector2 { x: (-SHOT_SPEED * aim.x) as i64, y: (-SHOT_SPEED * aim.y) as i64 },
        lifetime: BULLET_LIFETIME,
    }
}

pub open spec fn after_fire(w: World, input: Input) -> World {
    if fires(w, input) {
        World {
            shoot_cooldown: SHOT_COOLDOWN,
            bullets: w.bullets.push(shot(w.player_pos, input.aim)),
            ..w
        }
    } else {
        w
    }
}

/// The state after `wave` takes the empty field; a death reset earlier in
/// the tick is then over. Bullets stay: only a death clears them.
pub open spec fn wave_begun(w: World, wave: Seq<Enemy>) -> World {
    World { enemies: wave, player_dead: false, ..w }
}

/// The bullets of `bs` that are still alive, in order.
pub open spec fn live_bullets(bs: Seq<Bullet>) -> Seq<Bullet> {
    bs.filter(|b: Bullet| b.live())
}

/// The enemies of `es` that are not flagged dead, in order.
pub open spec fn live_enemies(es: Seq<Enemy>) -> Seq<Enemy> {
    es.filter(|e: Enemy| !e.is_dead)
}

/// The cleanup pass: spent bullets and dead enemies leave.
pub open spec fn cleaned(w: World) -> World {
    World {
        bullets: live_bullets(w.bullets),
        enemies: live_enemies(w.enemies),
        ..w
    }
}

/// One tick up to the cleanup pass.
pub open spec fn before_wave(w: World, dt: u32, input: Input, view: Viewport) -> World {
    after_fire(advanced(after_reset(w), dt, view), input)
}

/// The tick up to the wave check: everything, cleanup included, but the
/// start of a new wave.
pub open spec fn settled(w: World, dt: u32, input: Input, view: Viewport) -> World {
    cleaned(before_wave(w, dt, input, view))
}

/// A wave starts at the end of the tick: no enemy is left after the
/// cleanup pass, the view has room for one, and no death was found during
/// the tick. A death found during the tick is kept, so that the next tick
/// runs the reset and starts the wave; a death reset at the start of this
/// tick does not hold the wave back.
pub open spec fn wave_starts(w: World, dt: u32, input: Input, view: Viewport) -> bool {
    let c = settled(w, dt, input, view);
    &&& c.enemies.len() == 0
    &&& w.player_dead || !c.player_dead
    &&& view.width > 0 && view.height > 0
}

/// One whole tick, where `wave` is the wave that starts if one is due.
pub open spec fn next_world(w: World, dt: u32, input: Input, view: Viewport, wave: Seq<Enemy>) -> World {
    let c = settled(w, dt, input, view);
    if wave_starts(w, dt, input, view) { wave_begun(c, wave) } else { c }
}

/// The cues of a tick before any wave starts, in order: a death, one pop per
/// hit, and a shot.
pub open spec fn early_cues(w: World, dt: u32, input: Input, view: Viewport) -> Seq<Cue> {
    let r = after_reset(w);
    (if w.player_dead { seq![Cue::Die] } else { Seq::empty() })
        + pops(hits_in(r, dt, view))
        + (if fires(advanced(r, dt, view), input) { seq![Cue::Shoot] } else { Seq::empty() })
}

/// The cues of one tick, in order: those before the wave check, then the
/// start of a wave that does not follow a death.
pub open spec fn tick_cues(w: World, dt: u32, input: Input, view: Viewport) -> Seq<Cue> {
    let c = settled(w, dt, input, view);
    early_cues(w, dt, input, view)
        + (if wave_starts(w, dt, input, view) && !c.player_dead { seq![Cue::WaveStart] } else { Seq::empty() })
}

proof fn lemma_hit_count_by_position(a: Seq<Bullet>, b: Seq<Bullet>, t: Vector2)
    requires
        a.len() == b.len(),
        forall|j: int| 0 <= j < a.len() ==> a[j].position == b[j].position,
    ensures
        hit_count(a, t) == hit_count(b, t),
    decreases a.len(),
{
    if a.len() > 0 {
        lemma_hit_count_by_position(a.drop_last(), b.drop_last(), t);
    }
}

proof fn lemma_hit_count_zero(bs: Seq<Bullet>, t: Vector2)
    ensures
        (hit_count(bs, t) == 0) == !(exists|j: int| 0 <= j < bs.len() && #[trigger] bullet_hits(bs[j].position, t)),
    decreases bs.len(),
{
    if bs.len() > 0 {
        let s = bs.drop_last();
        lemma_hit_count_zero(s, t);
        if exists|j: int| 0 <= j < s.len() && #[trigger] bullet_hits(s[j].position, t) {
            let j = choose|j: int| 0 <= j < s.len() && #[trigger] bullet_hits(s[j].position, t);
            assert(bullet_hits(bs[j].position, t));
        }
        if exists|j: int| 0 <= j < bs.len() && #[trigger] bullet_hits(bs[j].position, t) {
            let j = choose|j: int| 0 <= j < bs.len() && #[trigger] bullet_hits(bs[j].position, t);
            if j < s.len() {
                assert(bullet_hits(s[j].position, t));
            }
        }
    }
}

/// Marks every bullet that overlaps an enemy at `target` as spent, adding
/// the points and a pop cue for each one.
fn strike(bullets: &mut Vec<Bullet>, target: Vector2, score: &mut u64, cues: &mut Vec<Cue>) -> (hit: bool)
    ensures
        final(bullets)@.len() == old(bullets)@.len(),
        forall|j: int| 0 <= j < old(bullets)@.len() ==> #[trigger] final(bullets)@[j] == if bullet_hits(old(bullets)@[j].position, target) {
            Bullet { lifetime: 0, ..old(bullets)@[j] }
        } else {
            old(bullets)@[j]
        },
        hit == (hit_count(old(bullets)@, target) > 0),
        *final(score) == plus_points(*old(score), hit_count(old(bullets)@, target)),
        final(cues)@ == old(cues)@ + pops(hit_count(old(bullets)@, target)),
{
    let ghost b0 = bullets@;
    let ghost s0 = *score;
    let ghost c0 = cues@;
    let mut hit = false;
    let mut j: usize = 0;
    while j < bullets.len()
        invariant
            j <= bullets@.len() == b0.len(),
            forall|k: int| 0 <= k < j ==> #[trigger] bullets@[k] == if bullet_hits(b0[k].position, target) {
                Bullet { lifetime: 0, ..b0[k] }
            } else {
                b0[k]
            },
            forall|k: int| j <= k < b0.len() ==> #[trigger] bullets@[k] == b0[k],
            hit == (hit_count(b0.take(j as int), target) > 0),
            *score == plus_points(s0, hit_count(b0.take(j as int), target)),
            cues@ == c0 + pops(hit_count(b0.take(j as int), target)),
        decreases b0.len() - j,
    {
        let b = bullets[j];
        let ghost n = hit_count(b0.take(j as int), target);
        assert(b0.take(j as int + 1).drop_last() =~= b0.take(j as int));
        if bullet_overlaps(b.position, target) {
            bullets.set(j, Bullet { lifetime: 0, ..b });
            *score = score.saturating_add(KILL_POINTS);
            cues.push(Cue::Pop);
            hit = true;
            assert(c0 + pops(n) + seq![Cue::Pop] =~= c0 + pops(n + 1));
        }
        j = j + 1;
    }
    assert(b0.take(j as int) =~= b0);
    hit
}

impl MainState {
    /// A new game: the player in the middle of the view, no bullets, no
    /// enemies, no score.
    pub fn new(view: Viewport) -> (r: MainState)
        ensures
            r@ == initial_world(view),
    {
        MainState {
            player_pos: Vector2 {
                x: view.width as i64 * (NANOS_PER_PIXEL / 2),
                y: view.height as i64 * (NANOS_PER_PIXEL / 2),
            },
            bullets: Vec::new(),
            enemies: Vec::new(),
            shoot_cooldown: 0,
            score: 0,
            player_dead: false,
        }
    }

    /// Removes all bullets and enemies.
    pub fn clear_entities(&mut self)
        ensures
            final(self)@ == (World { bullets: Seq::empty(), enemies: Seq::empty(), ..old(self)@ }),
    {
        self.bullets.clear();
        self.enemies.clear();
    }

    /// The cleanup pass: drops spent bullets and dead enemies, keeping the
    /// order of the rest.
    pub fn remove_useless_things(&mut self)
        ensures
            final(self)@ == cleaned(old(self)@),
    {
        let ghost w = self@;
        let mut bullets: Vec<Bullet> = Vec::new();
        let mut j: usize = 0;
        while j < self.bullets.len()
            invariant
                self@ == w,
                j <= w.bullets.len(),
                bullets@ == live_bullets(w.bullets.take(j as int)),
            decreases w.bullets.len() - j,
        {
            proof {
                reveal(Seq::filter);
                assert(w.bullets.take(j as int + 1).drop_last() =~= w.bullets.take(j as int));
            }
            if self.bullets[j].lifetime > 0 {
                bullets.push(self.bullets[j]);
            }
            j = j + 1;
        }
        let mut enemies: Vec<Enemy> = Vec::new();
        let mut i: usize = 0;
        while i < self.enemies.len()
            invariant
                self@ == w,
                i <= w.enemies.len(),
                enemies@ == live_enemies(w.enemies.take(i as int)),
            decreases w.enemies.len() - i,
        {
            proof {
                reveal(Seq::filter);
                assert(w.enemies.take(i as int + 1).drop_last() =~= w.enemies.take(i as int));
            }
            if !self.enemies[i].is_dead {
                enemies.push(self.enemies[i]);
            }
            i = i + 1;
        }
        assert(w.bullets.take(j as int) =~= w.bullets);
        assert(w.enemies.take(i as int) =~= w.enemies);
        self.bullets = bullets;
        self.enemies = enemies;
    }

    /// The reset that follows a death: score back to zero, the field
    /// cleared, and a die cue. The death flag stays until the next wave.
    pub fn settle_death(&mut self, cues: &mut Vec<Cue>)
        ensures
            final(self)@ == after_reset(old(self)@),
            final(cues)@ == old(cues)@ + if old(self).player_dead {
                seq![Cue::Die]
            } else {
                Seq::empty()
            },
    {
        if self.player_dead {
            self.score = 0;
            self.clear_entities();
            cues.push(Cue::Die);
        } else {
            assert(cues@ + Seq::empty() =~= cues@);
        }
    }

    /// Counts down the cooldown, moves every bullet and enemy, and settles
    /// the collisions at the new positions: a bullet that overlaps an enemy
    /// is spent, the enemy flagged dead, five points and a pop cue given for
    /// each such pair; an enemy that overlaps the player kills the player.
    pub fn advance_bodies(&mut self, dt: u32, view: Viewport, cues: &mut Vec<Cue>)
        requires
            old(self)@.wf(),
        ensures
            final(self)@ == advanced(old(self)@, dt, view),
            final(cues)@ == old(cues)@ + pops(hits_in(old(self)@, dt, view)),
    {
        let ghost w = self@;
        let ghost c0 = cues@;
        self.shoot_cooldown = if self.shoot_cooldown > i64::MIN {
            self.shoot_cooldown - 1
        } else {
            self.shoot_cooldown
        };
        let ghost bs = stepped_bullets(w.bullets, dt, view);
        let ghost es = stepped_enemies(w.enemies, dt, view);
        let mut j: usize = 0;
        while j < self.bullets.len()
            invariant
                j <= self.bullets@.len() == w.bullets.len(),
                forall|k: int| 0 <= k < j ==> #[trigger] self.bullets@[k] == bs[k],
                forall|k: int| j <= k < w.bullets.len() ==> #[trigger] self.bullets@[k] == w.bullets[k],
                self.enemies@ == w.enemies,
                self.player_pos == w.player_pos,
                self.shoot_cooldown == cooled(w.shoot_cooldown),
                self.score == w.score,
                self.player_dead == w.player_dead,
                cues@ == c0,
                w.wf(),
                bs == stepped_bullets(w.bullets, dt, view),
            decreases w.bullets.len() - j,
        {
            let mut b = self.bullets[j];
            assert(w.bullets[j as int].wf());
            b.step(dt, view);
            self.bullets.set(j, b);
            j = j + 1;
        }
        assert(self.bullets@ =~= bs);
        let ghost s1 = self.score;
        assert(es.take(0) =~= Seq::<Enemy>::empty());
        assert(c0 + pops(0) =~= c0);
        assert forall|k: int| 0 <= k < bs.len() implies #[trigger] self.bullets@[k] == spent(bs[k], es.take(0)) by {}
        let mut i: usize = 0;
        while i < self.enemies.len()
            invariant
                i <= self.enemies@.len() == w.enemies.len(),
                forall|k: int| 0 <= k < i ==> #[trigger] self.enemies@[k] == marked(es[k], bs),
                forall|k: int| i <= k < w.enemies.len() ==> #[trigger] self.enemies@[k] == w.enemies[k],
                self.bullets@.len() == bs.len(),
                forall|k: int| 0 <= k < bs.len() ==> #[trigger] self.bullets@[k] == spent(bs[k], es.take(i as int)),
                self.score == plus_points(s1, pair_count(es.take(i as int), bs)),
                cues@ == c0 + pops(pair_count(es.take(i as int), bs)),
                self.player_dead == (w.player_dead || caught(w.player_pos, es.take(i as int))),
                self.player_pos == w.player_pos,
                self.shoot_cooldown == cooled(w.shoot_cooldown),
                w.wf(),
                es == stepped_enemies(w.enemies, dt, view),
            decreases w.enemies.len() - i,
        {
            let mut e = self.enemies[i];
            assert(w.enemies[i as int].wf());
            e.step(dt, view);
            let ghost cur = self.bullets@;
            let ghost n = pair_count(es.take(i as int), bs);
            let hit = strike(&mut self.bullets, e.position, &mut self.score, cues);
            proof {
                let t = es.take(i as int + 1);
                assert(t.drop_last() =~= es.take(i as int));
                lemma_hit_count_by_position(cur, bs, e.position);
                lemma_hit_count_zero(bs, e.position);
                assert(c0 + pops(n) + pops(hit_count(bs, e.position)) =~= c0 + pops(n + hit_count(bs, e.position)));
                assert forall|k: int| 0 <= k < bs.len() implies #[trigger] self.bullets@[k] == spent(bs[k], t) by {
                    if bullet_hits(bs[k].position, e.position) {
                        assert(bullet_hits(bs[k].position, t[i as int].position));
                    }
                    if struck(bs[k], es.take(i as int)) {
                        let m = choose|m: int| 0 <= m < i && #[trigger] bullet_hits(bs[k].position, es.take(i as int)[m].position);
                        assert(bullet_hits(bs[k].position, t[m].position));
                    }
                    if struck(bs[k], t) {
                        let m = choose|m: int| 0 <= m < t.len() && #[trigger] bullet_hits(bs[k].position, t[m].position);
                        if m < i {
                            assert(bullet_hits(bs[k].position, es.take(i as int)[m].position));
                        }
                    }
                }
                if caught(w.player_pos, es.take(i as int)) {
                    let m = choose|m: int| 0 <= m < i && #[trigger] player_hits(w.player_pos, es.take(i as int)[m].position);
                    assert(player_hits(w.player_pos, t[m].position));
                }
                if caught(w.player_pos, t) {
                    let m = choose|m: int| 0 <= m < t.len() && #[trigger] player_hits(w.player_pos, t[m].position);
                    if m < i {
                        assert(player_hits(w.player_pos, es.take(i as int)[m].position));
                    }
                }
                if player_hits(w.player_pos, e.position) {
                    assert(player_hits(w.player_pos, t[i as int].position));
                }
            }
            e.is_dead = e.is_dead || hit;
            if player_overlaps(self.player_pos, e.position) {
                self.player_dead = true;
            }
            self.enemies.set(i, e);
            i = i + 1;
        }
        assert(es.take(i as int) =~= es);
        assert(self.enemies@ =~= es.map_values(|e: Enemy| marked(e, bs)));
        assert(self.bullets@ =~= bs.map_values(|b: Bullet| spent(b, es)));
    }

    /// Fires when the button is held and the cooldown has run out: a bullet
    /// leaves the player's position against the aim, the cooldown restarts
    /// and a shoot cue is given.
    pub fn try_fire(&mut self, input: Input, cues: &mut Vec<Cue>)
        requires
            input.wf(),
        ensures
            final(self)@ == after_fire(old(self)@, input),
            final(cues)@ == old(cues)@ + if fires(old(self)@, input) {
                seq![Cue::Shoot]
            } else {
                Seq::empty()
            },
    {
        if input.fire && self.shoot_cooldown <= 0 {
            assert(-SHOT_SPEED * AIM_UNIT <= -SHOT_SPEED * input.aim.y <= SHOT_SPEED * AIM_UNIT) by (nonlinear_arith)
                requires
                    -AIM_UNIT <= input.aim.y <= AIM_UNIT,
            ;
            assert(-SHOT_SPEED * AIM_UNIT <= -SHOT_SPEED * input.aim.x <= SHOT_SPEED * AIM_UNIT) by (nonlinear_arith)
                requires
                    -AIM_UNIT <= input.aim.x <= AIM_UNIT,
            ;
            self.shoot_cooldown = SHOT_COOLDOWN;
            let bullet = Bullet {
                position: self.player_pos,
                velocity: Vector2 { x: -SHOT_SPEED * input.aim.x, y: -SHOT_SPEED * input.aim.y },
                lifetime: BULLET_LIFETIME,
            };
            self.bullets.push(bullet);
            cues.push(Cue::Shoot);
        } else {
            assert(cues@ + Seq::empty() =~= cues@);
        }
    }

    /// Starts a wave: `wave` takes the place of the enemies. After a death
    /// the death ends here and no wave cue is given; otherwise a wave cue is.
    pub fn begin_wave(&mut self, wave: Vec<Enemy>, cues: &mut Vec<Cue>)
        ensures
            final(self)@ == wave_begun(old(self)@, wave@),
            final(cues)@ == old(cues)@ + if old(self).player_dead {
                Seq::empty()
            } else {
                seq![Cue::WaveStart]
            },
    {
        if self.player_dead {
            self.player_dead = false;
            assert(cues@ + Seq::empty() =~= cues@);
        } else {
            cues.push(Cue::WaveStart);
        }
        self.enemies = wave;
    }

    /// The tick up to the cleanup pass: the reset after a death, motion and
    /// collisions, and firing. Returns the cues given so far.
    pub fn prepare_tick(&mut self, dt: u32, input: Input, view: Viewport) -> (cues: Vec<Cue>)
        requires
            old(self)@.wf(),
            input.wf(),
        ensures
            final(self)@ == before_wave(old(self)@, dt, input, view),
            cues@ == early_cues(old(self)@, dt, input, view),
    {
        let mut cues: Vec<Cue> = Vec::new();
        self.settle_death(&mut cues);
        assert(self@.wf());
        self.advance_bodies(dt, view, &mut cues);
        self.try_fire(input, &mut cues);
        assert(cues@ =~= early_cues(old(self)@, dt, input, view));
        cues
    }

    /// One tick in which `wave` is the wave that starts if one is due. Returns the cues of the tick in order.
    pub fn update_with(&mut self, dt: u32, input: Input, view: Viewport, wave: Vec<Enemy>) -> (cues: Vec<Cue>)
        requires
            old(self)@.wf(),
            input.wf(),
        ensures
            final(self)@ == next_world(old(self)@, dt, input, view, wave@),
            cues@ == tick_cues(old(self)@, dt, input, view),
            valid_wave(wave@, view) ==> final(self)@.wf(),
            valid_wave(wave@, view) ==> final(self)@.enemies.len() > 0 || final(self).player_dead,
            !old(self).player_dead && caught(old(self).player_pos, stepped_enemies(old(self)@.enemies, dt, view))
                ==> final(self).player_dead,
    {
        proof {
            if valid_wave(wave@, view) {
                lemma_tick_keeps_wf(self@, dt, input, view, wave@);
                assert(spawnable(wave@[0], view));
            }
        }
        let was_dead = self.player_dead;
        let mut cues = self.prepare_tick(dt, input, view);
        self.remove_useless_things();
        if self.enemies.len() == 0 && (was_dead || !self.player_dead) && view.width > 0 && view.height > 0 {
            self.begin_wave(wave, &mut cues);
        } else {
            assert(cues@ + Seq::empty() =~= cues@);
        }
        cues
    }
}

} // verus!
