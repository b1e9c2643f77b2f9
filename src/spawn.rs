//! Random waves of enemies, and the tick that draws one when the field is
//! empty.

use vstd::prelude::*;
use crate::geometry::{Vector2, Viewport, NANOS_PER_PIXEL};
use crate::entity::{Enemy, Cue};
use crate::world::{MainState, Input, next_world, tick_cues, wave_starts, caught, stepped_enemies};
use crate::laws::lemma_tick_keeps_wf;

verus! {

/// Fewest enemies in a wave.
pub const WAVE_MIN: i64 = 4;

/// One more than the most enemies in a wave.
pub const WAVE_END: i64 = 8;

/// Horizontal drift of a new enemy, from `DRIFT_X_MIN` up to but not
/// including `DRIFT_X_END`, in thousandths of a pixel per second.
pub const DRIFT_X_MIN: i64 = -30_000;

pub const DRIFT_X_END: i64 = 70_000;

/// Vertical drift of a new enemy, from `DRIFT_Y_MIN` up to but not
/// including `DRIFT_Y_END`.
pub const DRIFT_Y_MIN: i64 = -30_000;

pub const DRIFT_Y_END: i64 = 50_000;

/// An enemy that a wave may start with: alive, at a whole-pixel position
/// within the view, drifting within the spawn ranges.
pub open spec fn spawnable(e: Enemy, view: Viewport) -> bool {
    &&& !e.is_dead
    &&& 0 <= e.position.x < view.right() && e.position.x % NANOS_PER_PIXEL == 0
    &&& 0 <= e.position.y < view.bottom() && e.position.y % NANOS_PER_PIXEL == 0
    &&& DRIFT_X_MIN <= e.velocity.x < DRIFT_X_END
    &&& DRIFT_Y_MIN <= e.velocity.y < DRIFT_Y_END
}

/// A wave that may start in `view`: four to seven spawnable enemies.
pub open spec fn valid_wave(wave: Seq<Enemy>, view: Viewport) -> bool {
    &&& WAVE_MIN <= wave.len() < WAVE_END
    &&& forall|i: int| 0 <= i < wave.len() ==> spawnable(#[trigger] wave[i], view)
}

/// Relies on rand's `Rng::gen_range` over the thread-local generator: for a
/// non-empty half-open range of integers it returns a value inside it (it
/// panics on an empty one).
#[verifier::external_body]
fn random_in(lo: i64, hi: i64) -> (r: i64)
    requires
        lo < hi,
    ensures
        lo <= r < hi,
{
    rand::Rng::gen_range(&mut rand::thread_rng(), lo..hi)
}

/// A random whole coordinate from `min` up to but not including `max`.
pub fn generate_random_scoords(min: i64, max: i64) -> (r: i64)
    requires
        min < max,
    ensures
        min <= r < max,
{
    random_in(min, max)
}

/// A live enemy at whole pixel `(px, py)` drifting at `(vx, vy)`.
pub fn spawned_enemy(px: u32, py: u32, vx: i64, vy: i64) -> (e: Enemy)
    ensures
        e == (Enemy {
            position: Vector2 { x: (px * NANOS_PER_PIXEL) as i64, y: (py * NANOS_PER_PIXEL) as i64 },
            velocity: Vector2 { x: vx, y: vy },
            is_dead: false,
        }),
{
    Enemy {
        position: Vector2 { x: px as i64 * NANOS_PER_PIXEL, y: py as i64 * NANOS_PER_PIXEL },
        velocity: Vector2 { x: vx, y: vy },
        is_dead: false,
    }
}

/// A random enemy for a new wave in `view`.
pub fn random_enemy(view: Viewport) -> (e: Enemy)
    requires
        view.width > 0,
        view.height > 0,
    ensures
        spawnable(e, view),
{
    let px = generate_random_scoords(0, view.width as i64);
    let py = generate_random_scoords(0, view.height as i64);
    let vx = random_in(DRIFT_X_MIN, DRIFT_X_END);
    let vy = random_in(DRIFT_Y_MIN, DRIFT_Y_END);
    let e = spawned_enemy(px as u32, py as u32, vx, vy);
    assert(e.position.x % NANOS_PER_PIXEL == 0 && e.position.y % NANOS_PER_PIXEL == 0) by (nonlinear_arith)
        requires
            e.position.x == px * NANOS_PER_PIXEL,
            e.position.y == py * NANOS_PER_PIXEL,
    ;
    e
}

/// A random wave for `view`: a count drawn from four to seven, then that
/// many random enemies.
pub fn random_wave(view: Viewport) -> (wave: Vec<Enemy>)
    requires
        view.width > 0,
        view.height > 0,
    ensures
        valid_wave(wave@, view),
{
    let count = random_in(WAVE_MIN, WAVE_END);
    let mut wave: Vec<Enemy> = Vec::new();
    let mut k: i64 = 0;
    while k < count
        invariant
            0 <= k <= count < WAVE_END,
            WAVE_MIN <= count,
            view.width > 0,
            view.height > 0,
            wave@.len() == k,
            forall|i: int| 0 <= i < k ==> spawnable(#[trigger] wave@[i], view),
        decreases count - k,
    {
        wave.push(random_enemy(view));
        k = k + 1;
    }
    wave
}

impl MainState {
    /// One tick of the game, `dt` microseconds long. Where a wave is due at
    /// the end of the tick, a random one starts. Returns the cues of the tick
    /// in order.
    pub fn update(&mut self, dt: u32, input: Input, view: Viewport) -> (cues: Vec<Cue>)
        requires
            old(self)@.wf(),
            input.wf(),
        ensures
            exists|wave: Seq<Enemy>|
                (wave_starts(old(self)@, dt, input, view) ==> valid_wave(wave, view))
                    && final(self)@ == #[trigger] next_world(old(self)@, dt, input, view, wave),
            cues@ == tick_cues(old(self)@, dt, input, view),
            final(self)@.wf(),
            view.width > 0 && view.height > 0 ==> final(self)@.enemies.len() > 0 || final(self).player_dead,
            !old(self).player_dead && caught(old(self).player_pos, stepped_enemies(old(self)@.enemies, dt, view))
                ==> final(self).player_dead,
    {
        let ghost w = self@;
        let was_dead = self.player_dead;
        let mut cues = self.prepare_tick(dt, input, view);
        self.remove_useless_things();
        if self.enemies.len() == 0 && (was_dead || !self.player_dead) && view.width > 0 && view.height > 0 {
            let wave = random_wave(view);
            let ghost drawn = wave@;
            self.begin_wave(wave, &mut cues);
            assert(valid_wave(drawn, view) && self@ == next_world(w, dt, input, view, drawn));
            proof {
                lemma_tick_keeps_wf(w, dt, input, view, drawn);
            }
        } else {
            assert(cues@ + Seq::empty() =~= cues@);
            let ghost stand_in = Seq::new(
                WAVE_MIN as nat,
                |i: int| (Enemy { position: Vector2 { x: 0, y: 0 }, velocity: Vector2 { x: 0, y: 0 }, is_dead: false }),
            );
            assert(self@ == next_world(w, dt, input, view, stand_in));
            proof {
                lemma_tick_keeps_wf(w, dt, input, view, stand_in);
            }
        }
        cues
    }
}

} // verus!
