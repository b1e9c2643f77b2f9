//! Properties of the tick that hold for every state and every input.

use vstd::prelude::*;
use crate::geometry::{Vector2, Viewport, NANOS_PER_PIXEL, MARGIN, MAX_SPEED, speed_ok, moved, bounced, inside};
use crate::entity::{Bullet, Enemy, Cue, BULLET_LIFETIME};
use crate::world::{
    World, Input, SHOT_SPEED, AIM_UNIT, after_reset, advanced, after_fire, before_wave, wave_begun,
    next_world, settled, wave_starts, cleaned, live_bullets, live_enemies, stepped_bullets, stepped_enemies, spent, marked,
    shot, struck, early_cues, tick_cues, fires, hits_in, pair_count, pops,
};
use crate::spawn::{valid_wave, spawnable};

verus! {

/// The edge check never turns a velocity component that is already heading
/// into the screen, nor any component of a body within the margins: a
/// component changes only where the body lies past an edge and moves
/// further out, and then it is reversed.
pub proof fn lemma_bounce_only_turns_back(p: Vector2, v: Vector2, view: Viewport)
    requires
        speed_ok(v),
    ensures
        speed_ok(bounced(p, v, view)),
        inside(p, view) ==> bounced(p, v, view) == v,
        bounced(p, v, view).x != v.x ==> bounced(p, v, view).x == -v.x && (p.x < MARGIN && v.x < 0
            || p.x > view.right() - MARGIN && v.x > 0),
        bounced(p, v, view).y != v.y ==> bounced(p, v, view).y == -v.y && (p.y < MARGIN && v.y < 0
            || p.y > view.bottom() - MARGIN && v.y > 0),
{
}

/// A bullet four pixels from the left edge moving left is sent right by
/// its next step, whatever the step's length.
pub proof fn lemma_left_edge_turns_bullet(b: Bullet, dt: u32, view: Viewport)
    requires
        b.wf(),
        b.position.x == 4 * NANOS_PER_PIXEL,
        b.velocity.x < 0,
    ensures
        b.stepped(dt, view).velocity.x == -b.velocity.x,
        b.stepped(dt, view).velocity.x > 0,
{
    assert(b.velocity.x * dt <= 0) by (nonlinear_arith)
        requires
            b.velocity.x < 0,
            dt >= 0,
    ;
    assert(-MAX_SPEED * 0x1_0000_0000 <= b.velocity.x * dt) by (nonlinear_arith)
        requires
            -MAX_SPEED <= b.velocity.x,
            0 <= dt < 0x1_0000_0000,
    ;
}

/// A tick of zero length moves nothing: every bullet left after it, but
/// the shot fired in it, stands where a bullet stood before it and leaves
/// with that bullet's velocity after the edge check, which is unchanged
/// where the bullet lay within the margins; and so does every enemy left
/// after it that does not belong to a wave started in it.
pub proof fn lemma_still_tick(w: World, input: Input, view: Viewport, wave: Seq<Enemy>)
    ensures
        forall|b: Bullet| #[trigger] next_world(w, 0, input, view, wave).bullets.contains(b)
            && !(fires(advanced(after_reset(w), 0, view), input) && b == shot(w.player_pos, input.aim))
            ==> exists|j: int| 0 <= j < w.bullets.len() && {
                let o = #[trigger] w.bullets[j];
                &&& b.position == o.position
                &&& b.velocity == bounced(o.position, o.velocity, view)
                &&& inside(o.position, view) ==> b.velocity == o.velocity
            },
        forall|e: Enemy| #[trigger] next_world(w, 0, input, view, wave).enemies.contains(e)
            && !(wave_starts(w, 0, input, view) && wave.contains(e))
            ==> exists|i: int| 0 <= i < w.enemies.len() && {
                let o = #[trigger] w.enemies[i];
                &&& e.position == o.position
                &&& e.velocity == bounced(o.position, o.velocity, view)
                &&& inside(o.position, view) ==> e.velocity == o.velocity
            },
{
    let r = after_reset(w);
    let a = advanced(r, 0, view);
    let f = after_fire(a, input);
    let bs = stepped_bullets(r.bullets, 0, view);
    let es = stepped_enemies(r.enemies, 0, view);
    let c = settled(w, 0, input, view);
    let nw = next_world(w, 0, input, view, wave);
    assert(nw.bullets == c.bullets);
    assert forall|b: Bullet| #[trigger] nw.bullets.contains(b)
        && !(fires(a, input) && b == shot(w.player_pos, input.aim))
        implies exists|j: int| 0 <= j < w.bullets.len() && {
            let o = #[trigger] w.bullets[j];
            &&& b.position == o.position
            &&& b.velocity == bounced(o.position, o.velocity, view)
            &&& inside(o.position, view) ==> b.velocity == o.velocity
        } by {
        f.bullets.lemma_filter_contains_rev(|x: Bullet| x.live(), b);
        let k = choose|k: int| 0 <= k < f.bullets.len() && f.bullets[k] == b;
        if k < a.bullets.len() {
            assert(f.bullets[k] == a.bullets[k]);
            assert(a.bullets[k] == spent(bs[k], es));
            assert(r.bullets[k] == w.bullets[k]);
            let o = w.bullets[k];
            assert(moved(o.position, o.velocity, 0) == o.position);
        }
    }
    assert forall|e: Enemy| #[trigger] nw.enemies.contains(e)
        && !(wave_starts(w, 0, input, view) && wave.contains(e))
        implies exists|i: int| 0 <= i < w.enemies.len() && {
            let o = #[trigger] w.enemies[i];
            &&& e.position == o.position
            &&& e.velocity == bounced(o.position, o.velocity, view)
            &&& inside(o.position, view) ==> e.velocity == o.velocity
        } by {
        assert(nw.enemies == c.enemies);
        f.enemies.lemma_filter_contains_rev(|x: Enemy| !x.is_dead, e);
        let k = choose|k: int| 0 <= k < f.enemies.len() && f.enemies[k] == e;
        assert(a.enemies[k] == marked(es[k], bs));
        assert(r.enemies[k] == w.enemies[k]);
        let o = w.enemies[k];
        assert(moved(o.position, o.velocity, 0) == o.position);
    }
}

/// A bullet that no enemy strikes, in a tick that begins with the player
/// alive, is still there one step older after the tick exactly when
/// that step leaves it alive; every bullet left after any tick is alive.
pub proof fn lemma_unstruck_bullet_ages(
    w: World,
    dt: u32,
    input: Input,
    view: Viewport,
    wave: Seq<Enemy>,
    b: Bullet,
)
    requires
        w.bullets.contains(b),
        !w.player_dead,
        !struck(b.stepped(dt, view), stepped_enemies(w.enemies, dt, view)),
    ensures
        b.stepped(dt, view).live() ==> next_world(w, dt, input, view, wave).bullets.contains(b.stepped(dt, view)),
        forall|x: Bullet| #[trigger] next_world(w, dt, input, view, wave).bullets.contains(x) ==> x.live(),
{
    let a = advanced(w, dt, view);
    let f = after_fire(a, input);
    let nw = next_world(w, dt, input, view, wave);
    assert(nw.bullets == settled(w, dt, input, view).bullets);
    let j = choose|j: int| 0 <= j < w.bullets.len() && w.bullets[j] == b;
    let bs = stepped_bullets(w.bullets, dt, view);
    let es = stepped_enemies(w.enemies, dt, view);
    assert(a.bullets[j] == spent(bs[j], es));
    assert(f.bullets[j] == b.stepped(dt, view));
    if b.stepped(dt, view).live() {
        f.bullets.lemma_filter_contains(|x: Bullet| x.live(), j);
    }
    assert forall|x: Bullet| #[trigger] nw.bullets.contains(x) implies x.live() by {
        let k = choose|k: int| 0 <= k < nw.bullets.len() && nw.bullets[k] == x;
        f.bullets.lemma_filter_pred(|y: Bullet| y.live(), k);
    }
}

/// A bullet four pixels from the left edge moving left, that no enemy
/// strikes and that has more than a tenth left, is still there after a tick
/// that begins with the player alive, turned to move right, whatever the
/// tick's length.
pub proof fn lemma_left_edge_bullet_turns_in_tick(
    w: World,
    dt: u32,
    input: Input,
    view: Viewport,
    wave: Seq<Enemy>,
    b: Bullet,
)
    requires
        w.wf(),
        w.bullets.contains(b),
        !w.player_dead,
        b.position.x == 4 * NANOS_PER_PIXEL,
        b.velocity.x < 0,
        b.lifetime > 1,
        !struck(b.stepped(dt, view), stepped_enemies(w.enemies, dt, view)),
    ensures
        next_world(w, dt, input, view, wave).bullets.contains(b.stepped(dt, view)),
        b.stepped(dt, view).velocity.x == -b.velocity.x,
        b.stepped(dt, view).velocity.x > 0,
{
    let j = choose|j: int| 0 <= j < w.bullets.len() && w.bullets[j] == b;
    assert(w.bullets[j].wf());
    lemma_left_edge_turns_bullet(b, dt, view);
    lemma_unstruck_bullet_ages(w, dt, input, view, wave, b);
}

/// Tick `k` of a run of ticks leaves the tracked bullet `bs[k]` untouched
/// but for aging: the tick begins with the player alive and no enemy
/// strikes the bullet.
pub open spec fn quiet_tick(
    ws: Seq<World>,
    dts: Seq<u32>,
    inputs: Seq<Input>,
    waves: Seq<Seq<Enemy>>,
    view: Viewport,
    bs: Seq<Bullet>,
    k: int,
) -> bool {
    &&& ws[k + 1] == next_world(ws[k], dts[k], inputs[k], view, waves[k])
    &&& bs[k + 1] == bs[k].stepped(dts[k], view)
    &&& !ws[k].player_dead
    &&& !struck(bs[k + 1], stepped_enemies(ws[k].enemies, dts[k], view))
}

/// A fresh bullet that nothing strikes lives through exactly 200 ticks of
/// any lengths: after tick `k` below 200 it is there with `200 - k` tenths
/// left, and after tick 200 its lifetime is zero and it is gone.
pub proof fn lemma_bullet_expires(
    ws: Seq<World>,
    dts: Seq<u32>,
    inputs: Seq<Input>,
    waves: Seq<Seq<Enemy>>,
    view: Viewport,
    bs: Seq<Bullet>,
)
    requires
        ws.len() == 201,
        bs.len() == 201,
        dts.len() == 200,
        inputs.len() == 200,
        waves.len() == 200,
        ws[0].bullets.contains(bs[0]),
        bs[0].lifetime == BULLET_LIFETIME,
        forall|k: int| 0 <= k < 200 ==> #[trigger] quiet_tick(ws, dts, inputs, waves, view, bs, k),
    ensures
        forall|k: int| 1 <= k < 200 ==> #[trigger] ws[k].bullets.contains(bs[k]) && bs[k].lifetime == 200 - k,
        bs[200].lifetime == 0,
        !ws[200].bullets.contains(bs[200]),
{
    lemma_expiry_prefix(ws, dts, inputs, waves, view, bs, 200);
    assert(quiet_tick(ws, dts, inputs, waves, view, bs, 199));
    lemma_unstruck_bullet_ages(ws[199], dts[199], inputs[199], view, waves[199], bs[199]);
}

proof fn lemma_expiry_prefix(
    ws: Seq<World>,
    dts: Seq<u32>,
    inputs: Seq<Input>,
    waves: Seq<Seq<Enemy>>,
    view: Viewport,
    bs: Seq<Bullet>,
    n: int,
)
    requires
        0 <= n <= 200,
        ws.len() == 201,
        bs.len() == 201,
        dts.len() == 200,
        inputs.len() == 200,
        waves.len() == 200,
        ws[0].bullets.contains(bs[0]),
        bs[0].lifetime == BULLET_LIFETIME,
        forall|k: int| 0 <= k < 200 ==> #[trigger] quiet_tick(ws, dts, inputs, waves, view, bs, k),
    ensures
        forall|k: int| 0 <= k <= n ==> #[trigger] bs[k].lifetime == 200 - k,
        forall|k: int| 0 <= k <= n && k < 200 ==> #[trigger] ws[k].bullets.contains(bs[k]),
    decreases n,
{
    if n > 0 {
        lemma_expiry_prefix(ws, dts, inputs, waves, view, bs, n - 1);
        let m = n - 1;
        assert(quiet_tick(ws, dts, inputs, waves, view, bs, m));
        assert(ws[m].bullets.contains(bs[m]));
        lemma_unstruck_bullet_ages(ws[m], dts[m], inputs[m], view, waves[m], bs[m]);
    }
}

/// When no enemy is left after the cleanup pass of a tick, the player is
/// alive and the view is not empty, exactly the drawn wave of four to seven enemies stands after the
/// tick, and the tick's cues end with the one wave cue they hold.
pub proof fn lemma_empty_field_starts_wave(w: World, dt: u32, input: Input, view: Viewport, wave: Seq<Enemy>)
    requires
        settled(w, dt, input, view).enemies.len() == 0,
        !before_wave(w, dt, input, view).player_dead,
        view.width > 0 && view.height > 0,
        valid_wave(wave, view),
    ensures
        next_world(w, dt, input, view, wave).enemies == wave,
        4 <= next_world(w, dt, input, view, wave).enemies.len() <= 7,
        tick_cues(w, dt, input, view).len() > 0,
        tick_cues(w, dt, input, view).last() == Cue::WaveStart,
        forall|k: int| 0 <= k < tick_cues(w, dt, input, view).len() - 1
            ==> #[trigger] tick_cues(w, dt, input, view)[k] != Cue::WaveStart,
{
    let early = early_cues(w, dt, input, view);
    let cues = tick_cues(w, dt, input, view);
    assert(cues == early + seq![Cue::WaveStart]);
    assert forall|k: int| 0 <= k < early.len() implies #[trigger] early[k] != Cue::WaveStart by {
        let r = after_reset(w);
        let die: Seq<Cue> = if w.player_dead { seq![Cue::Die] } else { Seq::empty() };
        let p = pops(hits_in(r, dt, view));
        let shoot: Seq<Cue> = if fires(advanced(r, dt, view), input) { seq![Cue::Shoot] } else { Seq::empty() };
        assert(early == die + p + shoot);
        if k < die.len() {
        } else if k < die.len() + p.len() {
            assert(early[k] == p[k - die.len()]);
        } else {
            assert(early[k] == shoot[k - die.len() - p.len()]);
        }
    }
    assert forall|k: int| 0 <= k < cues.len() - 1 implies #[trigger] cues[k] != Cue::WaveStart by {
        assert(cues[k] == early[k]);
    }
}

/// The tick after a death resets everything within itself: the score is
/// zero, bullets and enemies are cleared, so that only a shot fired in that
/// tick is left, the drawn wave stands, the player lives again, and the
/// cues open with the one die cue and hold no wave cue.
pub proof fn lemma_death_resets(w: World, dt: u32, input: Input, view: Viewport, wave: Seq<Enemy>)
    requires
        w.player_dead,
        view.width > 0 && view.height > 0,
        valid_wave(wave, view),
    ensures
        after_reset(w).score == 0,
        after_reset(w).bullets.len() == 0,
        after_reset(w).enemies.len() == 0,
        next_world(w, dt, input, view, wave).score == 0,
        next_world(w, dt, input, view, wave).bullets == if fires(advanced(after_reset(w), dt, view), input) {
            seq![shot(w.player_pos, input.aim)]
        } else {
            Seq::<Bullet>::empty()
        },
        next_world(w, dt, input, view, wave).enemies == wave,
        !next_world(w, dt, input, view, wave).player_dead,
        tick_cues(w, dt, input, view)[0] == Cue::Die,
        forall|k: int| 0 < k < tick_cues(w, dt, input, view).len()
            ==> #[trigger] tick_cues(w, dt, input, view)[k] == Cue::Shoot,
{
    let r = after_reset(w);
    assert(stepped_enemies(r.enemies, dt, view) =~= Seq::<Enemy>::empty());
    assert(pair_count(stepped_enemies(r.enemies, dt, view), stepped_bullets(r.bullets, dt, view)) == 0);
    assert(pops(0) =~= Seq::<Cue>::empty());
    reveal(Seq::filter);
    let cues = tick_cues(w, dt, input, view);
    let shoot: Seq<Cue> = if fires(advanced(r, dt, view), input) { seq![Cue::Shoot] } else { Seq::empty() };
    assert(cues =~= seq![Cue::Die] + shoot);
    let a = advanced(r, dt, view);
    assert(a.bullets =~= Seq::<Bullet>::empty());
    assert(a.enemies =~= Seq::<Enemy>::empty());
    let f = after_fire(a, input);
    assert(live_enemies(f.enemies) =~= Seq::<Enemy>::empty());
    if fires(a, input) {
        assert(f.bullets =~= seq![shot(w.player_pos, input.aim)]);
        assert(f.bullets.drop_last() =~= Seq::<Bullet>::empty());
        assert(live_bullets(f.bullets) =~= seq![shot(w.player_pos, input.aim)]);
    } else {
        assert(live_bullets(f.bullets) =~= Seq::<Bullet>::empty());
    }
}

proof fn lemma_live_bullets_wf(bs: Seq<Bullet>)
    requires
        forall|j: int| 0 <= j < bs.len() ==> speed_ok((#[trigger] bs[j]).velocity),
    ensures
        forall|j: int| 0 <= j < live_bullets(bs).len() ==> (#[trigger] live_bullets(bs)[j]).wf(),
{
    assert forall|j: int| 0 <= j < live_bullets(bs).len() implies (#[trigger] live_bullets(bs)[j]).wf() by {
        bs.lemma_filter_pred(|b: Bullet| b.live(), j);
        assert(live_bullets(bs).contains(live_bullets(bs)[j]));
        bs.lemma_filter_contains_rev(|b: Bullet| b.live(), live_bullets(bs)[j]);
        let k = choose|k: int| 0 <= k < bs.len() && bs[k] == live_bullets(bs)[j];
        assert(speed_ok(bs[k].velocity));
    }
}

proof fn lemma_live_enemies_wf(es: Seq<Enemy>)
    requires
        forall|i: int| 0 <= i < es.len() ==> (#[trigger] es[i]).wf(),
    ensures
        forall|i: int| 0 <= i < live_enemies(es).len() ==> (#[trigger] live_enemies(es)[i]).wf(),
{
    assert forall|i: int| 0 <= i < live_enemies(es).len() implies (#[trigger] live_enemies(es)[i]).wf() by {
        assert(live_enemies(es).contains(live_enemies(es)[i]));
        es.lemma_filter_contains_rev(|e: Enemy| !e.is_dead, live_enemies(es)[i]);
        let k = choose|k: int| 0 <= k < es.len() && es[k] == live_enemies(es)[i];
        assert(es[k].wf());
    }
}

/// Every tick keeps the state well formed: speeds stay within the limit and
/// every bullet left can age.
pub proof fn lemma_tick_keeps_wf(w: World, dt: u32, input: Input, view: Viewport, wave: Seq<Enemy>)
    requires
        w.wf(),
        input.wf(),
        wave_starts(w, dt, input, view) ==> valid_wave(wave, view),
    ensures
        next_world(w, dt, input, view, wave).wf(),
{
    let r = after_reset(w);
    let a = advanced(r, dt, view);
    let f = after_fire(a, input);
    let bs = stepped_bullets(r.bullets, dt, view);
    let es = stepped_enemies(r.enemies, dt, view);
    assert forall|j: int| 0 <= j < bs.len() implies speed_ok((#[trigger] bs[j]).velocity) by {
        assert(r.bullets[j].wf());
        lemma_bounce_only_turns_back(moved(r.bullets[j].position, r.bullets[j].velocity, dt), r.bullets[j].velocity, view);
    }
    assert forall|i: int| 0 <= i < es.len() implies (#[trigger] es[i]).wf() by {
        assert(r.enemies[i].wf());
        lemma_bounce_only_turns_back(moved(r.enemies[i].position, r.enemies[i].velocity, dt), r.enemies[i].velocity, view);
    }
    assert forall|j: int| 0 <= j < a.bullets.len() implies speed_ok((#[trigger] a.bullets[j]).velocity) by {
        assert(a.bullets[j] == spent(bs[j], es));
    }
    assert forall|i: int| 0 <= i < a.enemies.len() implies (#[trigger] a.enemies[i]).wf() by {
        assert(a.enemies[i] == marked(es[i], bs));
    }
    if fires(a, input) {
        assert(-SHOT_SPEED * AIM_UNIT <= -SHOT_SPEED * input.aim.y <= SHOT_SPEED * AIM_UNIT) by (nonlinear_arith)
            requires
                -AIM_UNIT <= input.aim.y <= AIM_UNIT,
        ;
        assert(-SHOT_SPEED * AIM_UNIT <= -SHOT_SPEED * input.aim.x <= SHOT_SPEED * AIM_UNIT) by (nonlinear_arith)
            requires
                -AIM_UNIT <= input.aim.x <= AIM_UNIT,
        ;
        assert(speed_ok(shot(a.player_pos, input.aim).velocity));
    }
    assert forall|j: int| 0 <= j < f.bullets.len() implies speed_ok((#[trigger] f.bullets[j]).velocity) by {
        if j < a.bullets.len() {
            assert(f.bullets[j] == a.bullets[j]);
        }
    }
    lemma_live_bullets_wf(f.bullets);
    lemma_live_enemies_wf(f.enemies);
    let c = cleaned(f);
    if wave_starts(w, dt, input, view) {
        let g = wave_begun(c, wave);
        assert forall|i: int| 0 <= i < g.enemies.len() implies (#[trigger] g.enemies[i]).wf() by {
            assert(spawnable(wave[i], view));
        }
    }
}

} // verus!
