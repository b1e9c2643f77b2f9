use shooter_core::entity::{Bullet, Cue, Enemy};
use shooter_core::geometry::{bounce, bullet_overlaps, player_overlaps, Vector2, Viewport};
use shooter_core::spawn::{generate_random_scoords, random_wave, spawned_enemy};
use shooter_core::world::{Input, MainState};

const PX: i64 = 1_000_000_000;

fn view() -> Viewport {
    Viewport { width: 800, height: 600 }
}

fn at(x: i64, y: i64) -> Vector2 {
    Vector2 { x: x * PX, y: y * PX }
}

fn still() -> Vector2 {
    Vector2 { x: 0, y: 0 }
}

fn idle() -> Input {
    Input { fire: false, aim: Vector2 { x: 0, y: 1000 } }
}

fn enemy(x: i64, y: i64) -> Enemy {
    Enemy { position: at(x, y), velocity: still(), is_dead: false }
}

fn bullet(x: i64, y: i64) -> Bullet {
    Bullet { position: at(x, y), velocity: still(), lifetime: 200 }
}

fn spare_wave() -> Vec<Enemy> {
    vec![enemy(10, 10), enemy(20, 10), enemy(30, 10), enemy(40, 10)]
}

#[test]
fn new_game_centres_player() {
    let s = MainState::new(view());
    assert_eq!(s.player_pos, at(400, 300));
    assert!(s.bullets.is_empty());
    assert!(s.enemies.is_empty());
    assert_eq!(s.score, 0);
    assert_eq!(s.shoot_cooldown, 0);
    assert!(!s.player_dead);
}

#[test]
fn zero_dt_keeps_positions() {
    let mut s = MainState::new(view());
    s.enemies.push(Enemy { position: at(100, 100), velocity: Vector2 { x: 30_000, y: -20_000 }, is_dead: false });
    s.enemies.push(Enemy { position: at(700, 3), velocity: Vector2 { x: -10_000, y: 40_000 }, is_dead: false });
    s.bullets.push(Bullet { position: at(600, 500), velocity: Vector2 { x: -150_000, y: 50_000 }, lifetime: 200 });
    let cues = s.update_with(0, idle(), view(), spare_wave());
    assert!(cues.is_empty());
    assert_eq!(s.enemies[0].position, at(100, 100));
    assert_eq!(s.enemies[0].velocity, Vector2 { x: 30_000, y: -20_000 });
    assert_eq!(s.enemies[1].position, at(700, 3));
    assert_eq!(s.enemies[1].velocity, Vector2 { x: -10_000, y: 40_000 });
    assert_eq!(s.bullets[0].position, at(600, 500));
    assert_eq!(s.bullets[0].velocity, Vector2 { x: -150_000, y: 50_000 });
    assert_eq!(s.bullets[0].lifetime, 199);
}

#[test]
fn left_edge_bullet_turns_right() {
    for dt in [0u32, 1, 16_667, 1_000_000] {
        let mut b = Bullet { position: at(4, 300), velocity: Vector2 { x: -100_000, y: 0 }, lifetime: 200 };
        b.step(dt, view());
        assert_eq!(b.velocity.x, 100_000);
    }
}

#[test]
fn motion_is_exact() {
    let mut e = Enemy { position: at(100, 100), velocity: Vector2 { x: 60_000, y: -30_000 }, is_dead: false };
    e.step(500_000, view());
    assert_eq!(e.position, at(130, 85));
    assert_eq!(e.velocity, Vector2 { x: 60_000, y: -30_000 });
}

#[test]
fn corner_bullet_turns_on_both_axes() {
    let mut b = Bullet { position: at(4, 4), velocity: Vector2 { x: -100_000, y: -50_000 }, lifetime: 200 };
    b.step(16_667, view());
    assert_eq!(b.velocity, Vector2 { x: 100_000, y: 50_000 });
}

#[test]
fn bounce_checks_each_axis() {
    let v = Vector2 { x: -5, y: -7 };
    assert_eq!(bounce(at(3, 3), v, view()), Vector2 { x: 5, y: 7 });
    assert_eq!(bounce(at(400, 3), v, view()), Vector2 { x: -5, y: 7 });
    assert_eq!(bounce(at(3, 595), Vector2 { x: -5, y: 7 }, view()), Vector2 { x: 5, y: -7 });
    assert_eq!(bounce(at(797, 597), Vector2 { x: 5, y: 7 }, view()), Vector2 { x: -5, y: -7 });
    assert_eq!(bounce(at(3, 300), v, view()), Vector2 { x: 5, y: -7 });
    assert_eq!(bounce(at(795, 300), Vector2 { x: 5, y: 7 }, view()), Vector2 { x: -5, y: 7 });
    assert_eq!(bounce(at(795, 300), v, view()), v);
    assert_eq!(bounce(at(400, 300), v, view()), v);
}

#[test]
fn overlap_boxes() {
    assert!(bullet_overlaps(at(100, 100), at(100, 100)));
    assert!(bullet_overlaps(at(131, 131), at(100, 100)));
    assert!(!bullet_overlaps(at(132, 100), at(100, 100)));
    assert!(!bullet_overlaps(at(84, 100), at(100, 100)));
    assert!(bullet_overlaps(at(85, 85), at(100, 100)));
    assert!(player_overlaps(at(69, 69), at(100, 100)));
    assert!(!player_overlaps(at(68, 100), at(100, 100)));
}

#[test]
fn bullet_expires_after_200_ticks() {
    let mut s = MainState::new(view());
    s.enemies.push(enemy(100, 100));
    s.bullets.push(bullet(600, 500));
    for _ in 0..199 {
        s.update_with(0, idle(), view(), spare_wave());
    }
    assert_eq!(s.bullets.len(), 1);
    assert_eq!(s.bullets[0].lifetime, 1);
    s.update_with(0, idle(), view(), spare_wave());
    assert!(s.bullets.is_empty());
    assert_eq!(s.enemies.len(), 1);
}

#[test]
fn bullet_on_enemy_marks_both() {
    let mut s = MainState::new(view());
    s.enemies.push(enemy(100, 100));
    s.bullets.push(bullet(100, 100));
    let mut cues = Vec::new();
    s.advance_bodies(16_667, view(), &mut cues);
    assert!(s.enemies[0].is_dead);
    assert_eq!(s.bullets[0].lifetime, 0);
    assert_eq!(s.score, 5);
    assert_eq!(cues, vec![Cue::Pop]);
    s.remove_useless_things();
    assert!(s.enemies.is_empty());
    assert!(s.bullets.is_empty());
}

#[test]
fn bullet_on_enemy_full_tick() {
    let mut s = MainState::new(view());
    s.enemies.push(enemy(100, 100));
    s.bullets.push(bullet(100, 100));
    let cues = s.update_with(16_667, idle(), view(), spare_wave());
    assert_eq!(cues, vec![Cue::Pop, Cue::WaveStart]);
    assert_eq!(s.score, 5);
    assert_eq!(s.enemies, spare_wave());
    assert!(s.bullets.is_empty());
    assert!(!s.player_dead);
}

#[test]
fn every_overlapping_pair_scores() {
    let mut s = MainState::new(view());
    s.enemies.push(enemy(100, 100));
    s.enemies.push(enemy(110, 110));
    s.enemies.push(enemy(600, 100));
    s.bullets.push(bullet(105, 105));
    s.bullets.push(bullet(500, 500));
    let cues = s.update_with(0, idle(), view(), spare_wave());
    assert_eq!(cues, vec![Cue::Pop, Cue::Pop]);
    assert_eq!(s.score, 10);
    assert_eq!(s.enemies, vec![enemy(600, 100)]);
    assert_eq!(s.bullets.len(), 1);
    assert_eq!(s.bullets[0].position, at(500, 500));
}

#[test]
fn enemy_on_player_kills() {
    let mut s = MainState::new(view());
    s.enemies.push(enemy(400, 300));
    s.score = 15;
    let cues = s.update_with(0, idle(), view(), spare_wave());
    assert!(cues.is_empty());
    assert!(s.player_dead);
    assert_eq!(s.enemies.len(), 1);
    assert_eq!(s.score, 15);
}

#[test]
fn empty_field_starts_wave() {
    let mut s = MainState::new(view());
    let cues = s.update(16_667, idle(), view());
    assert_eq!(cues, vec![Cue::WaveStart]);
    assert!(s.enemies.len() >= 4 && s.enemies.len() <= 7);
    assert!(!s.player_dead);
}

#[test]
fn given_wave_starts_on_empty_field() {
    let mut s = MainState::new(view());
    let wave = spare_wave();
    let cues = s.update_with(16_667, idle(), view(), wave.clone());
    assert_eq!(cues, vec![Cue::WaveStart]);
    assert_eq!(s.enemies, wave);
}

#[test]
fn death_resets_within_one_tick() {
    let mut s = MainState::new(view());
    s.player_dead = true;
    s.score = 40;
    s.enemies.push(enemy(400, 300));
    s.bullets.push(bullet(200, 200));
    let cues = s.update(16_667, idle(), view());
    assert_eq!(cues, vec![Cue::Die]);
    assert_eq!(s.score, 0);
    assert!(s.bullets.is_empty());
    assert!(s.enemies.len() >= 4 && s.enemies.len() <= 7);
    assert!(!s.player_dead);
}

#[test]
fn firing_spawns_bullet_and_cooldown() {
    let mut s = MainState::new(view());
    s.enemies.push(enemy(100, 100));
    let fire = Input { fire: true, aim: Vector2 { x: 600, y: -800 } };
    let cues = s.update_with(0, fire, view(), spare_wave());
    assert_eq!(cues, vec![Cue::Shoot]);
    assert_eq!(s.shoot_cooldown, 50);
    assert_eq!(s.bullets.len(), 1);
    assert_eq!(s.bullets[0].position, at(400, 300));
    assert_eq!(s.bullets[0].velocity, Vector2 { x: -120_000, y: 160_000 });
    assert_eq!(s.bullets[0].lifetime, 200);
    let cues = s.update_with(0, fire, view(), spare_wave());
    assert!(cues.is_empty());
    assert_eq!(s.shoot_cooldown, 49);
    assert_eq!(s.bullets.len(), 1);
}

#[test]
fn cooldown_runs_out_after_fifty_ticks() {
    let mut s = MainState::new(view());
    s.enemies.push(enemy(100, 100));
    s.shoot_cooldown = 50;
    let fire = Input { fire: true, aim: Vector2 { x: 0, y: 1000 } };
    for _ in 0..49 {
        let cues = s.update_with(0, fire, view(), spare_wave());
        assert!(cues.is_empty());
    }
    assert_eq!(s.shoot_cooldown, 1);
    let cues = s.update_with(0, fire, view(), spare_wave());
    assert_eq!(cues, vec![Cue::Shoot]);
}

#[test]
fn shot_on_empty_field_survives_wave() {
    let mut s = MainState::new(view());
    let fire = Input { fire: true, aim: Vector2 { x: 0, y: 1000 } };
    let cues = s.update_with(0, fire, view(), spare_wave());
    assert_eq!(cues, vec![Cue::Shoot, Cue::WaveStart]);
    assert_eq!(s.bullets.len(), 1);
    assert_eq!(s.enemies.len(), 4);
}

#[test]
fn death_on_last_kill_is_kept_for_next_tick() {
    let mut s = MainState::new(view());
    s.score = 20;
    s.enemies.push(enemy(400, 300));
    s.bullets.push(bullet(400, 300));
    let cues = s.update(0, idle(), view());
    assert_eq!(cues, vec![Cue::Pop]);
    assert!(s.player_dead);
    assert_eq!(s.score, 25);
    assert!(s.enemies.is_empty());
    let cues = s.update(0, idle(), view());
    assert_eq!(cues, vec![Cue::Die]);
    assert_eq!(s.score, 0);
    assert!(!s.player_dead);
    assert!(s.enemies.len() >= 4 && s.enemies.len() <= 7);
}

#[test]
fn empty_view_defers_wave() {
    let mut s = MainState::new(Viewport { width: 0, height: 0 });
    let cues = s.update(16_667, idle(), Viewport { width: 0, height: 0 });
    assert!(cues.is_empty());
    assert!(s.enemies.is_empty());
    let cues = s.update(16_667, idle(), view());
    assert_eq!(cues, vec![Cue::WaveStart]);
    assert!(s.enemies.len() >= 4 && s.enemies.len() <= 7);
}

#[test]
fn cleanup_keeps_order() {
    let mut s = MainState::new(view());
    let mut dead = enemy(1, 1);
    dead.is_dead = true;
    s.enemies = vec![enemy(5, 5), dead, enemy(7, 7)];
    let mut spent = bullet(2, 2);
    spent.lifetime = 0;
    s.bullets = vec![bullet(3, 3), spent, bullet(4, 4)];
    s.remove_useless_things();
    assert_eq!(s.enemies, vec![enemy(5, 5), enemy(7, 7)]);
    assert_eq!(s.bullets, vec![bullet(3, 3), bullet(4, 4)]);
    s.remove_useless_things();
    assert_eq!(s.enemies.len(), 2);
    s.clear_entities();
    assert!(s.enemies.is_empty() && s.bullets.is_empty());
}

#[test]
fn spawned_enemy_is_exact() {
    let e = spawned_enemy(12, 34, -30_000, 49_999);
    assert_eq!(e, Enemy { position: at(12, 34), velocity: Vector2 { x: -30_000, y: 49_999 }, is_dead: false });
}

#[test]
fn last_kill_brings_wave_at_once() {
    let mut s = MainState::new(view());
    s.enemies.push(enemy(100, 100));
    s.bullets.push(bullet(110, 110));
    let cues = s.update(16_667, idle(), view());
    assert_eq!(cues, vec![Cue::Pop, Cue::WaveStart]);
    assert_eq!(s.score, 5);
    assert!(s.enemies.len() >= 4 && s.enemies.len() <= 7);
    assert!(s.bullets.is_empty());
}

#[test]
fn spawn_ranges_hold_over_many_samples() {
    let v = view();
    let mut seen = 0;
    let mut xs_differ = false;
    while seen < 10_000 {
        let wave = random_wave(v);
        assert!(wave.len() >= 4 && wave.len() <= 7);
        for e in &wave {
            assert!(e.velocity.x >= -30_000 && e.velocity.x < 70_000);
            assert!(e.velocity.y >= -30_000 && e.velocity.y < 50_000);
            assert!(e.position.x >= 0 && e.position.x < 800 * PX && e.position.x % PX == 0);
            assert!(e.position.y >= 0 && e.position.y < 600 * PX && e.position.y % PX == 0);
            assert!(!e.is_dead);
            if e.position.x != 0 {
                xs_differ = true;
            }
        }
        seen += wave.len();
    }
    assert!(xs_differ);
}

#[test]
fn random_coordinates_stay_in_range() {
    let mut distinct = std::collections::BTreeSet::new();
    for _ in 0..1000 {
        let r = generate_random_scoords(-5, 5);
        assert!((-5..5).contains(&r));
        distinct.insert(r);
    }
    assert!(distinct.len() > 1);
    assert_eq!(generate_random_scoords(7, 8), 7);
}
