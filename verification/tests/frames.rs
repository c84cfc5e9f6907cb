use dodge_shooter::entity::{Field, Obstacle, Player, Projectile};
use dodge_shooter::game::{Effects, Game, GameState, Input};

const PX: i64 = 1_000_000;

fn field() -> Field {
    Field::new(1000 * PX, 700 * PX).unwrap()
}

fn idle() -> Input {
    Input { left: false, right: false, up: false, down: false, fire: false, start: false, exit: false }
}

fn quiet() -> Effects {
    Effects { shot: false, kills: 0, death: false, persist: None, exit: false }
}

fn playing() -> Game {
    let mut g = Game::new(field(), 0);
    g.menu_frame(&Input { start: true, ..idle() });
    g
}

#[test]
fn a_new_game_waits_in_the_menu() {
    let g = Game::new(field(), 42);
    assert_eq!(g.state, GameState::Menu);
    assert_eq!(g.score, 0);
    assert_eq!(g.high_score, 42);
    assert_eq!(g.cooldown, 0);
    assert_eq!(g.player, Player::new(3, &field()));
    assert!(g.obstacles.is_empty() && g.projectiles.is_empty());
    assert!(g.is_ready());
}

#[test]
fn the_menu_waits_for_start() {
    let mut g = Game::new(field(), 7);
    g.score = 5;
    g.obstacles.push(Obstacle::new(0, 0, 50, 16 * PX, 4));
    assert_eq!(g.menu_frame(&idle()), quiet());
    assert_eq!(g.state, GameState::Menu);
    assert_eq!(g.score, 5);
    assert_eq!(g.obstacles.len(), 1);
    assert_eq!(g.menu_frame(&Input { exit: true, ..idle() }), Effects { exit: true, ..quiet() });
    assert_eq!(g.state, GameState::Menu);
    assert_eq!(g.menu_frame(&Input { start: true, ..idle() }), quiet());
    assert_eq!(g.state, GameState::Playing);
    assert_eq!(g.score, 0);
    assert_eq!(g.high_score, 7);
    assert_eq!(g.player, Player::new(3, &field()));
    assert!(g.obstacles.is_empty() && g.projectiles.is_empty());
}

#[test]
fn kill_scenario_scores_the_health_and_removes_the_obstacle() {
    let mut g = playing();
    g.obstacles.push(Obstacle::new(100 * PX, 100 * PX, 50, 16 * PX, 4));
    g.projectiles.push(Projectile::new(104 * PX, 106 * PX));
    let effects = g.playing_frame(&idle(), 0, None);
    assert_eq!(effects, Effects { kills: 1, ..quiet() });
    assert_eq!(g.score, 4);
    assert!(g.obstacles.is_empty());
    assert!(g.projectiles.is_empty());
    assert_eq!(g.state, GameState::Playing);
}

#[test]
fn a_wounded_obstacle_stays() {
    let mut g = playing();
    g.obstacles.push(Obstacle::new(100 * PX, 100 * PX, 50, 32 * PX, 8));
    g.projectiles.push(Projectile::new(104 * PX, 106 * PX));
    let effects = g.playing_frame(&idle(), 0, None);
    assert_eq!(effects.kills, 1);
    assert_eq!(g.score, 8);
    assert_eq!(g.obstacles.len(), 1);
    assert_eq!(g.obstacles[0].health, 4);
    assert!(g.projectiles.is_empty());
}

#[test]
fn hits_use_the_positions_after_movement() {
    let mut g = playing();
    g.obstacles.push(Obstacle::new(100 * PX, 100 * PX, 100, 16 * PX, 4));
    g.projectiles.push(Projectile::new(104 * PX, 250 * PX));
    let effects = g.playing_frame(&idle(), 100_000, None);
    assert_eq!(effects.kills, 1);
    assert_eq!(g.score, 4);
    let mut g = playing();
    g.obstacles.push(Obstacle::new(100 * PX, 100 * PX, 100, 16 * PX, 4));
    g.projectiles.push(Projectile::new(104 * PX, 110 * PX));
    let effects = g.playing_frame(&idle(), 100_000, None);
    assert_eq!(effects.kills, 0);
    assert_eq!(g.obstacles[0].rect.y, 110 * PX);
    assert!(g.projectiles.is_empty());
}

#[test]
fn last_life_scenario_ends_the_game_without_respawn() {
    let mut g = playing();
    g.player.lives = 1;
    let on_player = Obstacle::new(495 * PX, 595 * PX, 50, 16 * PX, 4);
    let elsewhere = Obstacle::new(0, 0, 50, 16 * PX, 4);
    g.obstacles.push(on_player);
    g.obstacles.push(elsewhere);
    g.projectiles.push(Projectile::new(900 * PX, 300 * PX));
    let at = g.player.circle;
    let effects = g.playing_frame(&idle(), 0, None);
    assert_eq!(effects, Effects { death: true, ..quiet() });
    assert_eq!(g.state, GameState::GameOver);
    assert_eq!(g.player.lives, 1);
    assert!(g.player.death);
    assert_eq!(g.player.circle, at);
    assert_eq!(g.obstacles, vec![on_player, elsewhere]);
    assert_eq!(g.projectiles.len(), 1);
}

#[test]
fn death_with_lives_left_respawns_on_an_empty_field() {
    let mut g = playing();
    g.score = 12;
    g.obstacles.push(Obstacle::new(495 * PX, 595 * PX, 50, 16 * PX, 4));
    g.obstacles.push(Obstacle::new(0, 0, 50, 16 * PX, 4));
    g.projectiles.push(Projectile::new(900 * PX, 300 * PX));
    let effects = g.playing_frame(&Input { right: true, ..idle() }, 1_000, None);
    assert_eq!(effects, Effects { death: true, ..quiet() });
    assert_eq!(g.state, GameState::Playing);
    assert_eq!(g.player, Player::new(2, &field()));
    assert!(g.obstacles.is_empty() && g.projectiles.is_empty());
    assert_eq!(g.score, 12);
    g.obstacles.push(Obstacle::new(495 * PX, 595 * PX, 50, 16 * PX, 4));
    g.playing_frame(&idle(), 0, None);
    assert_eq!(g.player, Player::new(1, &field()));
    assert_eq!(g.state, GameState::Playing);
    g.obstacles.push(Obstacle::new(495 * PX, 595 * PX, 50, 16 * PX, 4));
    g.playing_frame(&idle(), 0, None);
    assert_eq!(g.state, GameState::GameOver);
    assert_eq!(g.player.lives, 1);
}

#[test]
fn no_overlap_no_death() {
    let mut g = playing();
    g.obstacles.push(Obstacle::new(0, 0, 50, 16 * PX, 4));
    g.obstacles.push(Obstacle::new(510 * PX + 1, 600 * PX, 50, 16 * PX, 4));
    let effects = g.playing_frame(&idle(), 0, None);
    assert!(!effects.death);
    assert!(!g.player.death);
    assert_eq!(g.player.lives, 3);
    g.obstacles.push(Obstacle::new(510 * PX, 600 * PX, 50, 16 * PX, 4));
    let effects = g.playing_frame(&idle(), 0, None);
    assert!(effects.death);
    assert_eq!(g.player.lives, 2);
}

#[test]
fn the_player_is_tested_after_the_obstacles_have_moved() {
    let mut g = playing();
    g.obstacles.push(Obstacle::new(500 * PX, 570 * PX, 100, 16 * PX, 4));
    assert!(!g.playing_frame(&idle(), 30_000, None).death);
    assert!(!g.playing_frame(&idle(), 9_999, None).death);
    assert!(g.playing_frame(&idle(), 1, None).death);
}

#[test]
fn obstacle_leaves_when_it_has_fully_passed_the_bottom() {
    let mut g = playing();
    g.player.circle.x = 900 * PX;
    g.obstacles.push(Obstacle::new(100 * PX, 715 * PX + 500_000, 100, 16 * PX, 4));
    for frame in 1..=4 {
        g.playing_frame(&idle(), 1_000, None);
        assert_eq!(g.obstacles.len(), 1);
        assert_eq!(g.obstacles[0].rect.y, 715 * PX + 500_000 + frame * 100_000);
    }
    g.playing_frame(&idle(), 1_000, None);
    assert!(g.obstacles.is_empty());
}

#[test]
fn projectile_leaves_through_the_top() {
    let mut g = playing();
    g.projectiles.push(Projectile::new(100 * PX, 20 * PX));
    g.playing_frame(&idle(), 10_000, None);
    assert_eq!(g.projectiles.len(), 1);
    assert_eq!(g.projectiles[0].rect.y, 14 * PX - 12_800_000);
    g.playing_frame(&idle(), 10_000, None);
    assert_eq!(g.projectiles.len(), 1);
    assert_eq!(g.projectiles[0].rect.y, -11_600_000);
    g.playing_frame(&idle(), 10_000, None);
    assert!(g.projectiles.is_empty());
}

#[test]
fn the_newcomer_joins_last_and_moves_in_its_first_frame() {
    let mut g = playing();
    let old = Obstacle::new(0, 0, 50, 16 * PX, 4);
    g.obstacles.push(old);
    let born = Obstacle::new(300 * PX, -10 * PX, 100, 32 * PX, 8);
    g.playing_frame(&idle(), 100_000, Some(born));
    assert_eq!(g.obstacles.len(), 2);
    assert_eq!(g.obstacles[0].rect.y, 5 * PX);
    assert_eq!(g.obstacles[1].rect.x, 300 * PX);
    assert_eq!(g.obstacles[1].rect.y, 0);
    assert_eq!(g.obstacles[1].health, 8);
}

#[test]
fn firing_waits_for_the_cooldown() {
    let mut g = playing();
    let fire = Input { fire: true, ..idle() };
    let effects = g.playing_frame(&fire, 100_000, None);
    assert!(effects.shot);
    assert_eq!(g.projectiles.len(), 1);
    assert_eq!(g.projectiles[0].rect.x, 496 * PX);
    assert_eq!(g.projectiles[0].rect.y, 594 * PX - 128 * PX);
    assert_eq!(g.cooldown, 200_000);
    assert!(!g.playing_frame(&fire, 100_000, None).shot);
    assert_eq!(g.cooldown, 100_000);
    assert!(!g.playing_frame(&fire, 150_000, None).shot);
    assert_eq!(g.cooldown, -50_000);
    assert_eq!(g.projectiles.len(), 1);
    assert!(g.playing_frame(&fire, 400_000, None).shot);
    assert_eq!(g.cooldown, -100_000);
    assert!(g.playing_frame(&fire, 0, None).shot);
    assert_eq!(g.cooldown, 300_000);
}

#[test]
fn the_cooldown_falls_by_the_elapsed_time_without_a_floor() {
    let mut g = playing();
    assert_eq!(g.cooldown, 0);
    assert!(!g.playing_frame(&idle(), 100_000, None).shot);
    assert_eq!(g.cooldown, -100_000);
    assert!(!g.playing_frame(&idle(), 100_000, None).shot);
    assert_eq!(g.cooldown, -200_000);
    assert!(g.playing_frame(&Input { fire: true, ..idle() }, 500_000, None).shot);
    assert_eq!(g.cooldown, -200_000);
    let mut g = playing();
    g.cooldown = 1;
    assert!(!g.playing_frame(&Input { fire: true, ..idle() }, 1, None).shot);
    assert_eq!(g.cooldown, 0);
    assert!(g.playing_frame(&Input { fire: true, ..idle() }, 1, None).shot);
    assert_eq!(g.cooldown, 299_999);
}

#[test]
fn the_cooldown_survives_a_respawn() {
    let mut g = playing();
    g.cooldown = 250_000;
    g.obstacles.push(Obstacle::new(495 * PX, 595 * PX, 50, 16 * PX, 4));
    let effects = g.playing_frame(&Input { fire: true, ..idle() }, 50_000, None);
    assert!(effects.death && !effects.shot);
    assert_eq!(g.player, Player::new(2, &field()));
    assert_eq!(g.cooldown, 200_000);
}

#[test]
fn a_frame_of_two_seconds_is_taken_whole() {
    let mut g = playing();
    g.player.circle.x = 900 * PX;
    g.obstacles.push(Obstacle::new(100 * PX, -10 * PX, 50, 16 * PX, 4));
    g.projectiles.push(Projectile::new(300 * PX, 3000 * PX));
    let effects = g.playing_frame(&Input { down: true, ..idle() }, 2_000_000, None);
    assert!(!effects.death);
    assert_eq!(g.player.circle.y, 990 * PX);
    assert_eq!(g.player.circle.x, 900 * PX);
    assert_eq!(g.obstacles[0].rect.y, 90 * PX);
    assert_eq!(g.obstacles[0].health, 4);
    assert_eq!(g.projectiles[0].rect.y, 2994 * PX - 2560 * PX);
    assert_eq!(g.cooldown, -2_000_000);
}

#[test]
fn the_shot_leaves_from_where_the_player_has_moved_to() {
    let mut g = playing();
    let effects = g.playing_frame(&Input { left: true, fire: true, ..idle() }, 100_000, None);
    assert!(effects.shot);
    assert_eq!(g.player.circle.x, 468 * PX);
    assert_eq!(g.projectiles[0].rect.x, 464 * PX);
}

#[test]
fn opposing_keys_leave_the_player_in_place() {
    let mut g = playing();
    let at = g.player.circle;
    g.playing_frame(&Input { left: true, right: true, up: true, down: true, ..idle() }, 100_000, None);
    assert_eq!(g.player.circle, at);
    g.playing_frame(&Input { left: true, right: true, up: true, ..idle() }, 100_000, None);
    assert_eq!(g.player.circle.x, at.x);
    assert_eq!(g.player.circle.y, at.y - 32 * PX);
}

#[test]
fn exit_during_play_is_passed_on() {
    let mut g = playing();
    let effects = g.playing_frame(&Input { exit: true, ..idle() }, 1_000, None);
    assert_eq!(effects, Effects { exit: true, ..quiet() });
    assert_eq!(g.state, GameState::Playing);
}

#[test]
fn score_never_falls_over_a_run_of_kills() {
    let mut g = playing();
    g.player.circle.x = 900 * PX;
    let mut last = g.score;
    for k in 0..20 {
        g.obstacles.push(Obstacle::new(100 * PX, 100 * PX, 50, 16 * PX, 1 + k % 4));
        g.projectiles.push(Projectile::new(104 * PX, 106 * PX));
        g.playing_frame(&idle(), 0, None);
        assert!(g.obstacles.is_empty());
        assert!(g.score >= last);
        assert_eq!(g.score, last + 1 + k % 4);
        last = g.score;
    }
}

#[test]
fn retry_stores_a_new_record_and_resets_the_score() {
    let mut g = playing();
    g.state = GameState::GameOver;
    g.score = 30;
    g.high_score = 20;
    g.player.lives = 1;
    g.obstacles.push(Obstacle::new(0, 0, 50, 16 * PX, 4));
    let effects = g.game_over_frame(&Input { start: true, ..idle() });
    assert_eq!(effects, Effects { persist: Some(30), ..quiet() });
    assert_eq!(g.state, GameState::Playing);
    assert_eq!(g.score, 0);
    assert_eq!(g.high_score, 30);
    assert_eq!(g.player, Player::new(3, &field()));
    assert!(g.obstacles.is_empty());
}

#[test]
fn retry_without_a_record_stores_nothing() {
    for score in [20, 19, 0] {
        let mut g = playing();
        g.state = GameState::GameOver;
        g.score = score;
        g.high_score = 20;
        let effects = g.game_over_frame(&Input { start: true, ..idle() });
        assert_eq!(effects, quiet());
        assert_eq!(g.high_score, 20);
        assert_eq!(g.score, 0);
        assert_eq!(g.state, GameState::Playing);
    }
}

#[test]
fn exit_from_game_over_stores_a_new_record() {
    let mut g = playing();
    g.state = GameState::GameOver;
    g.score = 21;
    g.high_score = 20;
    let effects = g.game_over_frame(&Input { exit: true, ..idle() });
    assert_eq!(effects, Effects { persist: Some(21), exit: true, ..quiet() });
    assert_eq!(g.high_score, 21);
    assert_eq!(g.score, 21);
    assert_eq!(g.state, GameState::GameOver);
    let mut g = playing();
    g.state = GameState::GameOver;
    g.score = 20;
    g.high_score = 20;
    let effects = g.game_over_frame(&Input { exit: true, ..idle() });
    assert_eq!(effects, Effects { exit: true, ..quiet() });
    assert_eq!(g.high_score, 20);
}

#[test]
fn game_over_waits_without_input() {
    let mut g = playing();
    g.state = GameState::GameOver;
    g.score = 99;
    g.high_score = 1;
    g.obstacles.push(Obstacle::new(0, 0, 50, 16 * PX, 4));
    assert_eq!(g.game_over_frame(&idle()), quiet());
    assert_eq!(g.state, GameState::GameOver);
    assert_eq!(g.score, 99);
    assert_eq!(g.high_score, 1);
    assert_eq!(g.obstacles.len(), 1);
}

#[test]
fn retry_and_exit_together_store_what_the_later_comparison_gives() {
    let mut g = playing();
    g.state = GameState::GameOver;
    g.score = 5;
    g.high_score = 2;
    let both = Input { start: true, exit: true, ..idle() };
    assert_eq!(g.game_over_frame(&both), Effects { persist: Some(5), exit: true, ..quiet() });
    assert_eq!(g.high_score, 5);
    let mut g = playing();
    g.state = GameState::GameOver;
    g.score = -3;
    g.high_score = -7;
    assert_eq!(g.game_over_frame(&both), Effects { persist: Some(0), exit: true, ..quiet() });
    assert_eq!(g.high_score, 0);
    assert_eq!(g.score, 0);
}

#[test]
fn settling_compares_strictly() {
    let mut g = playing();
    g.score = 10;
    g.high_score = 10;
    assert_eq!(g.settle_high_score(), None);
    assert_eq!(g.high_score, 10);
    g.score = 11;
    assert_eq!(g.settle_high_score(), Some(11));
    assert_eq!(g.high_score, 11);
    assert_eq!(g.settle_high_score(), None);
}

#[test]
fn readiness_follows_the_limits() {
    let mut g = playing();
    assert!(g.is_ready());
    g.score = 4_611_686_018_427_387_904;
    assert!(g.is_ready());
    g.score += 1;
    assert!(!g.is_ready());
    g.score = -4_611_686_018_427_387_905;
    assert!(!g.is_ready());
    g.score = 0;
    g.cooldown = -9_223_371_761_976_868_864;
    assert!(g.is_ready());
    g.cooldown -= 1;
    assert!(!g.is_ready());
    g.cooldown = i64::MAX;
    assert!(g.is_ready());
    g.cooldown = 0;
    for _ in 0..4095 {
        g.projectiles.push(Projectile::new(0, 100 * PX));
    }
    assert!(g.is_ready());
    g.projectiles.push(Projectile::new(0, 100 * PX));
    assert!(!g.is_ready());
}

#[test]
fn frames_with_the_generator_keep_the_field_alive() {
    let mut g = Game::new(field(), 0);
    let mut rng = rand::rng();
    assert_eq!(g.frame(&Input { start: true, ..idle() }, 16_667, &mut rng), quiet());
    assert_eq!(g.state, GameState::Playing);
    let held = Input { fire: true, left: true, ..idle() };
    let mut last = g.score;
    let mut seen = 0;
    for _ in 0..3_000 {
        if g.state != GameState::Playing {
            break;
        }
        assert!(g.is_ready());
        g.frame(&held, 16_667, &mut rng);
        assert!(g.score >= last);
        last = g.score;
        seen = seen.max(g.obstacles.len());
        for o in &g.obstacles {
            assert!(o.health > 0);
            assert!(o.rect.y < 700 * PX + o.rect.h);
        }
        for p in &g.projectiles {
            assert!(!p.hit);
            assert!(p.rect.y > -p.rect.h);
        }
    }
    assert!(seen > 0);
}
