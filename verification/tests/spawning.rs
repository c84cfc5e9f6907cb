use dodge_shooter::entity::Field;
use dodge_shooter::spawner::{obstacle_from_draw, spawn, spawn_if};

const PX: i64 = 1_000_000;

#[test]
fn health_is_a_quarter_of_the_size_rounded() {
    assert_eq!(obstacle_from_draw(16 * PX, 0, 50).health, 4);
    assert_eq!(obstacle_from_draw(18 * PX - 1, 0, 50).health, 4);
    assert_eq!(obstacle_from_draw(18 * PX, 0, 50).health, 5);
    assert_eq!(obstacle_from_draw(20 * PX, 0, 50).health, 5);
    assert_eq!(obstacle_from_draw(22 * PX - 1, 0, 50).health, 5);
    assert_eq!(obstacle_from_draw(22 * PX, 0, 50).health, 6);
    assert_eq!(obstacle_from_draw(62 * PX - 1, 0, 50).health, 15);
    assert_eq!(obstacle_from_draw(64 * PX - 1, 0, 50).health, 16);
}

#[test]
fn drawn_obstacle_starts_above_the_field() {
    let o = obstacle_from_draw(32 * PX, 77 * PX, 149);
    assert_eq!(o.rect.x, 77 * PX);
    assert_eq!(o.rect.y, -10 * PX);
    assert_eq!(o.rect.w, 32 * PX);
    assert_eq!(o.rect.h, 32 * PX);
    assert_eq!(o.speed, 149);
    assert_eq!(o.health, 8);
}

#[test]
fn spawner_draws_within_its_ranges() {
    let field = Field::new(1000 * PX, 700 * PX).unwrap();
    let mut rng = rand::rng();
    let mut born = 0;
    let mut sizes_differ = false;
    let mut places_differ = false;
    let mut speeds_differ = false;
    let mut first = None;
    for _ in 0..20_000 {
        if let Some(o) = spawn(&mut rng, &field) {
            born += 1;
            assert!(16 * PX <= o.rect.w && o.rect.w < 64 * PX);
            assert_eq!(o.rect.h, o.rect.w);
            assert!(o.rect.w <= o.rect.x && o.rect.x < field.width - o.rect.w);
            assert_eq!(o.rect.y, -10 * PX);
            assert!(50 <= o.speed && o.speed < 150);
            assert_eq!(o, obstacle_from_draw(o.rect.w, o.rect.x, o.speed));
            assert!(4 <= o.health && o.health <= 16);
            match first {
                None => first = Some(o),
                Some(f) => {
                    sizes_differ = sizes_differ || f.rect.w != o.rect.w;
                    places_differ = places_differ || f.rect.x != o.rect.x;
                    speeds_differ = speeds_differ || f.speed != o.speed;
                },
            }
        }
    }
    assert!(born > 1000 && born < 3000);
    assert!(sizes_differ && places_differ && speeds_differ);
}

#[test]
fn spawner_fits_the_narrowest_field() {
    let field = Field::new(128 * PX - 1, 0).unwrap();
    let mut rng = rand::rng();
    for _ in 0..5_000 {
        if let Some(o) = spawn(&mut rng, &field) {
            assert!(o.rect.w <= o.rect.x && o.rect.x < field.width - o.rect.w);
        }
    }
}

#[test]
fn a_chosen_frame_always_spawns_and_another_never() {
    let field = Field::new(1000 * PX, 700 * PX).unwrap();
    let mut rng = rand::rng();
    let mut sizes_differ = false;
    let first = spawn_if(true, &mut rng, &field).unwrap();
    for _ in 0..2_000 {
        assert_eq!(spawn_if(false, &mut rng, &field), None);
        let o = spawn_if(true, &mut rng, &field).unwrap();
        assert!(16 * PX <= o.rect.w && o.rect.w < 64 * PX);
        assert!(o.rect.w <= o.rect.x && o.rect.x < field.width - o.rect.w);
        assert!(50 <= o.speed && o.speed < 150);
        assert_eq!(o, obstacle_from_draw(o.rect.w, o.rect.x, o.speed));
        sizes_differ = sizes_differ || o.rect.w != first.rect.w;
    }
    assert!(sizes_differ);
}
