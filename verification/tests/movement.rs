use afuera::entities::{Enemy, EnemyBullet};
use afuera::geometry::{Color, Shape};
use afuera::movement::{
    advance_bullets, advance_enemies, advance_enemy_bullets, fire, keyboard_direction, move_ship,
    BALL_RADIUS, BULLET_INTERVAL, BULLET_OFFSET, BULLET_SIZE, MAX_BULLETS_PER_SECOND,
    MOVEMENT_SPEED,
};

fn ship_at(x: i32, y: i32) -> Shape {
    Shape {
        size: 32_000,
        speed: 400_000,
        x,
        y,
        w: 32_000,
        h: 32_000,
        color: Color::Gold,
        collided: false,
    }
}

#[test]
fn movement_constants() {
    assert_eq!(MOVEMENT_SPEED, 400_000);
    assert_eq!(BALL_RADIUS, 16_000);
    assert_eq!(MAX_BULLETS_PER_SECOND, 4);
    assert_eq!(BULLET_INTERVAL, 1_000_000 / MAX_BULLETS_PER_SECOND);
    assert_eq!(BULLET_SIZE, 32_000);
    assert_eq!(BULLET_OFFSET, 24_000);
}

#[test]
fn first_key_wins() {
    assert_eq!(keyboard_direction(true, false), -400_000);
    assert_eq!(keyboard_direction(true, true), -400_000);
    assert_eq!(keyboard_direction(false, true), 400_000);
    assert_eq!(keyboard_direction(false, false), 0);
}

#[test]
fn ship_moves_by_speed_times_time() {
    let mut ship = ship_at(100_000, 100_000);
    move_ship(&mut ship, 400_000, 0, 16_667, 750_000, 500_000);
    assert_eq!(ship, ship_at(106_666, 100_000));
    move_ship(&mut ship, -400_000, -400_000, 10_000, 750_000, 500_000);
    assert_eq!(ship, ship_at(102_666, 96_000));
}

#[test]
fn diagonal_moves_are_not_shortened() {
    let mut ship = ship_at(100_000, 100_000);
    move_ship(&mut ship, 400_000, 400_000, 100_000, 750_000, 500_000);
    assert_eq!(ship, ship_at(140_000, 140_000));
}

#[test]
fn ship_never_moves_further_than_the_direction_is_long() {
    let mut ship = ship_at(100_000, 100_000);
    move_ship(&mut ship, 1_000, -2_500, 16_667, 750_000, 500_000);
    assert_eq!(ship, ship_at(101_000, 97_500));
    // A frame that took over an hour still moves the ship by 400 pixels at most.
    let mut ship = ship_at(100_000, 100_000);
    move_ship(&mut ship, 400_000, 0, u32::MAX, 750_000, 500_000);
    assert_eq!(ship, ship_at(500_000, 100_000));
}

#[test]
fn ship_is_kept_on_the_screen() {
    let mut ship = ship_at(700_000, 480_000);
    move_ship(&mut ship, 400_000, 400_000, 1_000_000, 750_000, 500_000);
    assert_eq!(ship, ship_at(734_000, 484_000));
    move_ship(&mut ship, -400_000, -400_000, u32::MAX, 750_000, 500_000);
    move_ship(&mut ship, -400_000, -400_000, u32::MAX, 750_000, 500_000);
    assert_eq!(ship, ship_at(16_000, 16_000));
}

#[test]
fn ship_is_kept_on_the_screen_whatever_the_input() {
    for &dir in &[i32::MIN, -400_000, -1, 0, 1, 400_000, i32::MAX] {
        for &micros in &[0u32, 1, 16_667, 1_000_000, u32::MAX] {
            for &start in &[i32::MIN, -5, 16_000, 300_000, 734_000, i32::MAX] {
                let mut ship = ship_at(start, start);
                move_ship(&mut ship, dir, dir, micros, 750_000, 500_000);
                assert!(16_000 <= ship.x && ship.x <= 750_000 - 16_000);
                assert!(16_000 <= ship.y && ship.y <= 500_000 - 16_000);
            }
        }
    }
}

#[test]
fn near_edge_wins_on_a_screen_too_small_for_the_ship() {
    let mut ship = ship_at(5_000, 5_000);
    move_ship(&mut ship, 0, 0, 16_667, 10_000, 31_999);
    assert_eq!(ship, ship_at(16_000, 16_000));
    let mut ship = ship_at(5_000, 5_000);
    move_ship(&mut ship, 0, 0, 16_667, -40, i32::MIN);
    assert_eq!(ship, ship_at(16_000, 16_000));
    let mut ship = ship_at(5_000, 5_000);
    move_ship(&mut ship, 0, 0, 16_667, 32_000, 32_000);
    assert_eq!(ship, ship_at(16_000, 16_000));
}

#[test]
fn ship_fires_after_a_quarter_of_a_second() {
    let ship = ship_at(300_000, 400_000);
    let mut bullets: Vec<Shape> = Vec::new();
    let mut last: u64 = 1_000_000;
    assert!(!fire(&mut bullets, &ship, 1_250_000, &mut last));
    assert!(bullets.is_empty());
    assert_eq!(last, 1_000_000);
    assert!(fire(&mut bullets, &ship, 1_250_001, &mut last));
    assert_eq!(last, 1_250_001);
    assert_eq!(
        bullets,
        vec![Shape {
            size: 32_000,
            speed: 800_000,
            x: 300_000,
            y: 376_000,
            w: 32_000,
            h: 32_000,
            color: Color::Gold,
            collided: false,
        }]
    );
    assert!(!fire(&mut bullets, &ship, 1_500_001, &mut last));
    assert!(fire(&mut bullets, &ship, 1_500_002, &mut last));
    assert_eq!(bullets.len(), 2);
}

#[test]
fn ship_does_not_fire_when_the_clock_runs_backwards() {
    let ship = ship_at(300_000, 400_000);
    let mut bullets: Vec<Shape> = Vec::new();
    let mut last: u64 = 1_000_000;
    assert!(!fire(&mut bullets, &ship, 0, &mut last));
    assert!(!fire(&mut bullets, &ship, 1_000_000, &mut last));
    assert!(bullets.is_empty());
    assert_eq!(last, 1_000_000);
    let mut last: u64 = 0;
    assert!(fire(&mut bullets, &ship, u64::MAX, &mut last));
    assert_eq!(last, u64::MAX);
}

#[test]
fn bullet_speed_and_height_stop_at_the_ends() {
    let mut ship = ship_at(0, i32::MIN);
    ship.speed = u32::MAX;
    let mut bullets: Vec<Shape> = Vec::new();
    let mut last: u64 = 0;
    assert!(fire(&mut bullets, &ship, 250_001, &mut last));
    assert_eq!(bullets[0].speed, u32::MAX);
    assert_eq!(bullets[0].y, i32::MIN);
}

#[test]
fn enemies_fall_and_bullets_rise() {
    let body = Shape {
        size: 40_000,
        speed: 100_000,
        x: 10,
        y: -40_000,
        w: 40_000,
        h: 40_000,
        color: Color::Lime,
        collided: false,
    };
    let mut enemies = vec![
        Enemy { id: 3, shape: body, bullet_count: 1 },
        Enemy { id: 4, shape: Shape { speed: 50_000, y: 7, ..body }, bullet_count: 0 },
    ];
    advance_enemies(&mut enemies, 500_000);
    assert_eq!(
        enemies,
        vec![
            Enemy { id: 3, shape: Shape { y: 10_000, ..body }, bullet_count: 1 },
            Enemy { id: 4, shape: Shape { speed: 50_000, y: 25_007, ..body }, bullet_count: 0 },
        ]
    );
    let mut bullets = vec![Shape { speed: 800_000, y: 376_000, ..body }];
    advance_bullets(&mut bullets, 16_667);
    assert_eq!(bullets, vec![Shape { speed: 800_000, y: 362_667, ..body }]);
    let mut shots = vec![EnemyBullet { enemy_id: 3, shape: Shape { speed: 300_000, y: 0, ..body } }];
    advance_enemy_bullets(&mut shots, 16_667);
    assert_eq!(
        shots,
        vec![EnemyBullet { enemy_id: 3, shape: Shape { speed: 300_000, y: 5_000, ..body } }]
    );
}

#[test]
fn nothing_moves_in_no_time() {
    let body = Shape {
        size: 40_000,
        speed: 100_000,
        x: 10,
        y: 20,
        w: 40_000,
        h: 40_000,
        color: Color::Lime,
        collided: true,
    };
    let mut enemies = vec![Enemy { id: 3, shape: body, bullet_count: 1 }];
    let mut bullets = vec![body];
    let mut shots = vec![EnemyBullet { enemy_id: 3, shape: body }];
    advance_enemies(&mut enemies, 0);
    advance_bullets(&mut bullets, 0);
    advance_enemy_bullets(&mut shots, 0);
    assert_eq!(enemies, vec![Enemy { id: 3, shape: body, bullet_count: 1 }]);
    assert_eq!(bullets, vec![body]);
    assert_eq!(shots, vec![EnemyBullet { enemy_id: 3, shape: body }]);
}

#[test]
fn heights_stop_at_the_ends_of_the_range() {
    let body = Shape {
        size: 40_000,
        speed: u32::MAX,
        x: 10,
        y: i32::MAX - 5,
        w: 40_000,
        h: 40_000,
        color: Color::Lime,
        collided: false,
    };
    let mut enemies = vec![Enemy { id: 3, shape: body, bullet_count: 0 }];
    advance_enemies(&mut enemies, u32::MAX);
    assert_eq!(enemies[0].shape.y, i32::MAX);
    let mut bullets = vec![Shape { y: i32::MIN + 5, ..body }];
    advance_bullets(&mut bullets, u32::MAX);
    assert_eq!(bullets[0].y, i32::MIN);
}
