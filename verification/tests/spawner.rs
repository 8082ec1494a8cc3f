use afuera::entities::Enemy;
use afuera::geometry::{Color, Shape};
use afuera::spawner::{
    choose_color, enemy_capacity, enemy_from_draws, enemy_palette, enlist, new_enemy_shape,
    roll_enemy, scale_size, should_spawn, Draws, BASE_ENEMIES, BASE_WIDTH, MAX_ENEMY_SIZE,
    MAX_ENEMY_SPEED, MIN_ENEMY_SIZE, MIN_ENEMY_SPEED, ROLL_LIMIT, SPAWN_ROLL,
};

#[test]
fn spawner_constants() {
    assert_eq!(BASE_WIDTH, 750_000);
    assert_eq!(BASE_ENEMIES, 30);
    assert_eq!(ROLL_LIMIT, 99);
    assert_eq!(SPAWN_ROLL, 95);
    assert_eq!((MIN_ENEMY_SIZE, MAX_ENEMY_SIZE), (16_000, 64_000));
    assert_eq!((MIN_ENEMY_SPEED, MAX_ENEMY_SPEED), (50_000, 150_000));
}

#[test]
fn capacity_grows_with_the_screen() {
    assert_eq!(enemy_capacity(750_000), 30);
    assert_eq!(enemy_capacity(375_000), 15);
    assert_eq!(enemy_capacity(1_500_000), 60);
    assert_eq!(enemy_capacity(774_999), 30);
    assert_eq!(enemy_capacity(775_000), 31);
    assert_eq!(enemy_capacity(25_000), 1);
    assert_eq!(enemy_capacity(24_999), 0);
    assert_eq!(enemy_capacity(0), 0);
    assert_eq!(enemy_capacity(-750_000), 0);
    assert_eq!(enemy_capacity(i32::MAX), 85_899);
}

#[test]
fn sizes_grow_with_the_screen() {
    assert_eq!(scale_size(16_000, 750_000), 16_000);
    assert_eq!(scale_size(64_000, 750_000), 64_000);
    assert_eq!(scale_size(64_000, 1_500_000), 128_000);
    assert_eq!(scale_size(40_000, 375_000), 20_000);
    assert_eq!(scale_size(16_000, 25_000), 533);
    assert_eq!(scale_size(0, 750_000), 0);
    assert_eq!(scale_size(-16_000, 750_000), 0);
    assert_eq!(scale_size(16_000, 0), 0);
    assert_eq!(scale_size(16_000, -750_000), 0);
    assert_eq!(scale_size(i32::MAX, i32::MAX), u32::MAX);
}

#[test]
fn an_enemy_appears_on_a_high_roll_when_there_is_room() {
    assert!(should_spawn(0, 750_000, 95));
    assert!(should_spawn(29, 750_000, 99));
    assert!(!should_spawn(30, 750_000, 99));
    assert!(!should_spawn(0, 750_000, 94));
    assert!(!should_spawn(0, 750_000, 0));
    assert!(!should_spawn(0, 24_999, 99));
    assert!(!should_spawn(0, -1, 99));
}

#[test]
fn a_new_enemy_starts_above_the_top_edge() {
    assert_eq!(
        new_enemy_shape(40_000, 100_000, 200_000, Color::Lime),
        Shape {
            size: 40_000,
            speed: 100_000,
            x: 200_000,
            y: -40_000,
            w: 40_000,
            h: 40_000,
            color: Color::Lime,
            collided: false,
        }
    );
    assert_eq!(new_enemy_shape(u32::MAX, 1, 2, Color::Red).y, i32::MIN);
}

#[test]
fn palette_has_twenty_colours() {
    let colors = enemy_palette();
    assert_eq!(colors.len(), 20);
    assert_eq!(colors[0], Color::Beige);
    assert_eq!(colors[16], Color::Red);
    assert_eq!(colors[19], Color::Yellow);
    assert!(!colors.contains(&Color::Gold));
    for i in 0..colors.len() {
        for j in 0..i {
            assert_ne!(colors[i], colors[j]);
        }
    }
}

#[test]
fn colour_without_a_pick_is_the_first() {
    assert_eq!(choose_color(None), Color::Beige);
    assert_eq!(choose_color(Some(Color::Pink)), Color::Pink);
}

#[test]
fn serial_numbers_are_handed_out_once() {
    let body = new_enemy_shape(40_000, 100_000, 200_000, Color::Lime);
    let mut enemies: Vec<Enemy> = Vec::new();
    let mut next: usize = 5;
    assert!(enlist(&mut enemies, &mut next, body));
    assert!(enlist(&mut enemies, &mut next, Shape { x: 1, ..body }));
    assert_eq!(next, 7);
    assert_eq!(
        enemies,
        vec![
            Enemy { id: 5, shape: body, bullet_count: 0 },
            Enemy { id: 6, shape: Shape { x: 1, ..body }, bullet_count: 0 },
        ]
    );
}

#[test]
fn nobody_joins_when_the_serial_numbers_have_run_out() {
    let body = new_enemy_shape(40_000, 100_000, 200_000, Color::Lime);
    let mut enemies: Vec<Enemy> = Vec::new();
    let mut next: usize = usize::MAX - 1;
    assert!(enlist(&mut enemies, &mut next, body));
    assert_eq!(next, usize::MAX);
    assert!(!enlist(&mut enemies, &mut next, body));
    assert_eq!(next, usize::MAX);
    assert_eq!(enemies, vec![Enemy { id: usize::MAX - 1, shape: body, bullet_count: 0 }]);
}

#[test]
fn no_roll_without_room() {
    macroquad::rand::srand(11);
    for _ in 0..2_000 {
        assert_eq!(roll_enemy(30, 750_000), None);
        assert_eq!(roll_enemy(0, 24_999), None);
        assert_eq!(roll_enemy(0, 0), None);
        assert_eq!(roll_enemy(0, -750_000), None);
        assert_eq!(roll_enemy(usize::MAX, i32::MAX), None);
    }
}

#[test]
fn rolled_enemies_fit_the_screen() {
    macroquad::rand::srand(12);
    let palette = enemy_palette();
    for &width in &[25_000, 375_000, 750_000, 1_920_000, i32::MAX] {
        let mut seen = 0;
        for _ in 0..5_000 {
            if let Some(s) = roll_enemy(0, width) {
                seen += 1;
                let least = scale_size(16_000, width);
                let most = scale_size(64_000, width);
                assert!(s.size > 0);
                assert!(least <= s.size && s.size <= most);
                assert!(50_000 <= s.speed && s.speed <= 150_000);
                assert!((s.size / 2) as i64 <= s.x as i64);
                assert!(s.x as i64 <= width as i64 - (s.size / 2) as i64);
                assert!(palette.contains(&s.color));
                assert_eq!(s, new_enemy_shape(s.size, s.speed, s.x, s.color));
            }
        }
        assert!(seen > 0);
    }
}

#[test]
fn about_four_rolls_in_a_hundred_bring_an_enemy() {
    macroquad::rand::srand(13);
    let mut seen = 0;
    for _ in 0..20_000 {
        if roll_enemy(29, 750_000).is_some() {
            seen += 1;
        }
    }
    assert!(600 <= seen && seen <= 1_000, "{}", seen);
}

#[test]
fn rolled_enemies_differ() {
    macroquad::rand::srand(14);
    let mut shapes: Vec<Shape> = Vec::new();
    while shapes.len() < 200 {
        if let Some(s) = roll_enemy(0, 750_000) {
            shapes.push(s);
        }
    }
    let first = shapes[0];
    assert!(shapes.iter().any(|s| s.size != first.size));
    assert!(shapes.iter().any(|s| s.speed != first.speed));
    assert!(shapes.iter().any(|s| s.x != first.x));
    assert!(shapes.iter().any(|s| s.color != first.color));
    // The draws are not stuck at an end of their range.
    assert!(shapes.iter().any(|s| s.size != 16_000 && s.size != 64_000));
    assert!(shapes.iter().any(|s| s.speed != 50_000 && s.speed != 150_000));
    assert!(shapes.iter().any(|s| s.color != Color::Beige));
    let mut colors: Vec<Color> = Vec::new();
    for s in &shapes {
        if !colors.contains(&s.color) {
            colors.push(s.color);
        }
    }
    assert!(colors.len() >= 10);
}

#[test]
fn draws_on_a_high_roll_make_an_enemy() {
    let d = Draws {
        roll: 95,
        base_size: 40_000,
        speed: 100_000,
        x: 200_000,
        pick: Some(Color::Lime),
    };
    assert_eq!(
        enemy_from_draws(0, 750_000, d),
        Some(Shape {
            size: 40_000,
            speed: 100_000,
            x: 200_000,
            y: -40_000,
            w: 40_000,
            h: 40_000,
            color: Color::Lime,
            collided: false,
        })
    );
    // On a screen twice as wide the enemy is twice as large.
    assert_eq!(
        enemy_from_draws(59, 1_500_000, Draws { roll: 99, pick: None, ..d }),
        Some(Shape {
            size: 80_000,
            speed: 100_000,
            x: 200_000,
            y: -80_000,
            w: 80_000,
            h: 80_000,
            color: Color::Beige,
            collided: false,
        })
    );
}

#[test]
fn draws_on_a_low_roll_or_without_room_make_nothing() {
    let d = Draws {
        roll: 94,
        base_size: 40_000,
        speed: 100_000,
        x: 200_000,
        pick: Some(Color::Lime),
    };
    assert_eq!(enemy_from_draws(0, 750_000, d), None);
    assert_eq!(enemy_from_draws(0, 750_000, Draws { roll: 0, ..d }), None);
    assert_eq!(enemy_from_draws(30, 750_000, Draws { roll: 99, ..d }), None);
    assert_eq!(enemy_from_draws(0, 24_999, Draws { roll: 99, ..d }), None);
    assert_eq!(enemy_from_draws(0, -750_000, Draws { roll: 99, ..d }), None);
}

#[test]
fn draws_out_of_range_are_taken_as_they_are() {
    let d = Draws { roll: i32::MAX, base_size: -5, speed: -1, x: i32::MIN, pick: None };
    assert_eq!(
        enemy_from_draws(0, 750_000, d),
        Some(Shape {
            size: 0,
            speed: 0,
            x: i32::MIN,
            y: 0,
            w: 0,
            h: 0,
            color: Color::Beige,
            collided: false,
        })
    );
}
