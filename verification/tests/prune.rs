use afuera::entities::{Enemy, EnemyBullet};
use afuera::geometry::{Color, Shape};
use afuera::prune::{prune_bullets, prune_enemies, prune_enemy_bullets, release};

fn body(y: i32, size: u32) -> Shape {
    Shape { size, speed: 100_000, x: 100_000, y, w: size, h: size, color: Color::Lime, collided: false }
}

fn enemy(id: usize, y: i32, bullet_count: usize) -> Enemy {
    Enemy { id, shape: body(y, 40_000), bullet_count }
}

fn shot(enemy_id: usize, y: i32) -> EnemyBullet {
    EnemyBullet { enemy_id, shape: body(y, 16_000) }
}

#[test]
fn enemy_bullets_leave_through_the_bottom() {
    let mut shots = vec![shot(1, 515_999), shot(2, 516_000), shot(3, 0), shot(4, i32::MAX)];
    let mut enemies: Vec<Enemy> = Vec::new();
    prune_enemy_bullets(&mut shots, &mut enemies, 500_000);
    assert_eq!(shots, vec![shot(1, 515_999), shot(3, 0)]);
    assert!(enemies.is_empty());
}

#[test]
fn an_expired_bullet_goes_back_to_its_owner() {
    let mut shots = vec![shot(2, 600_000), shot(1, 100_000), shot(3, 600_000)];
    let mut enemies = vec![enemy(1, 50_000, 1), enemy(2, 60_000, 1), enemy(3, 70_000, 1)];
    prune_enemy_bullets(&mut shots, &mut enemies, 500_000);
    assert_eq!(shots, vec![shot(1, 100_000)]);
    assert_eq!(enemies, vec![enemy(1, 50_000, 1), enemy(2, 60_000, 0), enemy(3, 70_000, 0)]);
}

#[test]
fn an_expired_bullet_without_owner_is_just_dropped() {
    let mut shots = vec![shot(9, 600_000)];
    let mut enemies = vec![enemy(1, 50_000, 1)];
    prune_enemy_bullets(&mut shots, &mut enemies, 500_000);
    assert!(shots.is_empty());
    assert_eq!(enemies, vec![enemy(1, 50_000, 1)]);
}

#[test]
fn bullet_count_is_held_at_zero() {
    let mut shots = vec![shot(1, 600_000), shot(1, 700_000)];
    let mut enemies = vec![enemy(1, 50_000, 1)];
    prune_enemy_bullets(&mut shots, &mut enemies, 500_000);
    assert!(shots.is_empty());
    assert_eq!(enemies, vec![enemy(1, 50_000, 0)]);
    let mut enemies = vec![enemy(1, 50_000, 0)];
    release(&mut enemies, 1);
    assert_eq!(enemies, vec![enemy(1, 50_000, 0)]);
}

#[test]
fn release_finds_the_first_enemy_with_the_number() {
    let mut enemies = vec![enemy(1, 0, 1), enemy(2, 0, 1), enemy(2, 5, 1), enemy(3, 0, 1)];
    release(&mut enemies, 2);
    assert_eq!(enemies, vec![enemy(1, 0, 1), enemy(2, 0, 0), enemy(2, 5, 1), enemy(3, 0, 1)]);
    release(&mut enemies, 7);
    assert_eq!(enemies, vec![enemy(1, 0, 1), enemy(2, 0, 0), enemy(2, 5, 1), enemy(3, 0, 1)]);
    let mut none: Vec<Enemy> = Vec::new();
    release(&mut none, 0);
    assert!(none.is_empty());
}

#[test]
fn enemies_leave_through_the_bottom_or_when_hit() {
    let mut hit = enemy(3, 100_000, 1);
    hit.shape.collided = true;
    let mut enemies =
        vec![enemy(1, 539_999, 0), enemy(2, 540_000, 0), hit, enemy(4, -40_000, 1)];
    prune_enemies(&mut enemies, 500_000);
    assert_eq!(enemies, vec![enemy(1, 539_999, 0), enemy(4, -40_000, 1)]);
}

#[test]
fn bullets_leave_through_the_top_or_when_spent() {
    let mut spent = body(100_000, 32_000);
    spent.collided = true;
    let mut bullets = vec![body(-16_000, 32_000), body(-16_001, 32_000), spent, body(0, 32_000)];
    prune_bullets(&mut bullets);
    assert_eq!(bullets, vec![body(-16_000, 32_000), body(0, 32_000)]);
    let mut odd = vec![body(-2, 3), body(-1, 3)];
    prune_bullets(&mut odd);
    assert_eq!(odd, vec![body(-1, 3)]);
}

#[test]
fn pruning_with_nothing_to_drop_changes_nothing() {
    let mut shots = vec![shot(1, 100_000), shot(2, 515_999)];
    let mut enemies = vec![enemy(1, 50_000, 1), enemy(2, 539_999, 1)];
    let mut bullets = vec![body(-16_000, 32_000), body(300_000, 32_000)];
    let before = (shots.clone(), enemies.clone(), bullets.clone());
    for _ in 0..3 {
        prune_enemy_bullets(&mut shots, &mut enemies, 500_000);
        prune_enemies(&mut enemies, 500_000);
        prune_bullets(&mut bullets);
        assert_eq!((shots.clone(), enemies.clone(), bullets.clone()), before);
    }
    let mut empty_shots: Vec<EnemyBullet> = Vec::new();
    let mut empty_enemies: Vec<Enemy> = Vec::new();
    let mut empty_bullets: Vec<Shape> = Vec::new();
    prune_enemy_bullets(&mut empty_shots, &mut empty_enemies, 500_000);
    prune_enemies(&mut empty_enemies, 500_000);
    prune_bullets(&mut empty_bullets);
    assert!(empty_shots.is_empty() && empty_enemies.is_empty() && empty_bullets.is_empty());
}

#[test]
fn pruning_at_the_ends_of_the_range() {
    let mut enemies = vec![enemy(1, i32::MAX, 0), enemy(2, i32::MIN, 0)];
    prune_enemies(&mut enemies, i32::MAX);
    assert_eq!(enemies, vec![enemy(1, i32::MAX, 0), enemy(2, i32::MIN, 0)]);
    prune_enemies(&mut enemies, i32::MIN);
    assert_eq!(enemies, vec![enemy(2, i32::MIN, 0)]);
    let mut bullets = vec![body(i32::MIN, u32::MAX), body(i32::MAX, u32::MAX)];
    prune_bullets(&mut bullets);
    assert_eq!(bullets, vec![body(i32::MAX, u32::MAX)]);
}
