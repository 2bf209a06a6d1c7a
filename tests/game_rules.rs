use snake_game::direction::{Direction, Key};
use snake_game::food::Food;
use snake_game::game::{free_cell, Game};
use snake_game::snake::{Snake, SnakePiece};
use std::collections::VecDeque;

fn snake_of(cells: &[(u32, u32)], d: Direction) -> Snake {
    let mut parts = VecDeque::new();
    for &(x, y) in cells {
        parts.push_back(SnakePiece(x, y));
    }
    Snake { snake_parts: parts, width: 20, d }
}

fn game_of(cols: u32, rows: u32, snake: Snake, food: (u32, u32), score: u32, just_eaten: bool) -> Game {
    Game {
        rows,
        cols,
        snake,
        just_eaten,
        square_width: 20,
        food: Food { x: food.0, y: food.1 },
        score,
    }
}

fn body(g: &Game) -> Vec<(u32, u32)> {
    g.snake.snake_parts.iter().map(|p| (p.0, p.1)).collect()
}

#[test]
fn new_game_starts_at_centre_heading_down() {
    let g = Game::new(40, 20, 20);
    assert_eq!(body(&g), vec![(20, 10)]);
    assert_eq!(g.snake.d, Direction::Down);
    assert_eq!(g.food, Food { x: 1, y: 1 });
    assert_eq!(g.score, 0);
    assert!(!g.just_eaten);
}

#[test]
fn plain_tick_keeps_length_and_moves_one_cell() {
    let mut g = game_of(10, 10, snake_of(&[(5, 5), (5, 6), (5, 7)], Direction::Up), (0, 0), 0, false);
    assert!(g.update());
    assert_eq!(body(&g), vec![(5, 4), (5, 5), (5, 6)]);
    g.pressed(&Key::Right);
    assert!(g.update());
    assert_eq!(body(&g), vec![(6, 4), (5, 4), (5, 5)]);
    g.pressed(&Key::Down);
    assert!(g.update());
    assert_eq!(body(&g), vec![(6, 5), (6, 4), (5, 4)]);
    g.pressed(&Key::Left);
    assert!(g.update());
    assert_eq!(body(&g), vec![(5, 5), (6, 5), (6, 4)]);
    assert_eq!(g.score, 0);
}

#[test]
fn meal_tick_grows_by_one_and_keeps_tail() {
    let mut g = game_of(10, 10, snake_of(&[(5, 5), (5, 6)], Direction::Up), (0, 0), 1, true);
    assert!(g.update());
    assert_eq!(body(&g), vec![(5, 4), (5, 5), (5, 6)]);
    assert_eq!(g.score, 2);
    assert!(!g.just_eaten);
}

#[test]
fn reverse_key_is_rejected() {
    let mut g = Game::new(40, 20, 20);
    g.pressed(&Key::Up);
    assert_eq!(g.snake.d, Direction::Down);
    g.pressed(&Key::Left);
    assert_eq!(g.snake.d, Direction::Left);
    g.pressed(&Key::Right);
    assert_eq!(g.snake.d, Direction::Left);
    g.pressed(&Key::Down);
    assert_eq!(g.snake.d, Direction::Down);
    g.pressed(&Key::Down);
    assert_eq!(g.snake.d, Direction::Down);
    g.pressed(&Key::Other);
    assert_eq!(g.snake.d, Direction::Down);
}

#[test]
fn key_and_direction_mappings() {
    assert_eq!(Key::Up.direction(), Some(Direction::Up));
    assert_eq!(Key::Down.direction(), Some(Direction::Down));
    assert_eq!(Key::Left.direction(), Some(Direction::Left));
    assert_eq!(Key::Right.direction(), Some(Direction::Right));
    assert_eq!(Key::Other.direction(), None);
    assert_eq!(Direction::Up.opposite(), Direction::Down);
    assert_eq!(Direction::Down.opposite(), Direction::Up);
    assert_eq!(Direction::Left.opposite(), Direction::Right);
    assert_eq!(Direction::Right.opposite(), Direction::Left);
}

#[test]
fn wall_on_the_left_ends_the_game_unchanged() {
    let mut g = game_of(40, 20, snake_of(&[(0, 7), (1, 7)], Direction::Left), (5, 5), 1, false);
    assert!(!g.update());
    assert_eq!(body(&g), vec![(0, 7), (1, 7)]);
    assert_eq!(g.score, 1);
    assert_eq!(g.food, Food { x: 5, y: 5 });
}

#[test]
fn walls_on_every_side_end_the_game() {
    for (cell, d) in [((3, 0), Direction::Up), ((3, 19), Direction::Down), ((39, 4), Direction::Right)] {
        let mut g = game_of(40, 20, snake_of(&[cell], d), (5, 5), 0, false);
        assert!(!g.update());
        assert_eq!(body(&g), vec![cell]);
    }
}

#[test]
fn running_into_own_body_ends_the_game() {
    let cells = [(5, 5), (5, 6), (4, 6), (4, 5), (4, 4)];
    let mut g = game_of(10, 10, snake_of(&cells, Direction::Left), (0, 0), 4, false);
    assert!(!g.update());
    assert_eq!(g.score, 4);
    assert_eq!(body(&g), vec![(5, 5), (5, 6), (4, 6), (4, 5)]);
}

#[test]
fn following_into_the_vacated_tail_is_allowed() {
    let cells = [(5, 5), (5, 6), (4, 6), (4, 5)];
    let mut g = game_of(10, 10, snake_of(&cells, Direction::Left), (0, 0), 3, false);
    assert!(g.update());
    assert_eq!(body(&g), vec![(4, 5), (5, 5), (5, 6), (4, 6)]);
}

#[test]
fn growing_into_the_tail_is_a_collision() {
    let cells = [(5, 5), (5, 6), (4, 6), (4, 5)];
    let mut g = game_of(10, 10, snake_of(&cells, Direction::Left), (0, 0), 2, true);
    assert!(!g.update());
    assert_eq!(g.score, 2);
    assert_eq!(body(&g), cells.to_vec());
}

#[test]
fn snake_update_reports_collisions() {
    let mut s = snake_of(&[(2, 2), (2, 3), (1, 3), (1, 2), (1, 1)], Direction::Left);
    assert!(!s.update(false, 5, 5));
    assert_eq!(s.snake_parts.len(), 4);
    let mut s = snake_of(&[(0, 0)], Direction::Up);
    assert!(!s.update(true, 5, 5));
    assert_eq!(s.snake_parts.len(), 1);
    let mut s = snake_of(&[(0, 0)], Direction::Right);
    assert!(s.update(true, 5, 5));
    assert_eq!(s.snake_parts.iter().map(|p| (p.0, p.1)).collect::<Vec<_>>(), vec![(1, 0), (0, 0)]);
}

#[test]
fn is_collide_checks_every_segment() {
    let s = snake_of(&[(2, 2), (2, 3), (1, 3)], Direction::Left);
    assert!(s.is_collide(2, 2));
    assert!(s.is_collide(1, 3));
    assert!(!s.is_collide(3, 2));
    assert!(!s.is_collide(3, 1));
}

#[test]
fn food_update_detects_the_head() {
    let s = snake_of(&[(2, 2), (2, 3)], Direction::Up);
    let mut f = Food { x: 2, y: 2 };
    assert!(f.update(&s));
    let mut f = Food { x: 2, y: 3 };
    assert!(!f.update(&s));
    assert_eq!(f, Food { x: 2, y: 3 });
}

#[test]
fn food_is_relocated_off_the_snake() {
    for _ in 0..50 {
        let mut g = game_of(4, 3, snake_of(&[(1, 1), (1, 2), (2, 2)], Direction::Left), (0, 1), 2, false);
        assert!(g.update());
        assert!(g.just_eaten);
        assert!(g.food.x < 4 && g.food.y < 3);
        assert!(!g.snake.is_collide(g.food.x, g.food.y));
    }
}

#[test]
fn food_goes_to_the_last_free_cell() {
    for _ in 0..20 {
        let mut g = game_of(2, 2, snake_of(&[(0, 0), (0, 1), (1, 1)], Direction::Right), (1, 0), 2, false);
        assert!(g.update());
        assert!(g.just_eaten);
        assert_eq!(g.food, Food { x: 1, y: 1 });
    }
}

#[test]
fn full_grid_leaves_food_in_place_then_ends() {
    let mut g = game_of(2, 1, snake_of(&[(0, 0)], Direction::Right), (1, 0), 0, true);
    assert!(g.update());
    assert_eq!(body(&g), vec![(1, 0), (0, 0)]);
    assert_eq!(g.score, 1);
    assert!(g.just_eaten);
    assert_eq!(g.food, Food { x: 1, y: 0 });
    g.pressed(&Key::Left);
    assert_eq!(g.snake.d, Direction::Right);
    assert!(!g.update());
    assert_eq!(g.score, 1);
}

#[test]
fn free_cell_finds_a_cell_or_none() {
    let s = snake_of(&[(0, 0), (1, 0), (2, 0)], Direction::Right);
    for _ in 0..20 {
        assert_eq!(free_cell(&s, 3, 2).map(|p| p.1), Some(1));
    }
    assert_eq!(free_cell(&s, 3, 1), None);
    let one = snake_of(&[(0, 0)], Direction::Right);
    assert_eq!(free_cell(&one, 2, 1), Some(SnakePiece(1, 0)));
}

#[test]
fn score_counts_consumed_meals() {
    let mut g = game_of(40, 20, snake_of(&[(5, 1)], Direction::Down), (5, 2), 0, false);
    let mut eaten = 0;
    for step in 0..8u32 {
        g.food = Food { x: 5, y: 2 + step };
        assert!(g.update());
        assert!(g.just_eaten);
        assert_eq!(g.score, eaten);
        eaten += 1;
    }
    assert!(g.update());
    assert_eq!(g.score, 8);
    assert_eq!(g.snake.snake_parts.len(), 9);
}

#[test]
fn end_to_end_first_meal() {
    let mut g = Game::new(40, 20, 20);
    g.food = Food { x: 20, y: 11 };
    assert!(g.update());
    assert_eq!(body(&g)[0], (20, 11));
    assert!(g.just_eaten);
    assert!(!g.snake.is_collide(g.food.x, g.food.y));
    assert_eq!(g.score, 0);
    assert!(g.update());
    assert_eq!(g.score, 1);
    assert_eq!(body(&g), vec![(20, 12), (20, 11)]);
}

#[test]
fn squares_are_cells_times_width() {
    let s = snake_of(&[(2, 3), (3, 3)], Direction::Left);
    assert_eq!(s.squares(), vec![(40, 60), (60, 60)]);
    assert_eq!(Food { x: 7, y: 1 }.square(20), (140, 20));
    let big = snake_of(&[(u32::MAX, 1)], Direction::Left);
    let big = Snake { width: u32::MAX, ..big };
    assert_eq!(big.squares(), vec![(u32::MAX as u64 * u32::MAX as u64, u32::MAX as u64)]);
}
