use snake_game::game::Game;
use snake_game::snake::{Block, Direction};

fn stepped(b: Block, d: Direction) -> Block {
    match d {
        Direction::Up => Block { x: b.x, y: b.y - 1 },
        Direction::Down => Block { x: b.x, y: b.y + 1 },
        Direction::Left => Block { x: b.x - 1, y: b.y },
        Direction::Right => Block { x: b.x + 1, y: b.y },
    }
}

#[test]
fn new_game_spawns_away_from_borders_with_food() {
    for seed in 0..20u64 {
        let g = Game::new(10, 10, seed);
        let s = g.render_state();
        assert!(!s.is_game_over);
        assert_eq!(s.snake_cells.len(), 3);
        let head = s.snake_cells[0];
        assert!(4 <= head.x && head.x < 10 - 4);
        assert!(4 <= head.y && head.y < 10 - 4);
        for c in &s.snake_cells {
            assert!(1 <= c.x && c.x <= 8 && 1 <= c.y && c.y <= 8);
        }
        let food = s.food.expect("a new game has food");
        assert!(1 <= food.x && food.x <= 8 && 1 <= food.y && food.y <= 8);
        assert!(!s.snake_cells.contains(&food));
    }
}

#[test]
fn seeded_games_vary_their_heading() {
    let mut seen_distinct = false;
    let first = Game::new(10, 10, 0).snake.head_direction();
    for seed in 1..20u64 {
        if Game::new(10, 10, seed).snake.head_direction() != first {
            seen_distinct = true;
        }
    }
    assert!(seen_distinct);
}

#[test]
fn ticks_move_one_cell_until_the_border_kills() {
    let mut g = Game::new(10, 10, 7);
    let heading = g.snake.head_direction();
    let mut moved_pairs = 0;
    for _ in 0..40 {
        let before = g.render_state();
        if before.is_game_over {
            break;
        }
        let prev_head = before.snake_cells[0];
        // two half-period ticks make exactly one move
        g.update(500);
        g.update(500);
        let after = g.render_state();
        if !after.is_game_over {
            assert_eq!(after.snake_cells[0], stepped(prev_head, heading));
            moved_pairs += 1;
        }
    }
    let end = g.render_state();
    assert!(end.is_game_over);
    // spawned at least two cells from the playable edge, so it moved first
    assert!(moved_pairs >= 1);
}

#[test]
fn opposite_intent_is_ignored() {
    let mut g = Game::new(10, 10, 3);
    let before = g.render_state();
    let heading = g.snake.head_direction();

    g.key_pressed(heading.opposite());

    let after = g.render_state();
    assert_eq!(g.snake.head_direction(), heading);
    assert_eq!(after.snake_cells, before.snake_cells);
    assert_eq!(after.is_game_over, false);
}

#[test]
fn sideways_intent_moves_immediately() {
    let mut g = Game::new(10, 10, 3);
    let before = g.render_state();
    let heading = g.snake.head_direction();
    let side = match heading {
        Direction::Up | Direction::Down => Direction::Left,
        Direction::Left | Direction::Right => Direction::Up,
    };

    g.key_pressed(side);

    let after = g.render_state();
    assert_eq!(g.snake.head_direction(), side);
    assert_eq!(after.snake_cells[0], stepped(before.snake_cells[0], side));
    assert!(!after.is_game_over);
}

#[test]
fn game_over_in_place_until_restart_delay_passes() {
    let mut g = Game::new(10, 10, 7);
    for _ in 0..40 {
        if g.render_state().is_game_over {
            break;
        }
        g.update(500);
        g.update(500);
    }
    let dead = g.render_state();
    assert!(dead.is_game_over);

    // 600 ms into game over: not yet past the 1000 ms restart delay
    g.update(600);
    let still = g.render_state();
    assert!(still.is_game_over);
    assert_eq!(still.snake_cells, dead.snake_cells);

    // 1200 ms in total: the game restarts afresh
    g.update(600);
    let fresh = g.render_state();
    assert!(!fresh.is_game_over);
    assert_eq!(fresh.snake_cells.len(), 3);
    assert!(fresh.food.is_some());
    for c in &fresh.snake_cells {
        assert!(!dead.snake_cells.contains(c));
    }
}

#[test]
fn intents_during_game_over_are_ignored() {
    let mut g = Game::new(10, 10, 7);
    for _ in 0..40 {
        if g.render_state().is_game_over {
            break;
        }
        g.update(500);
        g.update(500);
    }
    let dead = g.render_state();
    assert!(dead.is_game_over);

    g.key_pressed(Direction::Up);
    g.key_pressed(Direction::Left);

    let after = g.render_state();
    assert!(after.is_game_over);
    assert_eq!(after.snake_cells, dead.snake_cells);
}

#[test]
fn food_never_spawns_on_the_snake() {
    for seed in 0..30u64 {
        let mut g = Game::new(12, 12, seed);
        for _ in 0..120 {
            g.update(600);
            let s = g.render_state();
            if let Some(f) = s.food {
                assert!(!s.snake_cells.contains(&f));
                assert!(1 <= f.x && f.x <= 10 && 1 <= f.y && f.y <= 10);
            }
        }
    }
}

#[test]
fn update_accumulates_small_deltas_before_moving() {
    let mut g = Game::new(10, 10, 5);
    let before = g.render_state();
    g.update(200);
    g.update(200);
    let waiting = g.render_state();
    // 400 ms: under the 500 ms move period, nothing moves yet
    assert_eq!(waiting.snake_cells, before.snake_cells);
    g.update(200);
    let moved = g.render_state();
    assert_ne!(moved.snake_cells, before.snake_cells);
}
