use snake_sim::components::{Entity, EntityId, Kind, Size, Tag};
use snake_sim::direction::{Direction, PressedKeys};
use snake_sim::error::GameError;
use snake_sim::game::food::{
    cell_at, food_spawner, random_cell, snake_eating, snake_growth, spawn_food,
};
use snake_sim::game::input::snake_movement_input;
use snake_sim::game::movement::{occupies, snake_movement};
use snake_sim::game::reset::game_over;
use snake_sim::game::tick::{tick, TickOutcome};
use snake_sim::game::{
    footprint_of, spawn_segment, spawn_snake, Game, GameOverEvent, GrowthEvent, LARGE_EXTENT,
    SEGMENT_EXTENT,
};
use snake_sim::grid::{in_bounds, Position};
use snake_sim::store::Store;

fn cell(x: i32, y: i32) -> Position {
    Position { x, y }
}

fn press(d: Direction) -> PressedKeys {
    PressedKeys {
        left: d == Direction::Left,
        right: d == Direction::Right,
        down: d == Direction::Down,
        up: d == Direction::Up,
    }
}

fn food_cells(game: &Game) -> Vec<Position> {
    game.food().iter().map(|e| e.position).collect()
}

fn assert_startup(game: &Game) {
    assert_eq!(game.heading(), Direction::Up);
    assert_eq!(game.segment_positions(), vec![cell(3, 3), cell(3, 2)]);
    assert!(game.food().is_empty());
    assert_eq!(game.all_entities().len(), 2);
}

/// A snake of five segments that heads up, with its head at (3, 6).
fn long_snake() -> Game {
    let mut game = Game::new();
    for y in 4..7 {
        spawn_food(&mut game, cell(3, y));
        let outcome = tick(&mut game);
        assert_eq!(outcome, TickOutcome { collisions: 0, eaten: 1 });
    }
    assert_eq!(
        game.segment_positions(),
        vec![cell(3, 6), cell(3, 5), cell(3, 4), cell(3, 3), cell(3, 2)]
    );
    game
}

#[test]
fn new_game_is_in_startup_state() {
    let game = Game::new();
    assert_startup(&game);
    assert_eq!(game.last_tail(), None);
    assert!(game.is_settled());
    assert!(game.has_room(3));
}

#[test]
fn startup_entities_have_their_roles_and_sizes() {
    let game = Game::new();
    let all = game.all_entities();
    assert_eq!(
        all,
        vec![
            Entity {
                id: EntityId(0),
                kind: Kind::SnakeHead { direction: Direction::Up },
                position: cell(3, 3),
                size: Size::square(80),
            },
            Entity {
                id: EntityId(1),
                kind: Kind::SnakeSegment,
                position: cell(3, 2),
                size: Size::square(65),
            },
        ]
    );
}

#[test]
fn spawn_segment_creates_a_body_segment() {
    let mut store = Store::new();
    let id = spawn_segment(&mut store, cell(4, 5));
    assert_eq!(
        store.get(id),
        Ok(Entity { id, kind: Kind::SnakeSegment, position: cell(4, 5), size: Size::square(65) })
    );
    assert_eq!(store.query(Tag::SnakeSegment), vec![id]);
}

#[test]
fn spawn_snake_creates_head_and_one_segment() {
    let mut store = Store::new();
    let food = store.spawn(Kind::Food, cell(5, 5), Size::square(80));
    let segments = spawn_snake(&mut store);
    assert_eq!(segments, vec![EntityId(1), EntityId(2)]);
    assert_eq!(
        store.get(segments[0]),
        Ok(Entity {
            id: EntityId(1),
            kind: Kind::SnakeHead { direction: Direction::Up },
            position: cell(3, 3),
            size: Size::square(80),
        })
    );
    assert_eq!(
        store.get(segments[1]),
        Ok(Entity {
            id: EntityId(2),
            kind: Kind::SnakeSegment,
            position: cell(3, 2),
            size: Size::square(65),
        })
    );
    assert_eq!(store.query(Tag::SnakeHead), vec![segments[0]]);
    assert_eq!(store.query(Tag::Food), vec![food]);
    assert_eq!(store.len(), 3);
}

#[test]
fn moving_up_one_tick_from_startup() {
    let mut game = Game::new();
    let outcome = tick(&mut game);
    assert_eq!(outcome, TickOutcome { collisions: 0, eaten: 0 });
    assert_eq!(game.segment_positions(), vec![cell(3, 4), cell(3, 3)]);
    assert_eq!(game.heading(), Direction::Up);
    assert_eq!(game.last_tail(), Some(cell(3, 2)));
}

#[test]
fn movement_stage_shifts_the_body_and_remembers_the_tail() {
    let mut game = long_snake();
    let events = snake_movement(&mut game);
    assert!(events.is_empty());
    assert_eq!(
        game.segment_positions(),
        vec![cell(3, 7), cell(3, 6), cell(3, 5), cell(3, 4), cell(3, 3)]
    );
    assert_eq!(game.last_tail(), Some(cell(3, 2)));
}

#[test]
fn head_moves_one_unit_step_in_each_heading() {
    for (d, expected) in [
        (Direction::Left, cell(2, 3)),
        (Direction::Right, cell(4, 3)),
        (Direction::Up, cell(3, 4)),
    ] {
        let mut game = Game::new();
        snake_movement_input(&mut game, press(d));
        assert_eq!(game.heading(), d);
        tick(&mut game);
        assert_eq!(game.segment_positions(), vec![expected, cell(3, 3)]);
    }
    let mut game = Game::new();
    snake_movement_input(&mut game, press(Direction::Left));
    tick(&mut game);
    snake_movement_input(&mut game, press(Direction::Down));
    tick(&mut game);
    assert_eq!(game.segment_positions(), vec![cell(2, 2), cell(2, 3)]);
}

#[test]
fn input_rejects_reversal_of_the_heading() {
    let mut game = Game::new();
    snake_movement_input(&mut game, press(Direction::Down));
    assert_eq!(game.heading(), Direction::Up);
    snake_movement_input(&mut game, press(Direction::Left));
    assert_eq!(game.heading(), Direction::Left);
    snake_movement_input(&mut game, press(Direction::Right));
    assert_eq!(game.heading(), Direction::Left);
    assert_eq!(game.segment_positions(), vec![cell(3, 3), cell(3, 2)]);
}

#[test]
fn input_without_keys_changes_nothing() {
    let mut game = Game::new();
    let none = PressedKeys { left: false, right: false, down: false, up: false };
    snake_movement_input(&mut game, none);
    assert_startup(&game);
}

#[test]
fn input_with_all_keys_asks_for_up() {
    let mut game = Game::new();
    snake_movement_input(&mut game, press(Direction::Left));
    let all = PressedKeys { left: true, right: true, down: true, up: true };
    snake_movement_input(&mut game, all);
    assert_eq!(game.heading(), Direction::Up);
}

#[test]
fn wall_collision_resets_to_startup() {
    let mut game = Game::new();
    for _ in 0..6 {
        assert_eq!(tick(&mut game).collisions, 0);
    }
    snake_movement_input(&mut game, press(Direction::Right));
    for _ in 0..6 {
        assert_eq!(tick(&mut game).collisions, 0);
    }
    assert_eq!(game.segment_positions(), vec![cell(9, 9), cell(8, 9)]);
    assert_eq!(game.heading(), Direction::Right);
    spawn_food(&mut game, cell(0, 0));
    let outcome = tick(&mut game);
    assert_eq!(outcome, TickOutcome { collisions: 1, eaten: 0 });
    assert_startup(&game);
    assert!(game.is_settled());
}

#[test]
fn wall_collision_is_seen_at_the_movement_stage() {
    let mut game = Game::new();
    for _ in 0..6 {
        tick(&mut game);
    }
    snake_movement_input(&mut game, press(Direction::Right));
    for _ in 0..6 {
        tick(&mut game);
    }
    let events = snake_movement(&mut game);
    assert_eq!(events, vec![GameOverEvent]);
    assert_eq!(game.segment_positions(), vec![cell(10, 9), cell(9, 9)]);
    assert!(!in_bounds(game.segment_positions()[0]));
    assert!(!game.is_settled());
    game_over(&mut game, &events);
    assert_startup(&game);
}

#[test]
fn each_wall_ends_the_game() {
    for (turn, steps) in [(Direction::Up, 6), (Direction::Left, 3), (Direction::Right, 6)] {
        let mut game = Game::new();
        snake_movement_input(&mut game, press(turn));
        for _ in 0..steps {
            assert_eq!(tick(&mut game).collisions, 0);
        }
        assert_eq!(tick(&mut game).collisions, 1);
        assert_startup(&game);
    }
    let mut game = Game::new();
    snake_movement_input(&mut game, press(Direction::Left));
    tick(&mut game);
    snake_movement_input(&mut game, press(Direction::Down));
    for _ in 0..3 {
        assert_eq!(tick(&mut game).collisions, 0);
    }
    assert_eq!(game.segment_positions()[0], cell(2, 0));
    assert_eq!(tick(&mut game).collisions, 1);
    assert_startup(&game);
}

#[test]
fn eating_removes_the_food_and_grows_the_snake() {
    let mut game = Game::new();
    snake_movement_input(&mut game, press(Direction::Right));
    let food = spawn_food(&mut game, cell(4, 3));
    assert_eq!(food.kind, Kind::Food);
    assert_eq!(food_cells(&game), vec![cell(4, 3)]);

    let collisions = snake_movement(&mut game);
    assert!(collisions.is_empty());
    assert_eq!(game.segment_positions(), vec![cell(4, 3), cell(3, 3)]);
    assert_eq!(game.last_tail(), Some(cell(3, 2)));

    let growth = snake_eating(&mut game);
    assert_eq!(growth, vec![GrowthEvent]);
    assert!(game.food().is_empty());
    assert_eq!(game.segment_positions().len(), 2);

    snake_growth(&mut game, &growth);
    assert_eq!(game.segment_positions(), vec![cell(4, 3), cell(3, 3), cell(3, 2)]);
    let all = game.all_entities();
    assert_eq!(all.len(), 3);
    assert_eq!(all[2].kind, Kind::SnakeSegment);
    assert_eq!(all[2].size, Size::square(65));
}

#[test]
fn eating_in_one_tick() {
    let mut game = Game::new();
    snake_movement_input(&mut game, press(Direction::Right));
    spawn_food(&mut game, cell(4, 3));
    spawn_food(&mut game, cell(7, 7));
    let outcome = tick(&mut game);
    assert_eq!(outcome, TickOutcome { collisions: 0, eaten: 1 });
    assert_eq!(game.segment_positions(), vec![cell(4, 3), cell(3, 3), cell(3, 2)]);
    assert_eq!(food_cells(&game), vec![cell(7, 7)]);
}

#[test]
fn food_elsewhere_is_not_eaten() {
    let mut game = Game::new();
    spawn_food(&mut game, cell(3, 5));
    spawn_food(&mut game, cell(3, 3));
    let outcome = tick(&mut game);
    assert_eq!(outcome, TickOutcome { collisions: 0, eaten: 0 });
    assert_eq!(game.segment_positions(), vec![cell(3, 4), cell(3, 3)]);
    assert_eq!(food_cells(&game), vec![cell(3, 5), cell(3, 3)]);
}

#[test]
fn two_items_on_one_cell_give_two_signals_and_one_segment() {
    let mut game = Game::new();
    spawn_food(&mut game, cell(3, 4));
    spawn_food(&mut game, cell(3, 4));
    let outcome = tick(&mut game);
    assert_eq!(outcome, TickOutcome { collisions: 0, eaten: 2 });
    assert_eq!(game.segment_positions(), vec![cell(3, 4), cell(3, 3), cell(3, 2)]);
    assert!(game.food().is_empty());
}

#[test]
fn length_changes_only_by_growth() {
    let mut game = Game::new();
    let before = game.segment_positions().len();
    tick(&mut game);
    assert_eq!(game.segment_positions().len(), before);
    spawn_food(&mut game, cell(3, 5));
    let outcome = tick(&mut game);
    assert_eq!(outcome.eaten, 1);
    assert_eq!(game.segment_positions().len(), before + 1);
    tick(&mut game);
    assert_eq!(game.segment_positions().len(), before + 1);
}

#[test]
fn growth_without_signal_does_nothing() {
    let mut game = Game::new();
    tick(&mut game);
    snake_growth(&mut game, &Vec::new());
    assert_eq!(game.segment_positions(), vec![cell(3, 4), cell(3, 3)]);
    assert_eq!(game.all_entities().len(), 2);
}

#[test]
fn growth_with_many_signals_adds_one_segment() {
    let mut game = Game::new();
    tick(&mut game);
    snake_growth(&mut game, &vec![GrowthEvent, GrowthEvent, GrowthEvent]);
    assert_eq!(game.segment_positions(), vec![cell(3, 4), cell(3, 3), cell(3, 2)]);
}

#[test]
fn self_collision_resets_the_game() {
    let mut game = long_snake();
    snake_movement_input(&mut game, press(Direction::Left));
    assert_eq!(tick(&mut game).collisions, 0);
    snake_movement_input(&mut game, press(Direction::Down));
    assert_eq!(tick(&mut game).collisions, 0);
    assert_eq!(
        game.segment_positions(),
        vec![cell(2, 5), cell(2, 6), cell(3, 6), cell(3, 5), cell(3, 4)]
    );
    snake_movement_input(&mut game, press(Direction::Right));
    let outcome = tick(&mut game);
    assert_eq!(outcome, TickOutcome { collisions: 1, eaten: 0 });
    assert_startup(&game);
}

#[test]
fn the_cell_that_the_tail_is_about_to_leave_counts_as_occupied() {
    let mut game = Game::new();
    for y in 4..6 {
        spawn_food(&mut game, cell(3, y));
        tick(&mut game);
    }
    assert_eq!(game.segment_positions(), vec![cell(3, 5), cell(3, 4), cell(3, 3), cell(3, 2)]);
    snake_movement_input(&mut game, press(Direction::Left));
    tick(&mut game);
    snake_movement_input(&mut game, press(Direction::Down));
    tick(&mut game);
    assert_eq!(game.segment_positions(), vec![cell(2, 4), cell(2, 5), cell(3, 5), cell(3, 4)]);
    snake_movement_input(&mut game, press(Direction::Right));
    let events = snake_movement(&mut game);
    assert_eq!(events.len(), 1);
}

#[test]
fn first_move_after_startup_is_no_collision() {
    let mut game = Game::new();
    let events = snake_movement(&mut game);
    assert!(events.is_empty());
}

#[test]
fn game_over_without_signal_changes_nothing() {
    let mut game = long_snake();
    spawn_food(&mut game, cell(1, 1));
    let before = game.all_entities();
    game_over(&mut game, &Vec::new());
    assert_eq!(game.all_entities(), before);
    assert_eq!(game.segment_positions().len(), 5);
}

#[test]
fn game_over_destroys_food_and_snake() {
    let mut game = long_snake();
    spawn_food(&mut game, cell(1, 1));
    spawn_food(&mut game, cell(8, 8));
    snake_movement_input(&mut game, press(Direction::Left));
    game_over(&mut game, &vec![GameOverEvent]);
    assert_startup(&game);
    let all = game.all_entities();
    assert_eq!(all[0].kind, Kind::SnakeHead { direction: Direction::Up });
    assert_eq!(all[1].kind, Kind::SnakeSegment);
}

#[test]
fn reset_twice_gives_one_startup_snake() {
    let mut game = long_snake();
    spawn_food(&mut game, cell(5, 5));
    game_over(&mut game, &vec![GameOverEvent]);
    assert_startup(&game);
    game_over(&mut game, &vec![GameOverEvent]);
    assert_startup(&game);
    game_over(&mut game, &vec![GameOverEvent, GameOverEvent]);
    assert_startup(&game);
}

#[test]
fn reset_keeps_the_remembered_tail() {
    let mut game = Game::new();
    tick(&mut game);
    assert_eq!(game.last_tail(), Some(cell(3, 2)));
    game_over(&mut game, &vec![GameOverEvent]);
    assert_eq!(game.last_tail(), Some(cell(3, 2)));
}

#[test]
fn handles_stay_fresh_across_a_reset() {
    let mut game = Game::new();
    game_over(&mut game, &vec![GameOverEvent]);
    let all = game.all_entities();
    assert_eq!(all[0].id, EntityId(2));
    assert_eq!(all[1].id, EntityId(3));
}

#[test]
fn spawned_food_lies_inside_the_arena() {
    let mut game = Game::new();
    for _ in 0..500 {
        let food = food_spawner(&mut game);
        assert!(0 <= food.position.x && food.position.x < 10);
        assert!(0 <= food.position.y && food.position.y < 10);
        assert_eq!(food.kind, Kind::Food);
        assert_eq!(food.size, Size::square(80));
    }
    assert_eq!(game.food().len(), 500);
    assert!(game.food().iter().all(|e| in_bounds(e.position)));
    assert!(game.is_settled());
    assert_eq!(game.segment_positions(), vec![cell(3, 3), cell(3, 2)]);
}

#[test]
fn random_cells_cover_more_than_one_cell() {
    let first = random_cell();
    assert!(in_bounds(first));
    let mut other = false;
    for _ in 0..1000 {
        let next = random_cell();
        assert!(in_bounds(next));
        if next != first {
            other = true;
        }
    }
    assert!(other);
}

#[test]
fn food_may_overlap_food_and_snake() {
    let mut game = Game::new();
    let a = spawn_food(&mut game, cell(3, 3));
    let b = spawn_food(&mut game, cell(3, 3));
    assert_ne!(a.id, b.id);
    assert_eq!(food_cells(&game), vec![cell(3, 3), cell(3, 3)]);
}

#[test]
fn occupies_finds_a_cell_among_cells() {
    let cells = vec![cell(1, 1), cell(2, 2)];
    assert!(occupies(&cells, cell(2, 2)));
    assert!(!occupies(&cells, cell(2, 1)));
    assert!(!occupies(&Vec::new(), cell(0, 0)));
}

#[test]
fn settled_game_stays_settled_over_many_ticks() {
    let mut game = Game::new();
    let turns = [Direction::Left, Direction::Up, Direction::Right, Direction::Down];
    for round in 0..200 {
        if round % 3 == 0 {
            food_spawner(&mut game);
        }
        snake_movement_input(&mut game, press(turns[(round / 2) % 4]));
        assert!(game.has_room(3));
        let before = game.segment_positions().len();
        let outcome = tick(&mut game);
        assert!(game.is_settled());
        let after = game.segment_positions().len();
        if outcome.collisions > 0 {
            assert_eq!(game.segment_positions(), vec![cell(3, 3), cell(3, 2)]);
            assert!(game.food().is_empty());
        } else if outcome.eaten > 0 {
            assert_eq!(after, before + 1);
        } else {
            assert_eq!(after, before);
        }
    }
}

fn parts(heading: Direction, cells: &[Position]) -> (Store, Vec<EntityId>) {
    let mut store = Store::new();
    let mut segments = Vec::new();
    for (i, c) in cells.iter().enumerate() {
        if i == 0 {
            segments.push(store.spawn(Kind::SnakeHead { direction: heading }, *c, Size::square(80)));
        } else {
            segments.push(spawn_segment(&mut store, *c));
        }
    }
    (store, segments)
}

#[test]
fn assemble_accepts_a_snake_with_food() {
    let (mut store, segments) = parts(Direction::Left, &[cell(5, 5), cell(6, 5), cell(7, 5)]);
    store.spawn(Kind::Food, cell(1, 1), Size::square(80));
    let game = Game::assemble(store, segments, Some(cell(8, 5))).ok().unwrap();
    assert_eq!(game.heading(), Direction::Left);
    assert_eq!(game.segment_positions(), vec![cell(5, 5), cell(6, 5), cell(7, 5)]);
    assert_eq!(food_cells(&game), vec![cell(1, 1)]);
    assert_eq!(game.last_tail(), Some(cell(8, 5)));
    assert!(game.is_settled());
}

#[test]
fn assembled_head_in_the_corner_hits_the_wall() {
    let (store, segments) = parts(Direction::Right, &[cell(9, 9), cell(8, 9)]);
    let mut game = Game::assemble(store, segments, None).ok().unwrap();
    let events = snake_movement(&mut game);
    assert_eq!(events, vec![GameOverEvent]);
    assert_eq!(game.segment_positions()[0].x, 10);
    assert!(!in_bounds(game.segment_positions()[0]));
    game_over(&mut game, &events);
    assert_startup(&game);
}

#[test]
fn assembled_head_alone_remembers_its_own_place() {
    let (store, segments) = parts(Direction::Up, &[cell(4, 4)]);
    let mut game = Game::assemble(store, segments, None).ok().unwrap();
    let outcome = tick(&mut game);
    assert_eq!(outcome, TickOutcome { collisions: 0, eaten: 0 });
    assert_eq!(game.segment_positions(), vec![cell(4, 5)]);
    assert_eq!(game.last_tail(), Some(cell(4, 4)));
}

#[test]
fn assemble_reports_a_stale_handle() {
    let (mut store, segments) = parts(Direction::Up, &[cell(3, 3), cell(3, 2)]);
    assert_eq!(store.despawn(segments[1]), Ok(()));
    assert!(matches!(Game::assemble(store, segments, None), Err(GameError::NotFound)));
}

#[test]
fn assemble_reports_a_stale_handle_before_other_defects() {
    let (mut store, mut segments) = parts(Direction::Up, &[cell(3, 3), cell(3, 2)]);
    store.spawn(Kind::SnakeSegment, cell(0, 0), Size::square(65));
    segments.push(EntityId(40));
    assert!(matches!(Game::assemble(store, segments, None), Err(GameError::NotFound)));
}

#[test]
fn assemble_rejects_an_empty_registry() {
    let store = Store::new();
    assert!(matches!(
        Game::assemble(store, Vec::new(), None),
        Err(GameError::InvariantViolation)
    ));
}

#[test]
fn assemble_rejects_a_snake_without_head() {
    let mut store = Store::new();
    let a = spawn_segment(&mut store, cell(3, 3));
    let b = spawn_segment(&mut store, cell(3, 2));
    assert!(matches!(
        Game::assemble(store, vec![a, b], None),
        Err(GameError::InvariantViolation)
    ));
}

#[test]
fn assemble_rejects_a_second_head() {
    let (mut store, mut segments) = parts(Direction::Up, &[cell(3, 3), cell(3, 2)]);
    segments.push(store.spawn(Kind::SnakeHead { direction: Direction::Up }, cell(3, 1), Size::square(80)));
    assert!(matches!(
        Game::assemble(store, segments, None),
        Err(GameError::InvariantViolation)
    ));
}

#[test]
fn assemble_rejects_food_in_the_registry() {
    let (mut store, mut segments) = parts(Direction::Up, &[cell(3, 3), cell(3, 2)]);
    segments.push(store.spawn(Kind::Food, cell(3, 1), Size::square(80)));
    assert!(matches!(
        Game::assemble(store, segments, None),
        Err(GameError::InvariantViolation)
    ));
}

#[test]
fn assemble_rejects_a_segment_outside_the_registry() {
    let (mut store, segments) = parts(Direction::Up, &[cell(3, 3), cell(3, 2)]);
    spawn_segment(&mut store, cell(3, 1));
    assert!(matches!(
        Game::assemble(store, segments, None),
        Err(GameError::InvariantViolation)
    ));
}

#[test]
fn assemble_rejects_a_handle_entered_twice() {
    let (store, mut segments) = parts(Direction::Up, &[cell(3, 3), cell(3, 2)]);
    segments.push(segments[1]);
    assert!(matches!(
        Game::assemble(store, segments, None),
        Err(GameError::InvariantViolation)
    ));
}

#[test]
fn assemble_rejects_a_wrong_footprint() {
    let mut store = Store::new();
    let head = store.spawn(Kind::SnakeHead { direction: Direction::Up }, cell(3, 3), Size::square(65));
    assert!(matches!(
        Game::assemble(store, vec![head], None),
        Err(GameError::InvariantViolation)
    ));
    let (mut store, segments) = parts(Direction::Up, &[cell(3, 3)]);
    store.spawn(Kind::Food, cell(1, 1), Size::square(81));
    assert!(matches!(
        Game::assemble(store, segments, None),
        Err(GameError::InvariantViolation)
    ));
}

#[test]
fn footprints_by_kind() {
    assert_eq!(LARGE_EXTENT, 80);
    assert_eq!(SEGMENT_EXTENT, 65);
    assert_eq!(footprint_of(Kind::SnakeHead { direction: Direction::Down }), Size::square(80));
    assert_eq!(footprint_of(Kind::Food), Size::square(80));
    assert_eq!(footprint_of(Kind::SnakeSegment), Size::square(65));
}

#[test]
fn cell_at_takes_column_and_row() {
    assert_eq!(cell_at(4, 7), cell(4, 7));
    assert_eq!(cell_at(0, 0), cell(0, 0));
    assert_eq!(cell_at(9, 9), cell(9, 9));
    assert!(in_bounds(cell_at(9, 0)));
    assert!(!in_bounds(cell_at(10, 0)));
    assert!(!in_bounds(cell_at(0, 10)));
}
