use std::collections::VecDeque;

use snake::game::{command, make_world, tick, Command, Key, Signal};
use snake::land::{random_point, Food, Land};
use snake::point::{normalize, Point};
use snake::snake::{Direction, Snake};

fn snake_of(cells: &[(i16, i16)], size: u16) -> Snake {
    let mut body = VecDeque::new();
    for &(x, y) in cells {
        body.push_back(Point(x, y));
    }
    Snake { body, rows: size, cols: size, poped: None }
}

fn cells(s: &Snake) -> Vec<(i16, i16)> {
    s.body.iter().map(|p| (p.0, p.1)).collect()
}

#[test]
fn wrap_by_full_width_is_no_op() {
    for &(x, y) in &[(3i16, 4i16), (0, 0), (4, 4), (-7, 2), (12, -3)] {
        assert_eq!(normalize(Point(x - 5, y), 5, 5), normalize(Point(x, y), 5, 5));
        assert_eq!(normalize(Point(x, y - 5), 5, 5), normalize(Point(x, y), 5, 5));
    }
}

#[test]
fn normalize_wraps_negative_and_large() {
    assert_eq!(normalize(Point(-1, -1), 20, 20), Point(19, 19));
    assert_eq!(normalize(Point(20, 10), 20, 20), Point(0, 10));
    assert_eq!(normalize(Point(7, 3), 20, 20), Point(7, 3));
    assert_eq!(normalize(Point(-21, 45), 20, 20), Point(19, 5));
}

#[test]
fn move_right_five_times_from_start() {
    let mut s = Snake::new(20, 20);
    assert_eq!(cells(&s), vec![(10, 10)]);
    for _ in 0..5 {
        assert!(!s.move_right());
    }
    assert_eq!(cells(&s), vec![(15, 10)]);
    assert_eq!(s.body.len(), 1);
}

#[test]
fn move_left_into_second_segment_collides() {
    let mut s = snake_of(&[(1, 0), (0, 0)], 5);
    assert!(s.move_left());
    assert_eq!(cells(&s), vec![(1, 0), (0, 0)]);
    assert_eq!(s.poped, None);
}

#[test]
fn move_right_off_the_edge_wraps() {
    let mut s = snake_of(&[(19, 10)], 20);
    assert!(!s.move_right());
    assert_eq!(cells(&s), vec![(0, 10)]);
    assert_eq!(s.poped, Some(Point(19, 10)));
}

#[test]
fn moves_in_each_direction() {
    let mut s = snake_of(&[(2, 2)], 5);
    assert!(!s.move_up());
    assert_eq!(cells(&s), vec![(2, 1)]);
    assert!(!s.move_left());
    assert_eq!(cells(&s), vec![(1, 1)]);
    assert!(!s.move_down());
    assert_eq!(cells(&s), vec![(1, 2)]);
    assert!(!s.move_right());
    assert_eq!(cells(&s), vec![(2, 2)]);
    let mut t = snake_of(&[(0, 0)], 5);
    assert!(!t.move_up());
    assert_eq!(cells(&t), vec![(0, 4)]);
    assert!(!t.move_left());
    assert_eq!(cells(&t), vec![(4, 4)]);
}

#[test]
fn move_onto_the_tail_cell_collides() {
    let mut s = snake_of(&[(1, 1), (2, 1), (2, 2), (1, 2)], 5);
    assert!(s.move_down());
    assert_eq!(cells(&s), vec![(1, 1), (2, 1), (2, 2), (1, 2)]);
}

#[test]
fn length_kept_by_moves_and_raised_by_eats() {
    let mut s = Snake::new(20, 20);
    assert!(!s.move_right());
    assert_eq!(s.body.len(), 1);
    s.eat();
    assert_eq!(cells(&s), vec![(11, 10), (10, 10)]);
    assert!(!s.move_down());
    assert_eq!(cells(&s), vec![(11, 11), (11, 10)]);
    s.eat();
    assert_eq!(s.body.len(), 3);
    for _ in 0..4 {
        assert!(!s.move_down());
    }
    assert_eq!(s.body.len(), 3);
}

#[test]
fn growth_twice_grows_once() {
    let mut s = Snake::new(20, 20);
    assert!(!s.move_right());
    s.eat();
    s.eat();
    assert_eq!(cells(&s), vec![(11, 10), (10, 10)]);
    assert_eq!(s.poped, None);
}

#[test]
fn growth_with_nothing_pending_is_no_op() {
    let mut s = Snake::new(20, 20);
    s.eat();
    assert_eq!(cells(&s), vec![(10, 10)]);
}

#[test]
fn reversal_of_a_single_segment_continues() {
    let mut s = snake_of(&[(3, 3)], 10);
    assert!(!s.move_right());
    assert!(!s.move_left());
    assert_eq!(cells(&s), vec![(3, 3)]);
}

#[test]
fn body_never_overlaps_along_a_walk() {
    let mut s = Snake::new(12, 12);
    let dirs = [0u8, 0, 1, 1, 2, 2, 2, 3, 3, 0, 1, 2, 3, 0, 0, 1, 1, 1, 2, 3];
    for (i, d) in dirs.iter().enumerate() {
        let before = cells(&s);
        let collided = match d {
            0 => s.move_right(),
            1 => s.move_down(),
            2 => s.move_left(),
            _ => s.move_up(),
        };
        if collided {
            assert_eq!(cells(&s), before);
        } else if i % 3 == 0 {
            s.eat();
        }
        let now = cells(&s);
        for a in 0..now.len() {
            for b in (a + 1)..now.len() {
                assert_ne!(now[a], now[b]);
            }
        }
    }
}

#[test]
fn food_avoids_body_and_old_cell() {
    let body_cells = [(0i16, 0i16), (1, 0), (2, 0), (0, 1), (1, 1)];
    let mut body = VecDeque::new();
    for &(x, y) in &body_cells {
        body.push_back(Point(x, y));
    }
    let prev = Point(2, 1);
    for _ in 0..200 {
        let p = random_point(3, 3, &prev, &body).unwrap();
        assert!(p.0 >= 0 && p.0 < 3 && p.1 >= 0 && p.1 < 3);
        assert!(!body.contains(&p));
        assert_ne!(p, prev);
    }
}

#[test]
fn food_takes_the_only_free_cell() {
    let mut body = VecDeque::new();
    for y in 0..3i16 {
        for x in 0..3i16 {
            if (x, y) != (1, 2) && (x, y) != (2, 2) {
                body.push_back(Point(x, y));
            }
        }
    }
    assert_eq!(random_point(3, 3, &Point(2, 2), &body), Some(Point(1, 2)));
}

#[test]
fn food_on_a_full_board_is_none() {
    let mut body = VecDeque::new();
    body.push_back(Point(0, 0));
    body.push_back(Point(1, 0));
    body.push_back(Point(1, 1));
    assert_eq!(random_point(2, 2, &Point(0, 1), &body), None);
}

#[test]
fn food_stays_on_a_large_board() {
    let body = VecDeque::from(vec![Point(10, 10)]);
    for _ in 0..100 {
        let p = random_point(40, 25, &Point(5, 5), &body).unwrap();
        assert!(p.0 >= 0 && p.0 < 40 && p.1 >= 0 && p.1 < 25);
        assert_ne!(p, Point(10, 10));
        assert_ne!(p, Point(5, 5));
    }
}

#[test]
fn land_is_square_of_the_smaller_side() {
    let land = Land::new(40, 25);
    assert_eq!((land.cols, land.rows), (25, 25));
    assert_eq!(land.food.pos, Point(5, 5));
    let land = Land::new(7, 30);
    assert_eq!((land.cols, land.rows), (7, 7));
}

#[test]
fn refood_moves_food_off_body() {
    let mut land = Land::new(4, 4);
    let body = VecDeque::from(vec![Point(5, 5), Point(0, 0)]);
    land.food = Food { pos: Point(3, 3) };
    assert!(land.refood(&body));
    assert_ne!(land.food.pos, Point(3, 3));
    assert_ne!(land.food.pos, Point(0, 0));
    assert!(land.food.pos.0 < 4 && land.food.pos.1 < 4);
}

#[test]
fn refood_on_full_board_keeps_food() {
    let mut land = Land::new(1, 1);
    land.food = Food { pos: Point(0, 0) };
    let body = VecDeque::from(vec![Point(0, 0)]);
    assert!(!land.refood(&body));
    assert_eq!(land.food.pos, Point(0, 0));
}

#[test]
fn keys_map_to_commands() {
    assert_eq!(command(Key::Up), Command::Go(Direction::Up));
    assert_eq!(command(Key::Char('w')), Command::Go(Direction::Up));
    assert_eq!(command(Key::Char('s')), Command::Go(Direction::Down));
    assert_eq!(command(Key::Left), Command::Go(Direction::Left));
    assert_eq!(command(Key::Char('d')), Command::Go(Direction::Right));
    assert_eq!(command(Key::Char('q')), Command::Quit);
    assert_eq!(command(Key::Char('x')), Command::Idle);
    assert_eq!(command(Key::Other), Command::Idle);
}

#[test]
fn tick_quit_and_idle_change_nothing() {
    let mut s = Snake::new(20, 20);
    let mut land = Land::new(20, 20);
    assert_eq!(tick(&mut s, &mut land, Key::Char('q')), Signal::Quit);
    assert_eq!(tick(&mut s, &mut land, Key::Other), Signal::Running);
    assert_eq!(cells(&s), vec![(10, 10)]);
    assert_eq!(land.food.pos, Point(5, 5));
}

#[test]
fn tick_eats_food_and_grows() {
    let mut s = Snake::new(20, 20);
    let mut land = Land::new(20, 20);
    land.food = Food { pos: Point(11, 10) };
    assert_eq!(tick(&mut s, &mut land, Key::Right), Signal::Running);
    assert_eq!(cells(&s), vec![(11, 10), (10, 10)]);
    assert_ne!(land.food.pos, Point(11, 10));
    assert!(!s.body.contains(&land.food.pos));
    assert_eq!(tick(&mut s, &mut land, Key::Char('s')), Signal::Running);
    assert_eq!(cells(&s), vec![(11, 11), (11, 10)]);
}

#[test]
fn tick_collision_ends_game() {
    let mut s = snake_of(&[(1, 0), (0, 0)], 5);
    let mut land = Land::new(5, 5);
    land.food = Food { pos: Point(3, 3) };
    assert_eq!(tick(&mut s, &mut land, Key::Char('a')), Signal::Collided);
    assert_eq!(cells(&s), vec![(1, 0), (0, 0)]);
    assert_eq!(land.food.pos, Point(3, 3));
}

#[test]
fn tick_reports_full_board() {
    let mut land = Land::new(2, 2);
    land.food = Food { pos: Point(1, 0) };
    let mut t = snake_of(&[(1, 1), (0, 1), (0, 0)], 2);
    assert_eq!(tick(&mut t, &mut land, Key::Up), Signal::BoardFull);
    assert_eq!(cells(&t), vec![(1, 0), (1, 1), (0, 1), (0, 0)]);
    assert_eq!(land.food.pos, Point(1, 0));
}

#[test]
fn world_codes_each_cell() {
    let s = snake_of(&[(1, 0), (0, 0)], 3);
    let mut land = Land::new(3, 3);
    land.food = Food { pos: Point(2, 2) };
    let mut world = vec![vec![-1i8; 1]; 1];
    make_world(&mut world, &land, &s);
    assert_eq!(world, vec![vec![1, 1, 0], vec![0, 0, 0], vec![0, 0, 2]]);
}

#[test]
fn world_shows_food_over_body() {
    let s = snake_of(&[(0, 1)], 2);
    let mut land = Land::new(2, 2);
    land.food = Food { pos: Point(0, 1) };
    let mut world = Vec::new();
    make_world(&mut world, &land, &s);
    assert_eq!(world, vec![vec![0, 0], vec![2, 0]]);
}
