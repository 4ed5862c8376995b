use map_generator::{CaveParams, Grid};

#[test]
fn cave_correct_neighbour_count() {
    let map = Grid::new(1, 1);
    let num_neighbours = map.count_neighbours(0, 0);
    assert_eq!(8, num_neighbours);

    let mut map = Grid::new(3, 3);
    let num_neighbours = map.count_neighbours(1, 1);
    assert_eq!(0, num_neighbours);

    map.set(0, 0, true);
    let num_neighbours = map.count_neighbours(1, 1);
    assert_eq!(1, num_neighbours);

    map.set(0, 1, true);
    let num_neighbours = map.count_neighbours(1, 1);
    assert_eq!(2, num_neighbours);

    map.set(0, 2, true);
    let num_neighbours = map.count_neighbours(1, 1);
    assert_eq!(3, num_neighbours);

    map.set(1, 2, true);
    let num_neighbours = map.count_neighbours(1, 1);
    assert_eq!(4, num_neighbours);

    map.set(2, 2, true);
    let num_neighbours = map.count_neighbours(1, 1);
    assert_eq!(5, num_neighbours);

    map.set(2, 1, true);
    let num_neighbours = map.count_neighbours(1, 1);
    assert_eq!(6, num_neighbours);

    map.set(2, 0, true);
    let num_neighbours = map.count_neighbours(1, 1);
    assert_eq!(7, num_neighbours);

    map.set(1, 0, true);
    let num_neighbours = map.count_neighbours(1, 1);
    assert_eq!(8, num_neighbours);
}

#[test]
fn lib_correct_neighbour_count() {
    let map = Grid::new(1, 1);
    let num_neighbours = map.count_neighbours(0, 0);
    assert_eq!(8, num_neighbours);

    let mut map = Grid::new(3, 3);
    let num_neighbours = map.count_neighbours(1, 1);
    assert_eq!(0, num_neighbours);

    map.set(0, 0, true);
    let num_neighbours = map.count_neighbours(1, 1);
    assert_eq!(1, num_neighbours);

    map.set(0, 1, true);
    let num_neighbours = map.count_neighbours(1, 1);
    assert_eq!(2, num_neighbours);

    map.set(0, 2, true);
    let num_neighbours = map.count_neighbours(1, 1);
    assert_eq!(3, num_neighbours);

    map.set(1, 2, true);
    let num_neighbours = map.count_neighbours(1, 1);
    assert_eq!(4, num_neighbours);

    map.set(2, 2, true);
    let num_neighbours = map.count_neighbours(1, 1);
    assert_eq!(5, num_neighbours);

    map.set(2, 1, true);
    let num_neighbours = map.count_neighbours(1, 1);
    assert_eq!(6, num_neighbours);

    map.set(2, 0, true);
    let num_neighbours = map.count_neighbours(1, 1);
    assert_eq!(7, num_neighbours);

    map.set(1, 0, true);
    let num_neighbours = map.count_neighbours(1, 1);
    assert_eq!(8, num_neighbours);
}

#[test]
fn cave_correct_new_char() {
    let map = Grid::new(1, 1);
    assert!(map.calculate_new_cell(0, 0));

    let mut map = Grid::new(3, 3);
    assert!(!map.calculate_new_cell(1, 1));

    map.set(0, 0, true);
    assert!(!map.calculate_new_cell(1, 1));

    map.set(0, 1, true);
    map.set(0, 2, true);
    map.set(1, 2, true);
    assert!(!map.calculate_new_cell(1, 1));

    map.set(1, 1, true);
    assert!(map.calculate_new_cell(1, 1));

    map.set(1, 1, false);
    map.set(2, 2, true);
    assert!(map.calculate_new_cell(1, 1));
}

#[test]
fn lib_correct_new_char() {
    let map = Grid::new(1, 1);
    assert!(map.calculate_new_cell(0, 0));

    let mut map = Grid::new(3, 3);
    assert!(!map.calculate_new_cell(1, 1));

    map.set(0, 0, true);
    assert!(!map.calculate_new_cell(1, 1));

    map.set(0, 1, true);
    map.set(0, 2, true);
    map.set(1, 2, true);
    assert!(!map.calculate_new_cell(1, 1));

    map.set(1, 1, true);
    assert!(map.calculate_new_cell(1, 1));

    map.set(1, 1, false);
    map.set(2, 2, true);
    assert!(map.calculate_new_cell(1, 1));
}

#[test]
fn far_count_of_single_cell_is_all_wall() {
    let map = Grid::new(1, 1);
    assert_eq!(24, map.count_far_neighbours(0, 0));
    assert!(!map.empty_space(0, 0));
}

#[test]
fn far_count_in_open_floor_is_zero() {
    let mut map = Grid::new(5, 5);
    assert_eq!(0, map.count_far_neighbours(2, 2));
    assert!(map.empty_space(2, 2));
    // Growth seeds a wall in open floor; cleanup does not.
    assert!(map.calculate_new_cell(2, 2));
    assert!(!map.cleanup_cell(&CaveParams::standard(), 2, 2));

    map.set(0, 0, true);
    map.set(0, 1, true);
    assert_eq!(2, map.count_far_neighbours(2, 2));
    assert_eq!(0, map.count_neighbours(2, 2));
    assert!(!map.empty_space(2, 2));
}

#[test]
fn far_count_counts_each_ring_cell_once() {
    let mut map = Grid::new(5, 5);
    let mut expected = 0;
    for y in 0..5 {
        for x in 0..5 {
            if y == 2 && x == 2 {
                continue;
            }
            map.set(y, x, true);
            expected += 1;
            assert_eq!(expected, map.count_far_neighbours(2, 2));
        }
    }
    assert_eq!(24, expected);
}

#[test]
fn neighbour_counts_stay_in_range() {
    let mut map = Grid::new(4, 6);
    for y in 0..4 {
        for x in 0..6 {
            map.set(y, x, (y * 7 + x * 3) % 5 < 2);
        }
    }
    for y in 0..6 {
        for x in 0..8 {
            let local = map.count_neighbours(y, x);
            let far = map.count_far_neighbours(y, x);
            assert!(local <= 8);
            assert!(far <= 24);
            assert!(far >= local);
        }
    }
}

#[test]
fn three_by_three_floor_growth_keeps_centre_floor() {
    let map = Grid::new(3, 3);
    let grown = map.next_cellular_automata(&CaveParams::standard());
    assert!(!grown.get(1, 1));
    // Corners see 5 outside walls, edge midpoints 3.
    assert!(grown.get(0, 0));
    assert!(!grown.get(0, 1));
}

#[test]
fn keep_wall_rule_needs_a_wall_already() {
    let mut map = Grid::new(3, 3);
    map.set(0, 0, true);
    map.set(0, 1, true);
    map.set(0, 2, true);
    map.set(1, 2, true);
    let params = CaveParams::standard();
    assert!(!map.cleanup_cell(&params, 1, 1));
    map.set(1, 1, true);
    assert!(map.cleanup_cell(&params, 1, 1));
}

#[test]
fn cleanup_twice_equals_once_on_a_stable_result() {
    let params = CaveParams::standard();
    let mut map = Grid::new(6, 6);
    for y in 0..6 {
        for x in 0..6 {
            map.set(y, x, y == 0 || x == 0 || (y + x) % 4 == 0);
        }
    }
    let mut rounds = 0;
    loop {
        let next = map.cleanup_cellular_automata(&params);
        if next.render() == map.render() {
            break;
        }
        map = next;
        rounds += 1;
        assert!(rounds < 50);
    }
    let once = map.cleanup_cellular_automata(&params);
    let twice = once.cleanup_cellular_automata(&params);
    assert_eq!(once.render(), twice.render());
    assert_eq!(map.render(), once.render());
}

#[test]
fn cleanup_of_all_wall_is_all_wall() {
    let params = CaveParams::standard();
    let mut map = Grid::new(4, 5);
    for y in 0..4 {
        for x in 0..5 {
            map.set(y, x, true);
        }
    }
    let once = map.cleanup_cellular_automata(&params);
    let twice = once.cleanup_cellular_automata(&params);
    assert_eq!(map.render(), once.render());
    assert_eq!(once.render(), twice.render());
}

#[test]
fn cleanup_is_not_idempotent_from_open_floor() {
    let params = CaveParams::standard();
    let map = Grid::new(3, 3);
    let once = map.cleanup_cellular_automata(&params);
    let twice = once.cleanup_cellular_automata(&params);
    assert_eq!("#####\n##.##\n#...#\n##.##\n#####", once.render());
    assert_eq!("#####\n#####\n##.##\n#####\n#####", twice.render());
}
