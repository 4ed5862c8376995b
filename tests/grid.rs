use map_generator::Grid;

#[test]
fn create_map() {
    let map = Grid::new(100, 50);

    assert_eq!(100, map.height);
    assert_eq!(50, map.width);
}

#[test]
fn create_empty_map() {
    let map = Grid::new(0, 0);

    assert_eq!(0, map.height);
    assert_eq!(0, map.width);
}

#[test]
fn get_value_in_bounds() {
    let map = Grid::new(10, 10);

    assert!(!map.get(0, 0));
}

#[test]
fn get_value_out_of_bounds() {
    let map = Grid::new(10, 10);

    assert!(map.get(100, 100));
}

#[test]
fn set_value() {
    let mut map = Grid::new(10, 10);

    map.set(0, 0, true);

    assert!(map.get(0, 0));

    map.set(0, 0, false);

    assert!(!map.get(0, 0));
}

#[test]
fn display() {
    let map = Grid::new(5, 5);

    let map_string = map.render();

    let expected_map_string = String::from(
        "\
#######
#.....#
#.....#
#.....#
#.....#
#.....#
#######",
    );

    assert_eq!(expected_map_string, map_string);
}

#[test]
fn new_grid_is_all_floor() {
    let map = Grid::new(4, 7);
    let mut floors = 0;
    for y in 0..4 {
        for x in 0..7 {
            if !map.get(y, x) {
                floors += 1;
            }
        }
    }
    assert_eq!(28, floors);
    assert_eq!(28, map.cell_count());
}

#[test]
fn out_of_bounds_reads_are_wall_whatever_the_contents() {
    let mut map = Grid::new(3, 4);
    for y in 0..3 {
        for x in 0..4 {
            map.set(y, x, (y + x) % 2 == 0);
        }
    }
    assert!(map.get(3, 0));
    assert!(map.get(0, 4));
    assert!(map.get(3, 4));
    assert!(map.get(usize::MAX, usize::MAX));
}

#[test]
fn set_out_of_bounds_changes_nothing() {
    let mut map = Grid::new(2, 2);
    map.set(0, 1, true);
    map.set(2, 0, true);
    map.set(0, 2, false);
    map.set(5, 5, true);
    assert!(!map.get(0, 0));
    assert!(map.get(0, 1));
    assert!(!map.get(1, 0));
    assert!(!map.get(1, 1));
}

#[test]
fn set_in_bounds_touches_one_cell() {
    let mut map = Grid::new(3, 3);
    map.set(1, 2, true);
    for y in 0..3 {
        for x in 0..3 {
            assert_eq!(y == 1 && x == 2, map.get(y, x));
        }
    }
}

#[test]
fn render_empty_grid() {
    let map = Grid::new(0, 0);
    assert_eq!("##\n##", map.render());
}

#[test]
fn render_walls_and_floors() {
    let mut map = Grid::new(2, 3);
    map.set(0, 1, true);
    map.set(1, 2, true);
    assert_eq!("#####\n#.#.#\n#..##\n#####", map.render());
}
