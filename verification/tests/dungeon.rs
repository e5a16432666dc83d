use hovercraft::dungeon::{Cell, Mapp, Room, Terrain};
use hovercraft::pair::Pair;

#[test]
fn diggable_only_for_corridor_and_full() {
    assert!(Terrain::Corridor.diggable());
    assert!(Terrain::Full.diggable());
    assert!(!Terrain::Innards.diggable());
    assert!(!Terrain::TallWall.diggable());
    assert!(!Terrain::WideWall.diggable());
    assert!(!Terrain::Debug.diggable());
}

#[test]
fn cell_chars() {
    assert_eq!(Cell::new(Terrain::TallWall).as_char(), '|');
    assert_eq!(Cell::new(Terrain::WideWall).as_char(), '-');
    assert_eq!(Cell::new(Terrain::Full).as_char(), '~');
    assert_eq!(Cell::new(Terrain::Innards).as_char(), '.');
    assert_eq!(Cell::new(Terrain::Corridor).as_char(), '#');
    assert_eq!(Cell::new(Terrain::Debug).as_char(), 'C');
}

#[test]
fn cell_new_sets_terrain() {
    let c = Cell::new(Terrain::Corridor);
    assert_eq!(c.terrain, Terrain::Corridor);
}

#[test]
fn room_new_records_fields() {
    let r = Room::new(7, 9, 4, 6);
    assert_eq!(r.x, 7);
    assert_eq!(r.y, 9);
    assert_eq!(r.width, 4);
    assert_eq!(r.height, 6);
}

#[test]
fn room_render_line() {
    let r = Room::new(1, 2, 3, 4);
    assert_eq!(r.render(), "room y = 2, x = 1, height = 4, width = 3");
}

#[test]
fn pair_new_sets_fields() {
    let p: Pair<u32> = Pair::new(3, 5);
    assert_eq!(p.x, 3);
    assert_eq!(p.y, 5);
}

#[test]
fn default_map_dimensions() {
    let m = Mapp::default();
    assert_eq!(m.height(), 20);
    assert_eq!(m.width(), 80);
    assert_eq!(m.rooms.len(), 0);
}

#[test]
fn new_map_all_full_render() {
    let m = Mapp::new(2, 3);
    assert_eq!(m.render(), "~~~\n~~~\n");
}

#[test]
fn place_room_digs_expected_cells() {
    let mut m = Mapp::default();
    let placed = m.place_room(2, 3, 4, 5);
    assert!(placed);
    assert_eq!(m.rooms.len(), 1);
    let r = m.rooms[0];
    assert_eq!((r.x, r.y, r.width, r.height), (2, 3, 4, 5));
    // top and bottom rows of the room are wide walls
    for j in 2..6 {
        assert_eq!(m.data[3][j].terrain, Terrain::WideWall);
        assert_eq!(m.data[7][j].terrain, Terrain::WideWall);
    }
    // the inner rows are tall walls around open floor
    for i in 4..7 {
        assert_eq!(m.data[i][2].terrain, Terrain::TallWall);
        assert_eq!(m.data[i][3].terrain, Terrain::Innards);
        assert_eq!(m.data[i][4].terrain, Terrain::Innards);
        assert_eq!(m.data[i][5].terrain, Terrain::TallWall);
    }
    // the probe corners beyond the room stay rock
    assert_eq!(m.data[3][6].terrain, Terrain::Full);
    assert_eq!(m.data[8][2].terrain, Terrain::Full);
    assert_eq!(m.data[8][6].terrain, Terrain::Full);
    // an unrelated cell stays rock
    assert_eq!(m.data[0][0].terrain, Terrain::Full);
}

#[test]
fn place_room_rejects_on_overlap() {
    let mut m = Mapp::default();
    assert!(m.place_room(2, 3, 4, 5));
    let before = m.render();
    // the same draw again lands on dug-out probe corners
    assert!(!m.place_room(2, 3, 4, 5));
    // a draw whose probe corner falls on the room floor is rejected too
    assert!(!m.place_room(0, 0, 4, 4));
    assert_eq!(m.rooms.len(), 1);
    assert_eq!(m.render(), before);
}

#[test]
fn place_room_in_clear_area() {
    let mut m = Mapp::default();
    assert!(m.place_room(2, 3, 4, 5));
    assert!(m.place_room(10, 10, 4, 4));
    assert_eq!(m.rooms.len(), 2);
}

#[test]
fn add_rooms_places_at_least_one_room() {
    let mut m = Mapp::default();
    m.add_rooms();
    assert!(m.rooms.len() >= 1);
    for r in m.rooms.iter() {
        assert!(4 <= r.width && r.width <= 10);
        assert!(4 <= r.height && r.height <= 10);
        assert!(r.x + r.width <= 79);
        assert!(r.y + r.height <= 19);
    }
    // each recorded room dug out at least one of the 1600 rock cells
    let mut rock = 0;
    for row in m.data.iter() {
        for cell in row.iter() {
            if cell.as_char() == '~' {
                rock += 1;
            }
        }
    }
    assert!(rock + m.rooms.len() <= 1600);
}

#[test]
fn add_rooms_cells_are_valid_chars() {
    let mut m = Mapp::default();
    m.add_rooms();
    for row in m.data.iter() {
        assert_eq!(row.len(), 80);
        for cell in row.iter() {
            let c = cell.as_char();
            assert!(c == '|' || c == '-' || c == '~' || c == '.' || c == '#' || c == 'C');
        }
    }
}

#[test]
fn has_door_after_single_room() {
    let mut m = Mapp::default();
    assert!(m.place_room(2, 3, 4, 5));
    assert!(m.has_door(0));
}

#[test]
fn get_random_wall_returns_adjacent_diggable() {
    for _ in 0..20 {
        let mut m = Mapp::default();
        assert!(m.place_room(2, 3, 4, 5));
        assert!(m.has_door(0));
        let (p, q) = m.get_random_wall(0);
        let r = m.rooms[0];
        // p is a non-corner wall cell of the room
        let on_top = p.y == r.y && p.x > r.x && p.x < r.x + r.width - 1;
        let on_bottom = p.y == r.y + r.height - 1 && p.x > r.x && p.x < r.x + r.width - 1;
        let on_left = p.x == r.x && p.y > r.y && p.y < r.y + r.height - 1;
        let on_right = p.x == r.x + r.width - 1 && p.y > r.y && p.y < r.y + r.height - 1;
        assert!(on_top || on_bottom || on_left || on_right);
        // q is the cell just outside that wall, and can be dug
        let dy = if q.y > p.y { q.y - p.y } else { p.y - q.y };
        let dx = if q.x > p.x { q.x - p.x } else { p.x - q.x };
        assert_eq!(dy + dx, 1);
        assert!(m.data[q.y as usize][q.x as usize].terrain.diggable());
    }
}

#[test]
fn path_leaves_map_unchanged() {
    let mut m = Mapp::default();
    assert!(m.place_room(2, 3, 4, 5));
    assert!(m.place_room(10, 10, 4, 4));
    let before = m.render();
    m.path(0, 1);
    assert_eq!(m.render(), before);
}

#[test]
fn add_paths_leaves_map_unchanged() {
    let mut m = Mapp::default();
    assert!(m.place_room(2, 3, 4, 5));
    assert!(m.place_room(10, 10, 4, 4));
    let before = m.render();
    m.add_paths();
    assert_eq!(m.render(), before);
}

#[test]
fn add_paths_on_empty_map() {
    let mut m = Mapp::default();
    let before = m.render();
    m.add_paths();
    assert_eq!(m.render(), before);
}

#[test]
fn mapp_render_includes_room_lines() {
    let mut m = Mapp::default();
    assert!(m.place_room(2, 3, 4, 5));
    let text = m.render();
    assert!(text.starts_with("room y = 3, x = 2, height = 5, width = 4\n"));
    // one header line plus the twenty grid rows
    assert_eq!(text.lines().count(), 21);
}
