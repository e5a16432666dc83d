use hovercraft::pair::Pair;
use hovercraft::wumpus::World;

#[test]
fn world_new_is_zeroed() {
    let w = World::new();
    assert_eq!(w.size.x, 4);
    assert_eq!(w.size.y, 4);
    assert_eq!(w.grid.len(), 4);
    for row in w.grid.iter() {
        assert_eq!(row.len(), 4);
        for cell in row.iter() {
            assert_eq!(*cell, 0);
        }
    }
}

#[test]
fn world_update_sets_cell() {
    let mut w = World::new();
    w.update(Pair { x: 1, y: 1 }, 3);
    for i in 0..4 {
        for j in 0..4 {
            if i == 1 && j == 1 {
                assert_eq!(w.grid[i][j], 3);
            } else {
                assert_eq!(w.grid[i][j], 0);
            }
        }
    }
}

#[test]
fn world_render_matches() {
    let mut w = World::new();
    w.update(Pair { x: 1, y: 1 }, 3);
    assert_eq!(w.render(), "0000\n0300\n0000\n0000\n");
}

#[test]
fn world_render_negative() {
    let mut w = World::new();
    w.update(Pair { x: 2, y: 0 }, -5);
    assert_eq!(w.render(), "00-50\n0000\n0000\n0000\n");
}
