//! An ASCII dungeon map: a grid of terrain cells, a list of rectangular
//! rooms placed by rejection sampling, and the beginnings of a corridor
//! digger that picks doorway positions on room walls.

use vstd::prelude::*;
use crate::pair::Pair;

verus! {

/// What a map cell is made of.
#[derive(Copy, Clone, Debug, PartialEq, Eq, Structural)]
pub enum Terrain {
    Innards,
    Corridor,
    TallWall,
    WideWall,
    Full,
    Debug,
}

/// Terrain that a corridor digger may cut through.
pub open spec fn is_diggable(t: Terrain) -> bool {
    t == Terrain::Corridor || t == Terrain::Full
}

impl Terrain {
    pub fn diggable(self) -> (r: bool)
        ensures
            r == is_diggable(self),
    {
        if self == Terrain::Corridor || self == Terrain::Full {
            true
        } else {
            false
        }
    }
}

/// The character that stands for each kind of terrain in the rendered map.
pub open spec fn terrain_char(t: Terrain) -> char {
    match t {
        Terrain::TallWall => '|',
        Terrain::WideWall => '-',
        Terrain::Full => '~',
        Terrain::Innards => '.',
        Terrain::Corridor => '#',
        Terrain::Debug => 'C',
    }
}

/// A map unit, roughly a square meter.
#[derive(Copy, Clone, Debug)]
pub struct Cell {
    pub terrain: Terrain,
}

impl Cell {
    pub fn new(terrain: Terrain) -> (c: Cell)
        ensures
            c.terrain == terrain,
    {
        Cell { terrain }
    }

    pub fn as_char(&self) -> (c: char)
        ensures
            c == terrain_char(self.terrain),
    {
        match self.terrain {
            Terrain::TallWall => '|',
            Terrain::WideWall => '-',
            Terrain::Full => '~',
            Terrain::Innards => '.',
            Terrain::Corridor => '#',
            Terrain::Debug => 'C',
        }
    }
}

/// An axis-aligned rectangle of cells, recorded as origin and extent.
#[derive(Copy, Clone, Debug)]
pub struct Room {
    pub x: u32,
    pub y: u32,
    pub width: u32,
    pub height: u32,
}

impl Room {
    pub fn new(x: u32, y: u32, width: u32, height: u32) -> (r: Room)
        ensures
            r.x == x,
            r.y == y,
            r.width == width,
            r.height == height,
    {
        Room { x, y, width, height }
    }
}

/// A 2d map displayable as characters.
#[derive(Clone, Debug)]
pub struct Mapp {
    pub data: Vec<Vec<Cell>>,
    pub rooms: Vec<Room>,
}

impl Mapp {
    /// Number of rows.
    pub open spec fn spec_height(self) -> int {
        self.data@.len() as int
    }

    /// Number of columns, read off the first row.
    pub open spec fn spec_width(self) -> int {
        if self.data@.len() > 0 {
            self.data@[0]@.len() as int
        } else {
            0
        }
    }

    pub open spec fn in_bounds(self, i: int, j: int) -> bool {
        0 <= i < self.spec_height() && 0 <= j < self.spec_width()
    }

    /// The terrain of the cell in row `i`, column `j`.
    pub open spec fn terrain_at(self, i: int, j: int) -> Terrain {
        self.data@[i]@[j].terrain
    }

    /// The grid is rectangular and its extents fit in `u32`.
    pub open spec fn grid_wf(self) -> bool {
        &&& self.data@.len() <= u32::MAX
        &&& self.spec_width() <= u32::MAX
        &&& forall|i: int|
            0 <= i < self.data@.len() ==> (#[trigger] self.data@[i])@.len() == self.spec_width()
    }

    /// A recorded room lies inside the grid and is wide enough to have
    /// walls distinct from its corners.
    pub open spec fn room_wf(r: Room, height: int, width: int) -> bool {
        &&& r.width >= 3
        &&& r.height >= 3
        &&& r.x + r.width <= width
        &&& r.y + r.height <= height
    }

    pub open spec fn rooms_wf(self) -> bool {
        forall|k: int|
            0 <= k < self.rooms@.len() ==> Self::room_wf(
                #[trigger] self.rooms@[k],
                self.spec_height(),
                self.spec_width(),
            )
    }

    pub open spec fn wf(self) -> bool {
        self.grid_wf() && self.rooms_wf()
    }

    /// Every cell of the grid is still unexcavated rock.
    pub open spec fn all_full(self) -> bool {
        forall|i: int, j: int| self.in_bounds(i, j) ==> self.terrain_at(i, j) == Terrain::Full
    }

    pub fn new(height: u32, width: u32) -> (m: Mapp)
        ensures
            m.wf(),
            m.spec_height() == height,
            height > 0 ==> m.spec_width() == width,
            m.rooms@.len() == 0,
            m.all_full(),
    {
        let mut rows: Vec<Vec<Cell>> = Vec::new();
        let mut i: u32 = 0;
        while i < height
            invariant
                i <= height,
                rows@.len() == i,
                forall|a: int| 0 <= a < i ==> (#[trigger] rows@[a])@.len() == width,
                forall|a: int, b: int|
                    0 <= a < i && 0 <= b < width ==> (#[trigger] rows@[a]@[b]).terrain
                        == Terrain::Full,
            decreases height - i,
        {
            let mut row: Vec<Cell> = Vec::new();
            let mut j: u32 = 0;
            while j < width
                invariant
                    j <= width,
                    row@.len() == j,
                    forall|b: int| 0 <= b < j ==> (#[trigger] row@[b]).terrain == Terrain::Full,
                decreases width - j,
            {
                row.push(Cell::new(Terrain::Full));
                j = j + 1;
            }
            rows.push(row);
            i = i + 1;
        }
        Mapp { data: rows, rooms: Vec::new() }
    }

    pub fn default() -> (m: Mapp)
        ensures
            m.wf(),
            m.spec_height() == 20,
            m.spec_width() == 80,
            m.rooms@.len() == 0,
            m.all_full(),
    {
        Mapp::new(20, 80)
    }

    pub fn height(&self) -> (h: u32)
        requires
            self.grid_wf(),
        ensures
            h == self.spec_height(),
    {
        self.data.len() as u32
    }

    pub fn width(&self) -> (w: u32)
        requires
            self.grid_wf(),
            self.spec_height() > 0,
        ensures
            w == self.spec_width(),
    {
        self.data[0].len() as u32
    }

    /// Overwrite one cell, leaving the rest of the map as it was.
    fn set_cell(&mut self, i: usize, j: usize, t: Terrain)
        requires
            old(self).grid_wf(),
            0 <= i < old(self).spec_height(),
            0 <= j < old(self).spec_width(),
        ensures
            final(self).grid_wf(),
            final(self).rooms@ == old(self).rooms@,
            final(self).spec_height() == old(self).spec_height(),
            final(self).spec_width() == old(self).spec_width(),
            forall|a: int, b: int|
                old(self).in_bounds(a, b) ==> final(self).terrain_at(a, b) == (if a == i && b == j {
                    t
                } else {
                    old(self).terrain_at(a, b)
                }),
    {
        self.data[i][j] = Cell::new(t);
    }
}

/// The cells a room with origin `(sx, sy)` and extent `(w, h)` covers.
pub open spec fn in_room_rect(i: int, j: int, sx: int, sy: int, w: int, h: int) -> bool {
    sy <= i < sy + h && sx <= j < sx + w
}

/// The terrain a freshly dug room leaves in row `i`, column `j` of its
/// rectangle: wide walls along the top and bottom rows, tall walls down the
/// sides, open floor inside.
pub open spec fn room_terrain(i: int, j: int, sx: int, sy: int, w: int, h: int) -> Terrain {
    if i == sy || i == sy + h - 1 {
        Terrain::WideWall
    } else if j == sx || j == sx + w - 1 {
        Terrain::TallWall
    } else {
        Terrain::Innards
    }
}

/// The whole grid after digging such a room: the rectangle takes the room's
/// pattern, everything else keeps the terrain it had in `m`.
pub open spec fn painted_terrain(m: Mapp, i: int, j: int, sx: int, sy: int, w: int, h: int) -> Terrain {
    if in_room_rect(i, j, sx, sy, w, h) {
        room_terrain(i, j, sx, sy, w, h)
    } else {
        m.terrain_at(i, j)
    }
}

impl Mapp {
    /// The four probe cells a room placement checks before digging.
    pub open spec fn corners_full(self, sx: int, sy: int, ex: int, ey: int) -> bool {
        &&& self.terrain_at(sy, sx) == Terrain::Full
        &&& self.terrain_at(ey, ex) == Terrain::Full
        &&& self.terrain_at(sy, ex) == Terrain::Full
        &&& self.terrain_at(ey, sx) == Terrain::Full
    }
}

impl Mapp {
    /// Try to dig a room whose walls span `size_x` by `size_y` cells with its
    /// upper-left corner at `(start_x, start_y)`. The room is dug, and
    /// recorded, exactly when the four probe cells around its extent are
    /// still unexcavated rock; otherwise the map is left as it was.
    pub fn place_room(&mut self, start_x: usize, start_y: usize, size_x: usize, size_y: usize) -> (placed: bool)
        requires
            old(self).wf(),
            4 <= size_x,
            4 <= size_y,
            start_x + size_x < old(self).spec_width(),
            start_y + size_y < old(self).spec_height(),
        ensures
            final(self).wf(),
            final(self).spec_height() == old(self).spec_height(),
            final(self).spec_width() == old(self).spec_width(),
            placed == old(self).corners_full(
                start_x as int,
                start_y as int,
                start_x + size_x,
                start_y + size_y,
            ),
            !placed ==> *final(self) == *old(self),
            placed ==> final(self).rooms@ == old(self).rooms@.push(
                (Room {
                    x: start_x as u32,
                    y: start_y as u32,
                    width: size_x as u32,
                    height: size_y as u32,
                }),
            ),
            placed ==> forall|i: int, j: int|
                old(self).in_bounds(i, j) ==> final(self).terrain_at(i, j) == painted_terrain(
                    *old(self),
                    i,
                    j,
                    start_x as int,
                    start_y as int,
                    size_x as int,
                    size_y as int,
                ),
            placed ==> grid_full_count(*final(self)) < grid_full_count(*old(self)),
    {
        let end_x = start_x + size_x;
        let end_y = start_y + size_y;
        // the room can be placed only if the four probe corners are empty
        if self.data[start_y][start_x].terrain != Terrain::Full
            || self.data[end_y][end_x].terrain != Terrain::Full
            || self.data[start_y][end_x].terrain != Terrain::Full
            || self.data[end_y][start_x].terrain != Terrain::Full
        {
            return false;
        }
        let ghost pre = *old(self);
        let ghost sx = start_x as int;
        let ghost sy = start_y as int;
        let ghost w = size_x as int;
        let ghost h = size_y as int;

        // record the room
        self.rooms.push(Room::new(start_x as u32, start_y as u32, size_x as u32, size_y as u32));

        // make the top row wide walls, and the bottom row too
        let mut i = start_x;
        while i < end_x
            invariant
                start_x <= i <= end_x,
                end_x == start_x + size_x,
                end_y == start_y + size_y,
                sx == start_x as int,
                sy == start_y as int,
                w == size_x as int,
                h == size_y as int,
                4 <= size_x,
                4 <= size_y,
                end_x < pre.spec_width(),
                end_y < pre.spec_height(),
                pre.grid_wf(),
                self.grid_wf(),
                self.spec_height() == pre.spec_height(),
                self.spec_width() == pre.spec_width(),
                self.rooms@ == pre.rooms@.push(
                    (Room {
                        x: start_x as u32,
                        y: start_y as u32,
                        width: size_x as u32,
                        height: size_y as u32,
                    }),
                ),
                forall|a: int, b: int|
                    pre.in_bounds(a, b) ==> self.terrain_at(a, b) == (
                    if (a == start_y || a == end_y - 1) && start_x <= b < i {
                        Terrain::WideWall
                    } else {
                        pre.terrain_at(a, b)
                    }),
            decreases end_x - i,
        {
            self.set_cell(start_y, i, Terrain::WideWall);
            self.set_cell(end_y - 1, i, Terrain::WideWall);
            i = i + 1;
        }

        // start and end each inner row with tall walls, open floor between
        let mut r = start_y + 1;
        while r < end_y - 1
            invariant
                start_y + 1 <= r <= end_y - 1,
                end_x == start_x + size_x,
                end_y == start_y + size_y,
                sx == start_x as int,
                sy == start_y as int,
                w == size_x as int,
                h == size_y as int,
                4 <= size_x,
                4 <= size_y,
                end_x < pre.spec_width(),
                end_y < pre.spec_height(),
                pre.grid_wf(),
                self.grid_wf(),
                self.spec_height() == pre.spec_height(),
                self.spec_width() == pre.spec_width(),
                self.rooms@ == pre.rooms@.push(
                    (Room {
                        x: start_x as u32,
                        y: start_y as u32,
                        width: size_x as u32,
                        height: size_y as u32,
                    }),
                ),
                forall|a: int, b: int|
                    pre.in_bounds(a, b) ==> self.terrain_at(a, b) == (
                    if (a == start_y || a == end_y - 1) && start_x <= b < end_x {
                        Terrain::WideWall
                    } else if start_y + 1 <= a < r && start_x <= b < end_x {
                        room_terrain(a, b, sx, sy, w, h)
                    } else {
                        pre.terrain_at(a, b)
                    }),
            decreases end_y - 1 - r,
        {
            self.set_cell(r, start_x, Terrain::TallWall);
            let mut j = start_x + 1;
            while j < end_x - 1
                invariant
                    start_x + 1 <= j <= end_x - 1,
                    start_y + 1 <= r < end_y - 1,
                    end_x == start_x + size_x,
                    end_y == start_y + size_y,
                    sx == start_x as int,
                    sy == start_y as int,
                    w == size_x as int,
                    h == size_y as int,
                    4 <= size_x,
                    4 <= size_y,
                    end_x < pre.spec_width(),
                    end_y < pre.spec_height(),
                    pre.grid_wf(),
                    self.grid_wf(),
                    self.spec_height() == pre.spec_height(),
                    self.spec_width() == pre.spec_width(),
                    self.rooms@ == pre.rooms@.push(
                        (Room {
                            x: start_x as u32,
                            y: start_y as u32,
                            width: size_x as u32,
                            height: size_y as u32,
                        }),
                    ),
                    forall|a: int, b: int|
                        pre.in_bounds(a, b) ==> self.terrain_at(a, b) == (
                        if (a == start_y || a == end_y - 1) && start_x <= b < end_x {
                            Terrain::WideWall
                        } else if start_y + 1 <= a < r && start_x <= b < end_x {
                            room_terrain(a, b, sx, sy, w, h)
                        } else if a == r && b == start_x {
                            Terrain::TallWall
                        } else if a == r && start_x + 1 <= b < j {
                            Terrain::Innards
                        } else {
                            pre.terrain_at(a, b)
                        }),
                decreases end_x - 1 - j,
            {
                self.set_cell(r, j, Terrain::Innards);
                j = j + 1;
            }
            self.set_cell(r, end_x - 1, Terrain::TallWall);
            proof {
                assert forall|a: int, b: int| pre.in_bounds(a, b) implies self.terrain_at(a, b)
                    == (if (a == start_y || a == end_y - 1) && start_x <= b < end_x {
                    Terrain::WideWall
                } else if start_y + 1 <= a < r + 1 && start_x <= b < end_x {
                    room_terrain(a, b, sx, sy, w, h)
                } else {
                    pre.terrain_at(a, b)
                }) by {
                    if a == r && start_x <= b < end_x {
                        assert(a != sy && a != sy + h - 1);
                        assert(room_terrain(a, b, sx, sy, w, h) == (if b == sx || b == sx + w - 1 {
                            Terrain::TallWall
                        } else {
                            Terrain::Innards
                        }));
                    }
                }
            }
            r = r + 1;
        }

        proof {
            // every repainted cell matches the room pattern
            assert forall|a: int, b: int| pre.in_bounds(a, b) implies self.terrain_at(a, b)
                == painted_terrain(pre, a, b, sx, sy, w, h) by {}
            // the recorded room fits the grid
            assert forall|k: int| 0 <= k < self.rooms@.len() implies Mapp::room_wf(
                #[trigger] self.rooms@[k],
                self.spec_height(),
                self.spec_width(),
            ) by {
                if k < pre.rooms@.len() {
                    assert(self.rooms@[k] == pre.rooms@[k]);
                }
            }
            // digging the upper-left probe corner shrinks the rock count
            assert(pre.in_bounds(sy, sx));
            assert(self.terrain_at(sy, sx) == painted_terrain(pre, sy, sx, sx, sy, w, h));
            assert(self.terrain_at(sy, sx) == Terrain::WideWall);
            assert forall|a: int, b: int|
                0 <= a < pre.data@.len() && 0 <= b < pre.data@[a]@.len() && (#[trigger] self
                    .data@[a]@[b]).terrain == Terrain::Full
                implies pre.data@[a]@[b].terrain == Terrain::Full by {
                assert(pre.in_bounds(a, b));
                assert(self.terrain_at(a, b) == painted_terrain(pre, a, b, sx, sy, w, h));
            }
            lemma_rows_full_count_lt(pre.data@, self.data@, sy, sx);
        }
        true
    }
}

/// The candidate sits on the room's top wall, corners left out.
pub open spec fn on_top_wall(r: Room, p: Pair<u32>) -> bool {
    p.y == r.y && r.x + 1 <= p.x && p.x <= r.x + r.width - 2
}

/// The candidate sits on the room's bottom wall, corners left out.
pub open spec fn on_bottom_wall(r: Room, p: Pair<u32>) -> bool {
    p.y == r.y + r.height - 1 && r.x + 1 <= p.x && p.x <= r.x + r.width - 2
}

/// The candidate sits on the room's left wall, corners left out.
pub open spec fn on_left_wall(r: Room, p: Pair<u32>) -> bool {
    p.x == r.x && r.y + 1 <= p.y && p.y <= r.y + r.height - 2
}

/// The candidate sits on the room's right wall, corners left out.
pub open spec fn on_right_wall(r: Room, p: Pair<u32>) -> bool {
    p.x == r.x + r.width - 1 && r.y + 1 <= p.y && p.y <= r.y + r.height - 2
}

/// The candidate is a non-corner cell of one of the room's four walls.
pub open spec fn wall_candidate(r: Room, p: Pair<u32>) -> bool {
    on_top_wall(r, p) || on_bottom_wall(r, p) || on_left_wall(r, p) || on_right_wall(r, p)
}

/// Row of the cell just outside the wall the candidate sits on.
pub open spec fn exit_y(r: Room, p: Pair<u32>) -> int {
    if on_top_wall(r, p) {
        p.y - 1
    } else if on_bottom_wall(r, p) {
        p.y + 1
    } else {
        p.y as int
    }
}

/// Column of the cell just outside the wall the candidate sits on.
pub open spec fn exit_x(r: Room, p: Pair<u32>) -> int {
    if on_top_wall(r, p) || on_bottom_wall(r, p) {
        p.x as int
    } else if on_left_wall(r, p) {
        p.x - 1
    } else {
        p.x + 1
    }
}

impl Mapp {
    /// A doorway for room `r`: `p` is a non-corner wall cell, and `q` is the
    /// cell just outside that wall, inside the grid and diggable.
    pub open spec fn valid_door(self, r: Room, p: Pair<u32>, q: Pair<u32>) -> bool {
        &&& wall_candidate(r, p)
        &&& self.in_bounds(exit_y(r, p), exit_x(r, p))
        &&& q.y == exit_y(r, p)
        &&& q.x == exit_x(r, p)
        &&& is_diggable(self.terrain_at(exit_y(r, p), exit_x(r, p)))
    }

    /// Some wall cell of the room can serve as a doorway.
    pub open spec fn spec_has_door(self, r: Room) -> bool {
        exists|p: Pair<u32>, q: Pair<u32>| self.valid_door(r, p, q)
    }

    /// Collect every doorway the room currently offers.
    fn door_candidates(&self, src: &Room) -> (doors: Vec<(Pair<u32>, Pair<u32>)>)
        requires
            self.grid_wf(),
            Mapp::room_wf(*src, self.spec_height(), self.spec_width()),
        ensures
            forall|k: int|
                0 <= k < doors@.len() ==> self.valid_door(
                    *src,
                    (#[trigger] doors@[k]).0,
                    doors@[k].1,
                ),
            self.spec_has_door(*src) ==> doors@.len() > 0,
    {
        let mut candidates: Vec<Pair<u32>> = Vec::new();
        // cells of the top and bottom walls, corners left out
        let mut i: u32 = 1;
        while i < src.width - 1
            invariant
                1 <= i <= src.width - 1,
                self.grid_wf(),
                Mapp::room_wf(*src, self.spec_height(), self.spec_width()),
                forall|k: int|
                    0 <= k < candidates@.len() ==> wall_candidate(*src, #[trigger] candidates@[k]),
                forall|p: Pair<u32>|
                    (on_top_wall(*src, p) || on_bottom_wall(*src, p)) && p.x < src.x + i
                        ==> #[trigger] candidates@.contains(p),
            decreases src.width - 1 - i,
        {
            let cx = src.x + i;
            let ghost pre_cs = candidates@;
            candidates.push(Pair { y: src.y, x: cx });
            candidates.push(Pair { y: src.y + src.height - 1, x: cx });
            proof {
                assert forall|p: Pair<u32>|
                    (on_top_wall(*src, p) || on_bottom_wall(*src, p)) && p.x < src.x + (i + 1)
                    implies #[trigger] candidates@.contains(p) by {
                    if p.x < src.x + i {
                        assert(pre_cs.contains(p));
                        let idx = choose|idx: int| 0 <= idx < pre_cs.len() && pre_cs[idx] == p;
                        assert(candidates@[idx] == p);
                    } else if on_top_wall(*src, p) {
                        assert(candidates@[pre_cs.len() as int] == p);
                    } else {
                        assert(candidates@[pre_cs.len() as int + 1] == p);
                    }
                }
            }
            i = i + 1;
        }
        // cells of the left and right walls, corners left out
        let mut j: u32 = 1;
        while j < src.height - 1
            invariant
                1 <= j <= src.height - 1,
                self.grid_wf(),
                Mapp::room_wf(*src, self.spec_height(), self.spec_width()),
                forall|k: int|
                    0 <= k < candidates@.len() ==> wall_candidate(*src, #[trigger] candidates@[k]),
                forall|p: Pair<u32>|
                    (on_top_wall(*src, p) || on_bottom_wall(*src, p)) ==> #[trigger] candidates@
                        .contains(p),
                forall|p: Pair<u32>|
                    (on_left_wall(*src, p) || on_right_wall(*src, p)) && p.y < src.y + j
                        ==> #[trigger] candidates@.contains(p),
            decreases src.height - 1 - j,
        {
            let cy = src.y + j;
            let ghost pre_cs = candidates@;
            candidates.push(Pair { y: cy, x: src.x });
            candidates.push(Pair { y: cy, x: src.x + src.width - 1 });
            proof {
                assert forall|p: Pair<u32>|
                    ((on_top_wall(*src, p) || on_bottom_wall(*src, p)) || ((on_left_wall(*src, p)
                        || on_right_wall(*src, p)) && p.y < src.y + (j + 1)))
                    implies #[trigger] candidates@.contains(p) by {
                    if (on_top_wall(*src, p) || on_bottom_wall(*src, p)) || p.y < src.y + j {
                        assert(pre_cs.contains(p));
                        let idx = choose|idx: int| 0 <= idx < pre_cs.len() && pre_cs[idx] == p;
                        assert(candidates@[idx] == p);
                    } else if on_left_wall(*src, p) {
                        assert(candidates@[pre_cs.len() as int] == p);
                    } else {
                        assert(candidates@[pre_cs.len() as int + 1] == p);
                    }
                }
            }
            j = j + 1;
        }
        // keep the candidates whose outside cell is inside the grid and
        // diggable
        let mut doors: Vec<(Pair<u32>, Pair<u32>)> = Vec::new();
        let mut k: usize = 0;
        while k < candidates.len()
            invariant
                k <= candidates@.len(),
                self.grid_wf(),
                Mapp::room_wf(*src, self.spec_height(), self.spec_width()),
                forall|m: int|
                    0 <= m < candidates@.len() ==> wall_candidate(*src, #[trigger] candidates@[m]),
                forall|p: Pair<u32>| wall_candidate(*src, p) ==> #[trigger] candidates@.contains(p),
                forall|n: int|
                    0 <= n < doors@.len() ==> self.valid_door(
                        *src,
                        (#[trigger] doors@[n]).0,
                        doors@[n].1,
                    ),
                forall|m: int, q: Pair<u32>|
                    0 <= m < k && #[trigger] self.valid_door(*src, candidates@[m], q)
                        ==> doors@.len() > 0,
            decreases candidates@.len() - k,
        {
            let c = candidates[k];
            // which face of the wall the candidate sits on decides which
            // neighbouring cell the doorway would open into
            if c.y == src.y {
                if c.y > 0 {
                    let q = Pair { y: c.y - 1, x: c.x };
                    if self.data[q.y as usize][q.x as usize].terrain.diggable() {
                        doors.push((c, q));
                    }
                }
            } else if c.y == src.y + src.height - 1 {
                if src.y + src.height < self.height() {
                    let q = Pair { y: c.y + 1, x: c.x };
                    if self.data[q.y as usize][q.x as usize].terrain.diggable() {
                        doors.push((c, q));
                    }
                }
            } else if c.x == src.x {
                if c.x > 0 {
                    let q = Pair { y: c.y, x: c.x - 1 };
                    if self.data[q.y as usize][q.x as usize].terrain.diggable() {
                        doors.push((c, q));
                    }
                }
            } else {
                proof {
                    assert(on_right_wall(*src, c));
                }
                if src.x + src.width < self.width() {
                    let q = Pair { y: c.y, x: c.x + 1 };
                    if self.data[q.y as usize][q.x as usize].terrain.diggable() {
                        doors.push((c, q));
                    }
                }
            }
            k = k + 1;
        }
        proof {
            if self.spec_has_door(*src) {
                let (p, q) = choose|p: Pair<u32>, q: Pair<u32>| self.valid_door(*src, p, q);
                assert(candidates@.contains(p));
                let idx = choose|idx: int| 0 <= idx < candidates@.len() && candidates@[idx] == p;
                assert(self.valid_door(*src, candidates@[idx], q));
            }
        }
        doors
    }

    /// Whether some wall cell of the recorded room can serve as a doorway.
    pub fn has_door(&self, src_index: u32) -> (r: bool)
        requires
            self.wf(),
            src_index < self.rooms@.len(),
        ensures
            r == self.spec_has_door(self.rooms@[src_index as int]),
    {
        proof {
            assert(Mapp::room_wf(
                self.rooms@[src_index as int],
                self.spec_height(),
                self.spec_width(),
            ));
        }
        let src = self.rooms[src_index as usize];
        let doors = self.door_candidates(&src);
        if doors.len() > 0 {
            proof {
                assert(self.valid_door(src, doors@[0].0, doors@[0].1));
            }
            true
        } else {
            false
        }
    }

    /// Pick a doorway for the recorded room at random: a wall cell together
    /// with the cell just outside it that a corridor could be dug into.
    pub fn get_random_wall(&mut self, src_index: u32) -> (door: (Pair<u32>, Pair<u32>))
        requires
            old(self).wf(),
            src_index < old(self).rooms@.len(),
            old(self).spec_has_door(old(self).rooms@[src_index as int]),
        ensures
            *final(self) == *old(self),
            final(self).valid_door(final(self).rooms@[src_index as int], door.0, door.1),
    {
        proof {
            assert(Mapp::room_wf(
                self.rooms@[src_index as int],
                self.spec_height(),
                self.spec_width(),
            ));
        }
        let src = self.rooms[src_index as usize];
        let doors = self.door_candidates(&src);
        let pick = crate::rng::rand_below(doors.len());
        doors[pick]
    }

    /// Open a doorway on each of the two rooms. Digging the corridor between
    /// them is not implemented yet, so the map itself is left unchanged.
    pub fn path(&mut self, src: u32, dst: u32)
        requires
            old(self).wf(),
            src < old(self).rooms@.len(),
            dst < old(self).rooms@.len(),
            old(self).spec_has_door(old(self).rooms@[src as int]),
            old(self).spec_has_door(old(self).rooms@[dst as int]),
        ensures
            *final(self) == *old(self),
    {
        let (_start_cell, _first_node) = self.get_random_wall(src);
        let (_end_cell, _) = self.get_random_wall(dst);
    }

    /// Connect the rooms with corridors, one distant room at a time. The
    /// corridor digger being unfinished, this only picks the doorways and
    /// leaves the map unchanged; with more than two rooms it gives up at
    /// once.
    pub fn add_paths(&mut self)
        requires
            old(self).wf(),
            old(self).rooms@.len() == 2 ==> old(self).spec_has_door(old(self).rooms@[0])
                && old(self).spec_has_door(old(self).rooms@[1]),
        ensures
            *final(self) == *old(self),
    {
        if self.rooms.len() > 2 {
            return ;
        }
        let mut connected_rooms: Vec<u32> = Vec::new();
        connected_rooms.push(0);
        let mut distant_rooms: Vec<u32> = Vec::new();
        let mut i: usize = 1;
        while i < self.rooms.len()
            invariant
                *self == *old(self),
                self.rooms@.len() <= 2,
                1 <= i,
                distant_rooms@.len() == i - 1,
                forall|m: int|
                    0 <= m < distant_rooms@.len() ==> 1 <= #[trigger] distant_rooms@[m]
                        < self.rooms@.len(),
            decreases self.rooms@.len() - i,
        {
            distant_rooms.push(i as u32);
            i = i + 1;
        }
        while distant_rooms.len() > 0
            invariant
                *self == *old(self),
                old(self).wf(),
                old(self).rooms@.len() <= 2,
                old(self).rooms@.len() == 2 ==> old(self).spec_has_door(old(self).rooms@[0])
                    && old(self).spec_has_door(old(self).rooms@[1]),
                connected_rooms@.len() >= 1,
                connected_rooms@[0] == 0,
                forall|m: int|
                    0 <= m < distant_rooms@.len() ==> 1 <= #[trigger] distant_rooms@[m]
                        < self.rooms@.len(),
            decreases distant_rooms@.len(),
        {
            let src = connected_rooms[0];
            let dst = distant_rooms.pop().unwrap();
            self.path(src, dst);
            connected_rooms.push(dst);
        }
    }
}

/// The line describing a room, as the map rendering prints it.
pub open spec fn room_line(r: Room) -> Seq<char> {
    "room y = "@ + crate::text::dec_digits(r.y as nat) + ", x = "@ + crate::text::dec_digits(
        r.x as nat,
    ) + ", height = "@ + crate::text::dec_digits(r.height as nat) + ", width = "@
        + crate::text::dec_digits(r.width as nat)
}

/// The characters of one rendered grid row.
pub open spec fn row_chars(row: Seq<Cell>) -> Seq<char> {
    row.map_values(|c: Cell| terrain_char(c.terrain))
}

/// The room descriptions, one per line.
pub open spec fn rooms_text(rooms: Seq<Room>) -> Seq<char>
    decreases rooms.len(),
{
    if rooms.len() == 0 {
        Seq::empty()
    } else {
        rooms_text(rooms.drop_last()) + room_line(rooms.last()) + "\n"@
    }
}

/// The grid, one row of terrain characters per line.
pub open spec fn grid_text(g: Seq<Vec<Cell>>) -> Seq<char>
    decreases g.len(),
{
    if g.len() == 0 {
        Seq::empty()
    } else {
        grid_text(g.drop_last()) + row_chars(g.last()@) + "\n"@
    }
}

/// The full rendering of a map: its room list, then its grid.
pub open spec fn map_text(m: Mapp) -> Seq<char> {
    rooms_text(m.rooms@) + grid_text(m.data@)
}

impl Room {
    /// The one-line description of the room.
    pub fn render(&self) -> (s: String)
        ensures
            s@ == room_line(*self),
    {
        let mut s = String::new();
        s.append("room y = ");
        let ys = crate::text::u64_to_string(self.y as u64);
        s.append(ys.as_str());
        s.append(", x = ");
        let xs = crate::text::u64_to_string(self.x as u64);
        s.append(xs.as_str());
        s.append(", height = ");
        let hs = crate::text::u64_to_string(self.height as u64);
        s.append(hs.as_str());
        s.append(", width = ");
        let ws = crate::text::u64_to_string(self.width as u64);
        s.append(ws.as_str());
        proof {
            assert(s@ =~= room_line(*self));
        }
        s
    }
}

impl Mapp {
    /// The printable form of the map: each room's description on its own
    /// line, then the grid as terrain characters, one row per line.
    pub fn render(&self) -> (s: String)
        ensures
            s@ == map_text(*self),
    {
        let mut s = String::new();
        let mut k: usize = 0;
        while k < self.rooms.len()
            invariant
                k <= self.rooms@.len(),
                s@ == rooms_text(self.rooms@.take(k as int)),
            decreases self.rooms@.len() - k,
        {
            let line = self.rooms[k].render();
            s.append(line.as_str());
            s.append("\n");
            proof {
                let t1 = self.rooms@.take(k + 1);
                assert(t1.drop_last() =~= self.rooms@.take(k as int));
                assert(t1.last() == self.rooms@[k as int]);
                assert(s@ =~= rooms_text(t1));
            }
            k = k + 1;
        }
        proof {
            assert(self.rooms@.take(self.rooms@.len() as int) =~= self.rooms@);
        }
        let mut i: usize = 0;
        while i < self.data.len()
            invariant
                i <= self.data@.len(),
                s@ == rooms_text(self.rooms@) + grid_text(self.data@.take(i as int)),
            decreases self.data@.len() - i,
        {
            let mut chars: Vec<char> = Vec::new();
            let mut j: usize = 0;
            let row_len = self.data[i].len();
            while j < row_len
                invariant
                    j <= row_len,
                    i < self.data@.len(),
                    row_len == self.data@[i as int]@.len(),
                    chars@.len() == j,
                    forall|m: int|
                        0 <= m < j ==> #[trigger] chars@[m] == terrain_char(
                            self.data@[i as int]@[m].terrain,
                        ),
                decreases row_len - j,
            {
                chars.push(self.data[i][j].as_char());
                j = j + 1;
            }
            proof {
                assert(chars@ =~= row_chars(self.data@[i as int]@));
            }
            let row_string = crate::text::chars_to_string(chars);
            s.append(row_string.as_str());
            s.append("\n");
            proof {
                let t1 = self.data@.take(i + 1);
                assert(t1.drop_last() =~= self.data@.take(i as int));
                assert(t1.last() == self.data@[i as int]);
                assert(s@ =~= rooms_text(self.rooms@) + grid_text(t1));
            }
            i = i + 1;
        }
        proof {
            assert(self.data@.take(self.data@.len() as int) =~= self.data@);
            assert(s@ =~= map_text(*self));
        }
        s
    }
}

/// One draw of the room-placement sampler: the ranges the coordinates and
/// extents are drawn from, the probe that accepted the draw, and the dig it
/// performed.
pub open spec fn room_placement(pre: Mapp, post: Mapp, sx: int, sy: int, w: int, h: int) -> bool {
    &&& 0 <= sx < 75
    &&& 0 <= sy < 15
    &&& 4 <= w <= 10
    &&& 4 <= h <= 10
    &&& sx + w <= 79
    &&& sy + h <= 19
    &&& pre.corners_full(sx, sy, sx + w, sy + h)
    &&& post.rooms@ == pre.rooms@.push(
        (Room { x: sx as u32, y: sy as u32, width: w as u32, height: h as u32 }),
    )
    &&& forall|i: int, j: int|
        pre.in_bounds(i, j) ==> post.terrain_at(i, j) == painted_terrain(pre, i, j, sx, sy, w, h)
}

/// The shape every room the sampler records has: extents between 4 and 10
/// cells, inside the sampler's 80 by 20 placement window.
pub open spec fn sampler_room(r: Room) -> bool {
    &&& 4 <= r.width <= 10
    &&& 4 <= r.height <= 10
    &&& r.x + r.width <= 79
    &&& r.y + r.height <= 19
}

/// How many placement rejections in total end the room sampler.
pub const MAX_ADDROOM_FAILS: u32 = 3;

impl Mapp {
    /// Draw a random origin and extent and try to dig the room there. The
    /// draw is rejected, and the map left alone, when any of the four probe
    /// cells around the drawn extent is no longer rock; on a map of nothing
    /// but rock every draw is accepted.
    pub fn add_room(&mut self) -> (placed: bool)
        requires
            old(self).wf(),
            old(self).spec_height() >= 20,
            old(self).spec_width() >= 80,
        ensures
            final(self).wf(),
            final(self).spec_height() == old(self).spec_height(),
            final(self).spec_width() == old(self).spec_width(),
            !placed ==> *final(self) == *old(self),
            placed ==> exists|sx: int, sy: int, w: int, h: int|
                #[trigger] room_placement(*old(self), *final(self), sx, sy, w, h),
            placed ==> final(self).rooms@.len() == old(self).rooms@.len() + 1,
            placed ==> grid_full_count(*final(self)) < grid_full_count(*old(self)),
            final(self).rooms@.len() >= old(self).rooms@.len(),
            forall|k: int|
                0 <= k < old(self).rooms@.len() ==> final(self).rooms@[k] == old(self).rooms@[k],
            placed ==> sampler_room(final(self).rooms@[old(self).rooms@.len() as int]),
            forall|i: int, j: int|
                old(self).in_bounds(i, j) && final(self).terrain_at(i, j) == Terrain::Full
                    ==> old(self).terrain_at(i, j) == Terrain::Full,
            old(self).all_full() ==> placed,
    {
        let start_x = crate::rng::rand_below(75);
        let start_y = crate::rng::rand_below(15);
        let max_width = if 79 - start_x < 10 { 79 - start_x } else { 10 };
        let max_height = if 19 - start_y < 10 { 19 - start_y } else { 10 };
        let size_x = crate::rng::rand_between(4, max_width);
        let size_y = crate::rng::rand_between(4, max_height);
        let placed = self.place_room(start_x, start_y, size_x, size_y);
        proof {
            if placed {
                assert(room_placement(
                    *old(self),
                    *self,
                    start_x as int,
                    start_y as int,
                    size_x as int,
                    size_y as int,
                ));
                assert(self.rooms@[old(self).rooms@.len() as int] == (Room {
                    x: start_x as u32,
                    y: start_y as u32,
                    width: size_x as u32,
                    height: size_y as u32,
                }));
            }
            assert forall|i: int, j: int|
                old(self).in_bounds(i, j) && self.terrain_at(i, j) == Terrain::Full
                implies old(self).terrain_at(i, j) == Terrain::Full by {
                if placed {
                    assert(self.terrain_at(i, j) == painted_terrain(
                        *old(self),
                        i,
                        j,
                        start_x as int,
                        start_y as int,
                        size_x as int,
                        size_y as int,
                    ));
                }
            }
            if old(self).all_full() {
                let sx = start_x as int;
                let sy = start_y as int;
                let ex = start_x + size_x;
                let ey = start_y + size_y;
                assert(old(self).in_bounds(sy, sx) && old(self).in_bounds(ey, ex)
                    && old(self).in_bounds(sy, ex) && old(self).in_bounds(ey, sx));
                assert(old(self).terrain_at(sy, sx) == Terrain::Full);
                assert(old(self).terrain_at(ey, ex) == Terrain::Full);
                assert(old(self).terrain_at(sy, ex) == Terrain::Full);
                assert(old(self).terrain_at(ey, sx) == Terrain::Full);
            }
        }
        placed
    }

    /// Keep drawing rooms until placement has been rejected
    /// `MAX_ADDROOM_FAILS` times. Every room already on the map stays, each
    /// newly recorded room has the sampler's shape and dug out at least one
    /// rock cell, no cell ever turns back into rock, and on a map of nothing
    /// but rock at least one room is dug.
    pub fn add_rooms(&mut self)
        requires
            old(self).wf(),
            old(self).spec_height() >= 20,
            old(self).spec_width() >= 80,
        ensures
            final(self).wf(),
            final(self).spec_height() == old(self).spec_height(),
            final(self).spec_width() == old(self).spec_width(),
            final(self).rooms@.len() >= old(self).rooms@.len(),
            forall|k: int|
                0 <= k < old(self).rooms@.len() ==> final(self).rooms@[k] == old(self).rooms@[k],
            forall|k: int|
                old(self).rooms@.len() <= k < final(self).rooms@.len() ==> sampler_room(
                    #[trigger] final(self).rooms@[k],
                ),
            grid_full_count(*final(self)) + final(self).rooms@.len() <= grid_full_count(
                *old(self),
            ) + old(self).rooms@.len(),
            forall|i: int, j: int|
                old(self).in_bounds(i, j) && final(self).terrain_at(i, j) == Terrain::Full
                    ==> old(self).terrain_at(i, j) == Terrain::Full,
            old(self).all_full() ==> final(self).rooms@.len() > old(self).rooms@.len(),
    {
        let mut addroom_fails: u32 = 0;
        while addroom_fails < MAX_ADDROOM_FAILS
            invariant
                self.wf(),
                self.spec_height() == old(self).spec_height(),
                self.spec_width() == old(self).spec_width(),
                self.spec_height() >= 20,
                self.spec_width() >= 80,
                self.rooms@.len() >= old(self).rooms@.len(),
                forall|k: int|
                    0 <= k < old(self).rooms@.len() ==> self.rooms@[k] == old(self).rooms@[k],
                forall|k: int|
                    old(self).rooms@.len() <= k < self.rooms@.len() ==> sampler_room(
                        #[trigger] self.rooms@[k],
                    ),
                grid_full_count(*self) + self.rooms@.len() <= grid_full_count(*old(self)) + old(
                    self,
                ).rooms@.len(),
                forall|i: int, j: int|
                    old(self).in_bounds(i, j) && self.terrain_at(i, j) == Terrain::Full ==> old(
                        self,
                    ).terrain_at(i, j) == Terrain::Full,
                old(self).all_full() ==> (self.rooms@.len() > old(self).rooms@.len() || (*self
                    == *old(self) && addroom_fails == 0)),
            decreases grid_full_count(*self), MAX_ADDROOM_FAILS - addroom_fails,
        {
            let ret = self.add_room();
            if !ret {
                addroom_fails = addroom_fails + 1;
            }
        }
    }
}

/// How many cells of one row are still unexcavated rock.
pub open spec fn row_full_count(row: Seq<Cell>) -> nat
    decreases row.len(),
{
    if row.len() == 0 {
        0
    } else {
        row_full_count(row.drop_last()) + (if row.last().terrain == Terrain::Full {
            1nat
        } else {
            0nat
        })
    }
}

/// How many cells of the whole grid are still unexcavated rock.
pub open spec fn rows_full_count(g: Seq<Vec<Cell>>) -> nat
    decreases g.len(),
{
    if g.len() == 0 {
        0
    } else {
        rows_full_count(g.drop_last()) + row_full_count(g.last()@)
    }
}

pub open spec fn grid_full_count(m: Mapp) -> nat {
    rows_full_count(m.data@)
}

/// If no cell of a row turns into rock, the row's rock count cannot grow.
proof fn lemma_row_full_count_le(a: Seq<Cell>, b: Seq<Cell>)
    requires
        a.len() == b.len(),
        forall|j: int|
            0 <= j < a.len() && (#[trigger] b[j]).terrain == Terrain::Full ==> a[j].terrain
                == Terrain::Full,
    ensures
        row_full_count(b) <= row_full_count(a),
    decreases a.len(),
{
    if a.len() > 0 {
        assert forall|j: int|
            0 <= j < a.drop_last().len() && (#[trigger] b.drop_last()[j]).terrain == Terrain::Full
            implies a.drop_last()[j].terrain == Terrain::Full by {
            assert(b.drop_last()[j] == b[j]);
            assert(a.drop_last()[j] == a[j]);
        }
        lemma_row_full_count_le(a.drop_last(), b.drop_last());
        assert(b.last() == b[a.len() - 1]);
        assert(a.last() == a[a.len() - 1]);
    }
}

/// If moreover some rock cell of the row was dug out, the count shrinks.
proof fn lemma_row_full_count_lt(a: Seq<Cell>, b: Seq<Cell>, j0: int)
    requires
        a.len() == b.len(),
        forall|j: int|
            0 <= j < a.len() && (#[trigger] b[j]).terrain == Terrain::Full ==> a[j].terrain
                == Terrain::Full,
        0 <= j0 < a.len(),
        a[j0].terrain == Terrain::Full,
        b[j0].terrain != Terrain::Full,
    ensures
        row_full_count(b) < row_full_count(a),
    decreases a.len(),
{
    assert forall|j: int|
        0 <= j < a.drop_last().len() && (#[trigger] b.drop_last()[j]).terrain == Terrain::Full
        implies a.drop_last()[j].terrain == Terrain::Full by {
        assert(b.drop_last()[j] == b[j]);
        assert(a.drop_last()[j] == a[j]);
    }
    assert(b.last() == b[a.len() - 1]);
    assert(a.last() == a[a.len() - 1]);
    if j0 == a.len() - 1 {
        lemma_row_full_count_le(a.drop_last(), b.drop_last());
    } else {
        assert(a.drop_last()[j0] == a[j0]);
        assert(b.drop_last()[j0] == b[j0]);
        lemma_row_full_count_lt(a.drop_last(), b.drop_last(), j0);
    }
}

/// Grid-wide version of `lemma_row_full_count_le`.
proof fn lemma_rows_full_count_le(a: Seq<Vec<Cell>>, b: Seq<Vec<Cell>>)
    requires
        a.len() == b.len(),
        forall|i: int| 0 <= i < a.len() ==> (#[trigger] b[i])@.len() == a[i]@.len(),
        forall|i: int, j: int|
            0 <= i < a.len() && 0 <= j < a[i]@.len() && (#[trigger] b[i]@[j]).terrain
                == Terrain::Full ==> a[i]@[j].terrain == Terrain::Full,
    ensures
        rows_full_count(b) <= rows_full_count(a),
    decreases a.len(),
{
    if a.len() > 0 {
        let n = a.len() - 1;
        assert forall|i: int| 0 <= i < a.drop_last().len() implies (#[trigger] b.drop_last()[i])@.len()
            == a.drop_last()[i]@.len() by {
            assert(b.drop_last()[i] == b[i]);
            assert(a.drop_last()[i] == a[i]);
        }
        assert forall|i: int, j: int|
            0 <= i < a.drop_last().len() && 0 <= j < a.drop_last()[i]@.len() && (#[trigger] b
                .drop_last()[i]@[j]).terrain == Terrain::Full
            implies a.drop_last()[i]@[j].terrain == Terrain::Full by {
            assert(b.drop_last()[i] == b[i]);
            assert(a.drop_last()[i] == a[i]);
        }
        lemma_rows_full_count_le(a.drop_last(), b.drop_last());
        assert(b.last() == b[n]);
        assert(a.last() == a[n]);
        lemma_row_full_count_le(a[n]@, b[n]@);
    }
}

/// Grid-wide version of `lemma_row_full_count_lt`: digging out the rock cell
/// `(i0, j0)` shrinks the grid's rock count.
proof fn lemma_rows_full_count_lt(a: Seq<Vec<Cell>>, b: Seq<Vec<Cell>>, i0: int, j0: int)
    requires
        a.len() == b.len(),
        forall|i: int| 0 <= i < a.len() ==> (#[trigger] b[i])@.len() == a[i]@.len(),
        forall|i: int, j: int|
            0 <= i < a.len() && 0 <= j < a[i]@.len() && (#[trigger] b[i]@[j]).terrain
                == Terrain::Full ==> a[i]@[j].terrain == Terrain::Full,
        0 <= i0 < a.len(),
        0 <= j0 < a[i0]@.len(),
        a[i0]@[j0].terrain == Terrain::Full,
        b[i0]@[j0].terrain != Terrain::Full,
    ensures
        rows_full_count(b) < rows_full_count(a),
    decreases a.len(),
{
    let n = a.len() - 1;
    assert forall|i: int| 0 <= i < a.drop_last().len() implies (#[trigger] b.drop_last()[i])@.len()
        == a.drop_last()[i]@.len() by {
        assert(b.drop_last()[i] == b[i]);
        assert(a.drop_last()[i] == a[i]);
    }
    assert forall|i: int, j: int|
        0 <= i < a.drop_last().len() && 0 <= j < a.drop_last()[i]@.len() && (#[trigger] b
            .drop_last()[i]@[j]).terrain == Terrain::Full
        implies a.drop_last()[i]@[j].terrain == Terrain::Full by {
        assert(b.drop_last()[i] == b[i]);
        assert(a.drop_last()[i] == a[i]);
    }
    assert(b.last() == b[n]);
    assert(a.last() == a[n]);
    if i0 == n {
        lemma_rows_full_count_le(a.drop_last(), b.drop_last());
        lemma_row_full_count_lt(a[n]@, b[n]@, j0);
    } else {
        assert(a.drop_last()[i0] == a[i0]);
        assert(b.drop_last()[i0] == b[i0]);
        lemma_rows_full_count_lt(a.drop_last(), b.drop_last(), i0, j0);
        lemma_row_full_count_le(a[n]@, b[n]@);
    }
}

} // verus!
