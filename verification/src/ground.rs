//! How the surfaces of a ground tile lie: which surface a tile names for each
//! of its three faces, which corners a face joins, and which neighbour it
//! leans on.

use vstd::prelude::*;

verus! {

/// The four corners of a tile at which a height is given.
#[derive(Copy, Clone, Debug, PartialEq, Eq)]
pub enum Heights {
    UpperLeft,
    UpperRight,
    LowerLeft,
    LowerRight,
}

/// The three faces of a ground tile that can carry a surface.
#[derive(Copy, Clone, Debug, PartialEq, Eq)]
pub enum SurfaceType {
    Front,
    Right,
    Top,
}

/// The surfaces that a ground tile names, one for each face. A negative index
/// means that the face has no surface.
#[derive(Copy, Clone, Debug, PartialEq, Eq)]
pub struct GroundTile {
    pub top_surface_index: i32,
    pub front_surface_index: i32,
    pub right_surface_index: i32,
}

/// A step on the tile grid, in whole tiles.
#[derive(Copy, Clone, Debug, PartialEq, Eq)]
pub struct TileOffset {
    pub x: usize,
    pub y: usize,
}

/// The surface index that `tile` names for the face `surface_type`.
pub open spec fn surface_index_of(tile: GroundTile, surface_type: SurfaceType) -> i32 {
    match surface_type {
        SurfaceType::Front => tile.front_surface_index,
        SurfaceType::Right => tile.right_surface_index,
        SurfaceType::Top => tile.top_surface_index,
    }
}

/// The surface index that `tile` names for the face `surface_type`.
pub fn tile_surface_index(tile: &GroundTile, surface_type: SurfaceType) -> (index: i32)
    ensures
        index == surface_index_of(*tile, surface_type),
{
    match surface_type {
        SurfaceType::Front => tile.front_surface_index,
        SurfaceType::Right => tile.right_surface_index,
        SurfaceType::Top => tile.top_surface_index,
    }
}

/// The corners of a face in the order its two triangles are built from: for
/// each, the grid corner of the tile it sits on and the height it takes. The
/// first two heights are read from the tile itself, the last two from the
/// neighbour that the face leans on.
pub open spec fn surface_alignment_of(surface_type: SurfaceType) -> Seq<(TileOffset, Heights)> {
    match surface_type {
        SurfaceType::Front => seq![
            (TileOffset { x: 0, y: 1 }, Heights::LowerLeft),
            (TileOffset { x: 1, y: 1 }, Heights::LowerRight),
            (TileOffset { x: 1, y: 1 }, Heights::UpperRight),
            (TileOffset { x: 0, y: 1 }, Heights::UpperLeft),
        ],
        SurfaceType::Right => seq![
            (TileOffset { x: 1, y: 1 }, Heights::LowerRight),
            (TileOffset { x: 1, y: 0 }, Heights::UpperRight),
            (TileOffset { x: 1, y: 0 }, Heights::UpperLeft),
            (TileOffset { x: 1, y: 1 }, Heights::LowerLeft),
        ],
        SurfaceType::Top => seq![
            (TileOffset { x: 0, y: 0 }, Heights::UpperLeft),
            (TileOffset { x: 1, y: 0 }, Heights::UpperRight),
            (TileOffset { x: 1, y: 1 }, Heights::LowerRight),
            (TileOffset { x: 0, y: 1 }, Heights::LowerLeft),
        ],
    }
}

/// The four corners of the face `surface_type`, in building order.
pub fn tile_surface_alignment(surface_type: SurfaceType) -> (corners: [(TileOffset, Heights); 4])
    ensures
        corners@ == surface_alignment_of(surface_type),
{
    let corners = match surface_type {
        SurfaceType::Front => [
            (TileOffset { x: 0, y: 1 }, Heights::LowerLeft),
            (TileOffset { x: 1, y: 1 }, Heights::LowerRight),
            (TileOffset { x: 1, y: 1 }, Heights::UpperRight),
            (TileOffset { x: 0, y: 1 }, Heights::UpperLeft),
        ],
        SurfaceType::Right => [
            (TileOffset { x: 1, y: 1 }, Heights::LowerRight),
            (TileOffset { x: 1, y: 0 }, Heights::UpperRight),
            (TileOffset { x: 1, y: 0 }, Heights::UpperLeft),
            (TileOffset { x: 1, y: 1 }, Heights::LowerLeft),
        ],
        SurfaceType::Top => [
            (TileOffset { x: 0, y: 0 }, Heights::UpperLeft),
            (TileOffset { x: 1, y: 0 }, Heights::UpperRight),
            (TileOffset { x: 1, y: 1 }, Heights::LowerRight),
            (TileOffset { x: 0, y: 1 }, Heights::LowerLeft),
        ],
    };
    assert(corners@ =~= surface_alignment_of(surface_type));
    corners
}

/// The step from a tile to the neighbour that its face `surface_type` leans
/// on: the tile in front for the front face, the tile to the right for the
/// right face, the tile itself for the top.
pub open spec fn neighbor_offset_of(surface_type: SurfaceType) -> TileOffset {
    match surface_type {
        SurfaceType::Front => TileOffset { x: 0, y: 1 },
        SurfaceType::Right => TileOffset { x: 1, y: 0 },
        SurfaceType::Top => TileOffset { x: 0, y: 0 },
    }
}

/// The step from a tile to the neighbour that its face `surface_type` leans
/// on.
pub fn neighbor_tile_index(surface_type: SurfaceType) -> (offset: TileOffset)
    ensures
        offset == neighbor_offset_of(surface_type),
{
    match surface_type {
        SurfaceType::Front => TileOffset { x: 0, y: 1 },
        SurfaceType::Right => TileOffset { x: 1, y: 0 },
        SurfaceType::Top => TileOffset { x: 0, y: 0 },
    }
}

/// The faces of a tile in the order in which a ground mesh takes them.
pub open spec fn face_order() -> Seq<SurfaceType> {
    seq![SurfaceType::Front, SurfaceType::Right, SurfaceType::Top]
}

/// One face of the ground mesh: where it lies, which surface covers it, which
/// tile it leans on, and the surfaces whose colours its far corners take.
#[derive(Copy, Clone, Debug, PartialEq, Eq)]
pub struct GroundQuad {
    /// Column of the tile.
    pub x: usize,
    /// Row of the tile.
    pub y: usize,
    /// The face of the tile.
    pub surface_type: SurfaceType,
    /// The surface on the face; its colour is that of the first corner.
    pub surface_index: usize,
    /// Place in the grid of the tile that the face leans on.
    pub neighbor_tile: usize,
    /// The surface that colours the corner towards the tile to the right.
    pub color_right: usize,
    /// The surface that colours the corner towards the tile to the right
    /// above.
    pub color_top_right: usize,
    /// The surface that colours the corner towards the tile above.
    pub color_top: usize,
}

/// A grid of ground tiles as contracts see it: `width` columns and `height`
/// rows, stored row by row in `tiles`, with `surface_count` surfaces to
/// choose from.
pub struct GroundGrid {
    pub tiles: Seq<GroundTile>,
    pub width: int,
    pub height: int,
    pub surface_count: int,
}

impl GroundGrid {
    /// Every tile of the grid is stored, and every face that has a surface
    /// names one that exists.
    pub open spec fn well_formed(self) -> bool {
        &&& 0 <= self.width
        &&& 0 <= self.height
        &&& self.width * self.height <= self.tiles.len()
        &&& 0 <= self.surface_count
        &&& forall|i: int, face: SurfaceType|
            0 <= i < self.width * self.height ==> #[trigger] surface_index_of(self.tiles[i], face)
                < self.surface_count
    }

    /// The surface that colours a corner towards the tile at column `x` and
    /// row `y`: the top surface of that tile, or `own` where there is no such
    /// tile or it has no top surface. Past the right edge the place counts on
    /// into the next row.
    pub open spec fn color_source(self, own: int, x: int, y: int) -> int {
        let place = x + y * self.width;
        if 0 <= place < self.tiles.len() && 0 <= self.tiles[place].top_surface_index < self.surface_count {
            self.tiles[place].top_surface_index as int
        } else {
            own
        }
    }

    /// The face `face` of the tile at column `x` and row `y`, where the mesh
    /// has one: the face has a surface and the tile it leans on is stored.
    pub open spec fn quad(self, x: int, y: int, face: SurfaceType) -> Option<GroundQuad> {
        let surface_index = surface_index_of(self.tiles[x + y * self.width], face);
        let offset = neighbor_offset_of(face);
        let neighbor = (x + offset.x) + (y + offset.y) * self.width;
        if surface_index > -1 && neighbor < self.tiles.len() {
            Some(
                GroundQuad {
                    x: x as usize,
                    y: y as usize,
                    surface_type: face,
                    surface_index: surface_index as usize,
                    neighbor_tile: neighbor as usize,
                    color_right: self.color_source(surface_index as int, x + 1, y) as usize,
                    color_top_right: self.color_source(surface_index as int, x + 1, y + 1) as usize,
                    color_top: self.color_source(surface_index as int, x, y + 1) as usize,
                },
            )
        } else {
            None
        }
    }

    /// The faces of the tile at column `x` and row `y` among the first
    /// `faces` of the face order.
    pub open spec fn tile_quads(self, x: int, y: int, faces: int) -> Seq<GroundQuad>
        decreases faces,
    {
        if faces <= 0 {
            Seq::empty()
        } else {
            match self.quad(x, y, face_order()[faces - 1]) {
                Some(quad) => self.tile_quads(x, y, faces - 1).push(quad),
                None => self.tile_quads(x, y, faces - 1),
            }
        }
    }

    /// The faces of the first `rows` tiles of column `x`.
    pub open spec fn column_quads(self, x: int, rows: int) -> Seq<GroundQuad>
        decreases rows,
    {
        if rows <= 0 {
            Seq::empty()
        } else {
            self.column_quads(x, rows - 1) + self.tile_quads(x, rows - 1, 3)
        }
    }

    /// The faces of the first `columns` columns.
    pub open spec fn grid_quads(self, columns: int) -> Seq<GroundQuad>
        decreases columns,
    {
        if columns <= 0 {
            Seq::empty()
        } else {
            self.grid_quads(columns - 1) + self.column_quads(columns - 1, self.height)
        }
    }

    /// The faces of the whole ground mesh: column by column, in each column
    /// row by row, and for each tile in the face order.
    pub open spec fn quads(self) -> Seq<GroundQuad> {
        self.grid_quads(self.width)
    }
}

/// Whether a face lies inside the grid `grid` and names only tiles and
/// surfaces that the grid holds.
pub open spec fn quad_in_bounds(grid: GroundGrid, quad: GroundQuad) -> bool {
    &&& quad.x < grid.width
    &&& quad.y < grid.height
    &&& quad.surface_index < grid.surface_count
    &&& quad.neighbor_tile < grid.tiles.len()
    &&& quad.color_right < grid.surface_count
    &&& quad.color_top_right < grid.surface_count
    &&& quad.color_top < grid.surface_count
}

/// The grid that `width`, `height`, `ground_tiles` and `surface_count`
/// describe.
pub open spec fn grid_of(width: usize, height: usize, ground_tiles: &[GroundTile], surface_count: usize) -> GroundGrid {
    GroundGrid {
        tiles: ground_tiles@,
        width: width as int,
        height: height as int,
        surface_count: surface_count as int,
    }
}

/// Whether the grid is one that a ground mesh can be built from: every tile
/// is stored and every face that has a surface names one that exists.
pub fn is_well_formed_grid(width: usize, height: usize, ground_tiles: &[GroundTile], surface_count: usize) -> (valid: bool)
    ensures
        valid == grid_of(width, height, ground_tiles, surface_count).well_formed(),
{
    let ghost grid = grid_of(width, height, ground_tiles, surface_count);
    let stored = ground_tiles.len();
    let tile_count = match width.checked_mul(height) {
        Some(count) => count,
        None => {
            return false;
        },
    };
    if tile_count > stored {
        return false;
    }
    let mut index: usize = 0;
    while index < tile_count
        invariant
            index <= tile_count,
            tile_count == width * height,
            tile_count <= ground_tiles@.len(),
            grid == grid_of(width, height, ground_tiles, surface_count),
            forall|i: int, face: SurfaceType|
                0 <= i < index ==> #[trigger] surface_index_of(ground_tiles@[i], face) < surface_count,
        decreases tile_count - index,
    {
        let tile = &ground_tiles[index];
        if !(surface_fits(tile.front_surface_index, surface_count) && surface_fits(
            tile.right_surface_index,
            surface_count,
        ) && surface_fits(tile.top_surface_index, surface_count)) {
            assert(!grid.well_formed()) by {
                assert(surface_index_of(ground_tiles@[index as int], SurfaceType::Front) == tile.front_surface_index);
                assert(surface_index_of(ground_tiles@[index as int], SurfaceType::Right) == tile.right_surface_index);
                assert(surface_index_of(ground_tiles@[index as int], SurfaceType::Top) == tile.top_surface_index);
            }
            return false;
        }
        assert forall|face: SurfaceType| #[trigger]
            surface_index_of(ground_tiles@[index as int], face) < surface_count by {
            match face {
                SurfaceType::Front => {},
                SurfaceType::Right => {},
                SurfaceType::Top => {},
            }
        }
        index = index + 1;
    }
    true
}

/// Whether the surface index `index` is below `surface_count`. A negative
/// index, which names no surface, always is.
fn surface_fits(index: i32, surface_count: usize) -> (fits: bool)
    ensures
        fits == (index < surface_count),
{
    index < 0 || (index as usize) < surface_count
}

/// The surface that colours a corner towards the tile at column `x` and row
/// `y`, see `GroundGrid::color_source`.
fn color_source(width: usize, ground_tiles: &[GroundTile], surface_count: usize, own: usize, x: usize, y: usize) -> (source: usize)
    requires
        own < surface_count,
    ensures
        source == grid_of(width, 0, ground_tiles, surface_count).color_source(own as int, x as int, y as int),
        source < surface_count,
{
    let stored = ground_tiles.len();
    let place = match y.checked_mul(width) {
        Some(row_start) => match row_start.checked_add(x) {
            Some(place) => place,
            None => {
                return own;
            },
        },
        None => {
            return own;
        },
    };
    if place < stored {
        let top = ground_tiles[place].top_surface_index;
        if top >= 0 && (top as usize) < surface_count {
            return top as usize;
        }
    }
    own
}

/// The face `face` of the tile at column `x` and row `y`, where the mesh has
/// one.
fn ground_quad(
    width: usize,
    height: usize,
    ground_tiles: &[GroundTile],
    surface_count: usize,
    x: usize,
    y: usize,
    face: SurfaceType,
) -> (quad: Option<GroundQuad>)
    requires
        grid_of(width, height, ground_tiles, surface_count).well_formed(),
        x < width,
        y < height,
    ensures
        quad == grid_of(width, height, ground_tiles, surface_count).quad(x as int, y as int, face),
        quad matches Some(found) ==> quad_in_bounds(grid_of(width, height, ground_tiles, surface_count), found),
{
    let ghost grid = grid_of(width, height, ground_tiles, surface_count);
    let stored = ground_tiles.len();
    proof {
        lemma_place_in_grid(x as int, y as int, width as int, height as int);
        assert(grid.width * grid.height <= stored);
    }
    let place = x + y * width;
    let surface_index = tile_surface_index(&ground_tiles[place], face);
    if surface_index < 0 {
        return None;
    }
    let offset = neighbor_tile_index(face);
    let neighbor = match (y + offset.y).checked_mul(width) {
        Some(row_start) => match row_start.checked_add(x + offset.x) {
            Some(neighbor) => neighbor,
            None => {
                return None;
            },
        },
        None => {
            return None;
        },
    };
    if neighbor >= stored {
        return None;
    }
    let own = surface_index as usize;
    assert(grid.color_source(own as int, x + 1, y as int) == grid_of(width, 0, ground_tiles, surface_count).color_source(own as int, x + 1, y as int));
    assert(grid.color_source(own as int, x + 1, y + 1) == grid_of(width, 0, ground_tiles, surface_count).color_source(own as int, x + 1, y + 1));
    assert(grid.color_source(own as int, x as int, y + 1) == grid_of(width, 0, ground_tiles, surface_count).color_source(own as int, x as int, y + 1));
    Some(
        GroundQuad {
            x,
            y,
            surface_type: face,
            surface_index: own,
            neighbor_tile: neighbor,
            color_right: color_source(width, ground_tiles, surface_count, own, x + 1, y),
            color_top_right: color_source(width, ground_tiles, surface_count, own, x + 1, y + 1),
            color_top: color_source(width, ground_tiles, surface_count, own, x, y + 1),
        },
    )
}

/// A tile inside the grid has its place inside the grid.
proof fn lemma_place_in_grid(x: int, y: int, width: int, height: int)
    requires
        0 <= x < width,
        0 <= y < height,
    ensures
        0 <= y * width,
        0 <= x + y * width < width * height,
{
    assert(y * width >= 0) by (nonlinear_arith)
        requires
            y >= 0,
            width >= 0,
    ;
    assert((y + 1) * width <= height * width) by (nonlinear_arith)
        requires
            y + 1 <= height,
            width >= 0,
    ;
    assert((y + 1) * width == y * width + width) by (nonlinear_arith);
    assert(height * width == width * height) by (nonlinear_arith);
}

/// Lays out the faces of a ground mesh: for every tile, column by column,
/// and for its front, right and top face in turn, the face if it has a
/// surface and the tile it leans on exists. Every face lies inside the grid
/// and names only tiles and surfaces that the grid holds.
pub fn ground_quads(width: usize, height: usize, ground_tiles: &[GroundTile], surface_count: usize) -> (quads: Vec<GroundQuad>)
    requires
        grid_of(width, height, ground_tiles, surface_count).well_formed(),
    ensures
        quads@ == grid_of(width, height, ground_tiles, surface_count).quads(),
        forall|i: int|
            0 <= i < quads@.len() ==> quad_in_bounds(
                grid_of(width, height, ground_tiles, surface_count),
                #[trigger] quads@[i],
            ),
{
    let ghost grid = grid_of(width, height, ground_tiles, surface_count);
    let mut quads: Vec<GroundQuad> = Vec::new();
    let mut x: usize = 0;
    while x < width
        invariant
            x <= width,
            grid == grid_of(width, height, ground_tiles, surface_count),
            grid.well_formed(),
            quads@ == grid.grid_quads(x as int),
            forall|i: int| 0 <= i < quads@.len() ==> quad_in_bounds(grid, #[trigger] quads@[i]),
        decreases width - x,
    {
        let mut y: usize = 0;
        assert(quads@ =~= grid.grid_quads(x as int) + grid.column_quads(x as int, 0));
        while y < height
            invariant
                x < width,
                y <= height,
                grid == grid_of(width, height, ground_tiles, surface_count),
                grid.well_formed(),
                quads@ == grid.grid_quads(x as int) + grid.column_quads(x as int, y as int),
                forall|i: int| 0 <= i < quads@.len() ==> quad_in_bounds(grid, #[trigger] quads@[i]),
            decreases height - y,
        {
            let ghost before = quads@;
            let faces = [SurfaceType::Front, SurfaceType::Right, SurfaceType::Top];
            assert(faces@ =~= face_order());
            let mut face: usize = 0;
            assert(quads@ =~= before + grid.tile_quads(x as int, y as int, 0));
            while face < 3
                invariant
                    x < width,
                    y < height,
                    face <= 3,
                    faces@ == face_order(),
                    grid == grid_of(width, height, ground_tiles, surface_count),
                    grid.well_formed(),
                    quads@ == before + grid.tile_quads(x as int, y as int, face as int),
                    forall|i: int| 0 <= i < quads@.len() ==> quad_in_bounds(grid, #[trigger] quads@[i]),
                decreases 3 - face,
            {
                let ghost so_far = grid.tile_quads(x as int, y as int, face as int);
                match ground_quad(width, height, ground_tiles, surface_count, x, y, faces[face]) {
                    Some(quad) => {
                        quads.push(quad);
                        assert(quads@ =~= before + so_far.push(quad));
                    },
                    None => {},
                }
                face = face + 1;
            }
            y = y + 1;
            assert(quads@ =~= grid.grid_quads(x as int) + grid.column_quads(x as int, y as int));
        }
        x = x + 1;
    }
    quads
}

/// A tile of the walking grid that the mouse can point at.
#[derive(Copy, Clone, Debug, PartialEq, Eq)]
pub struct PickerTile {
    /// Column of the tile, as far as sixteen bits hold it.
    pub x: u16,
    /// Row of the tile, as far as sixteen bits hold it.
    pub y: u16,
    /// Place of the tile in the grid, counted row by row.
    pub index: usize,
}

/// The tile at column `x` and row `y` of a walking grid of `width` columns.
pub open spec fn picker_tile_at(width: int, x: int, y: int) -> PickerTile {
    PickerTile { x: (x % 0x1_0000) as u16, y: (y % 0x1_0000) as u16, index: (y * width + x) as usize }
}

/// The tiles among the first `columns` of row `y` that the mouse can point
/// at: those with a flag set.
pub open spec fn picker_row(flags: Seq<u8>, width: int, y: int, columns: int) -> Seq<PickerTile>
    decreases columns,
{
    if columns <= 0 {
        Seq::empty()
    } else if flags[y * width + (columns - 1)] != 0 {
        picker_row(flags, width, y, columns - 1).push(picker_tile_at(width, columns - 1, y))
    } else {
        picker_row(flags, width, y, columns - 1)
    }
}

/// The tiles of the first `rows` rows that the mouse can point at, row by
/// row.
pub open spec fn picker_rows(flags: Seq<u8>, width: int, rows: int) -> Seq<PickerTile>
    decreases rows,
{
    if rows <= 0 {
        Seq::empty()
    } else {
        picker_rows(flags, width, rows - 1) + picker_row(flags, width, rows - 1, width)
    }
}

/// The tiles of a walking grid that the mouse can point at: every tile with a
/// flag set, row by row. `flags` holds the flags of the tiles in that order.
pub fn picker_tiles(map_width: usize, map_height: usize, flags: &[u8]) -> (tiles: Vec<PickerTile>)
    requires
        map_width * map_height <= flags@.len(),
    ensures
        tiles@ == picker_rows(flags@, map_width as int, map_height as int),
        forall|i: int|
            0 <= i < tiles@.len() ==> (#[trigger] tiles@[i]).index < map_width * map_height && flags@[tiles@[i].index as int]
                != 0,
{
    let stored = flags.len();
    let mut tiles: Vec<PickerTile> = Vec::new();
    let mut y: usize = 0;
    while y < map_height
        invariant
            y <= map_height,
            stored == flags@.len(),
            map_width * map_height <= stored,
            tiles@ == picker_rows(flags@, map_width as int, y as int),
            forall|i: int|
                0 <= i < tiles@.len() ==> (#[trigger] tiles@[i]).index < map_width * map_height && flags@[tiles@[i].index as int]
                    != 0,
        decreases map_height - y,
    {
        let ghost before = tiles@;
        let mut x: usize = 0;
        assert(tiles@ =~= before + picker_row(flags@, map_width as int, y as int, 0));
        while x < map_width
            invariant
                y < map_height,
                x <= map_width,
                stored == flags@.len(),
                map_width * map_height <= stored,
                tiles@ == before + picker_row(flags@, map_width as int, y as int, x as int),
                forall|i: int|
                    0 <= i < tiles@.len() ==> (#[trigger] tiles@[i]).index < map_width * map_height && flags@[tiles@[i].index as int]
                        != 0,
            decreases map_width - x,
        {
            proof {
                lemma_place_in_grid(x as int, y as int, map_width as int, map_height as int);
            }
            let index = y * map_width + x;
            if flags[index] != 0 {
                let ghost so_far = picker_row(flags@, map_width as int, y as int, x as int);
                tiles.push(PickerTile { x: (x % 0x1_0000) as u16, y: (y % 0x1_0000) as u16, index });
                assert(tiles@ =~= before + so_far.push(picker_tile_at(map_width as int, x as int, y as int)));
            }
            x = x + 1;
        }
        y = y + 1;
    }
    tiles
}

} // verus!
