use vstd::prelude::*;

use crate::direction::Rotation;

verus! {

/// Percentage of the square play area given to the grid; the rest of it holds
/// the rule sequence.
pub const HSPLIT_PERCENTAGE: u32 = 75;

/// A rectangle on screen: its top-left corner and its size.
#[derive(Clone, Copy, Debug, PartialEq, Eq, Structural)]
pub struct Area {
    pub x: i32,
    pub y: i32,
    pub w: u32,
    pub h: u32,
}

/// Window sizes that the layout arithmetic handles without overflow.
pub open spec fn window_fits(width: u32, height: u32) -> bool {
    100 * width <= u32::MAX && 100 * height <= u32::MAX
}

/// Where the grid is drawn in a `width` by `height` window: the left part of
/// the largest centred square.
pub open spec fn map_area(width: u32, height: u32) -> Area {
    if width > height {
        Area {
            x: ((width - height) / 2) as i32,
            y: 0,
            w: (HSPLIT_PERCENTAGE * height / 100) as u32,
            h: height,
        }
    } else {
        Area {
            x: 0,
            y: ((height - width) / 2) as i32,
            w: (HSPLIT_PERCENTAGE * width / 100) as u32,
            h: width,
        }
    }
}

/// Where the rule sequence is drawn in a `width` by `height` window: the
/// right part of the largest centred square.
pub open spec fn sequence_area(width: u32, height: u32) -> Area {
    if width > height {
        Area {
            x: (HSPLIT_PERCENTAGE * height / 100 + (width - height) / 2) as i32,
            y: 0,
            w: ((100 - HSPLIT_PERCENTAGE) * height / 100) as u32,
            h: height,
        }
    } else {
        Area {
            x: (HSPLIT_PERCENTAGE * width / 100) as i32,
            y: ((height - width) / 2) as i32,
            w: ((100 - HSPLIT_PERCENTAGE) * width / 100) as u32,
            h: width,
        }
    }
}

/// The side of one rule box when `n` rules are shown in `seq`: the rules, the
/// box that adds one, and a margin of a box above and below fit the height,
/// and a box takes at most half the width.
pub open spec fn box_side(seq: Area, n: nat) -> int {
    let by_height = seq.h as int / (n + 3) as int;
    let by_width = seq.w as int / 2;
    if by_height > by_width {
        by_width
    } else {
        by_height
    }
}

/// The left edge of the rule boxes: centred in `seq`.
pub open spec fn box_left(seq: Area, n: nat) -> int {
    (seq.w - box_side(seq, n)) / 2 + seq.x
}

/// The `i`-th box of the column: rule `i` for `i < n`, the box that adds a
/// rule for `i == n`.
pub open spec fn rule_box(seq: Area, n: nat, i: int) -> Area {
    let unit = box_side(seq, n);
    Area { x: box_left(seq, n) as i32, y: ((i + 1) * unit + seq.y) as i32, w: unit as u32, h: unit as u32 }
}

/// The strip on the right of rule box `i` that removes that rule.
pub open spec fn delete_box(seq: Area, n: nat, i: int) -> Area {
    let unit = box_side(seq, n);
    Area {
        x: (box_left(seq, n) + unit - unit / 4) as i32,
        y: ((i + 1) * unit + seq.y) as i32,
        w: (unit / 4) as u32,
        h: unit as u32,
    }
}

/// The area of the grid in a `width` by `height` window.
pub fn get_map_area(width: u32, height: u32) -> (a: Area)
    requires
        window_fits(width, height),
    ensures
        a == map_area(width, height),
{
    if width > height {
        Area { x: ((width - height) / 2) as i32, y: 0, w: HSPLIT_PERCENTAGE * height / 100, h: height }
    } else {
        Area { x: 0, y: ((height - width) / 2) as i32, w: HSPLIT_PERCENTAGE * width / 100, h: width }
    }
}

/// The area of the rule sequence in a `width` by `height` window.
pub fn get_sequence_area(width: u32, height: u32) -> (a: Area)
    requires
        window_fits(width, height),
    ensures
        a == sequence_area(width, height),
{
    assert(25 * width <= u32::MAX && 25 * height <= u32::MAX);
    assert(25 * width <= u32::MAX && 25 * height <= u32::MAX);
    if width > height {
        Area {
            x: (HSPLIT_PERCENTAGE * height / 100 + (width - height) / 2) as i32,
            y: 0,
            w: (100 - HSPLIT_PERCENTAGE) * height / 100,
            h: height,
        }
    } else {
        Area {
            x: (HSPLIT_PERCENTAGE * width / 100) as i32,
            y: ((height - width) / 2) as i32,
            w: (100 - HSPLIT_PERCENTAGE) * width / 100,
            h: width,
        }
    }
}

/// The boxes of the rule sequence shown in `sequence`: one per rule and one
/// more that adds a rule; and the strips that remove a rule, for every rule
/// but the first.
pub fn get_sequence_hitboxes(sequence: Area, array: &Vec<Rotation>) -> (boxes: (
    Vec<Area>,
    Vec<Area>,
))
    requires
        array@.len() >= 1,
        array@.len() + 3 <= u32::MAX,
        sequence.w <= i32::MAX,
        sequence.h <= i32::MAX,
        sequence.x + sequence.w <= i32::MAX,
        sequence.y + sequence.h <= i32::MAX,
    ensures
        boxes.0@.len() == array@.len() + 1,
        forall|i: int|
            0 <= i < boxes.0@.len() ==> #[trigger] boxes.0@[i] == rule_box(
                sequence,
                array@.len(),
                i,
            ),
        boxes.1@.len() == array@.len() - 1,
        forall|i: int|
            0 <= i < boxes.1@.len() ==> #[trigger] boxes.1@[i] == delete_box(
                sequence,
                array@.len(),
                i + 1,
            ),
{
    let n = array.len();
    let ghost nn = n as nat;
    let mut v1: Vec<Area> = Vec::new();
    let mut v2: Vec<Area> = Vec::new();
    let hb_unit = sequence.h / (n as u32 + 3);
    let wb_unit = sequence.w / 2;
    let unit = if hb_unit > wb_unit {
        wb_unit
    } else {
        hb_unit
    };
    assert(unit == box_side(sequence, nn));
    assert(unit * (nn + 1) <= sequence.h) by (nonlinear_arith)
        requires
            unit <= sequence.h as int / (nn + 3) as int,
            nn >= 1,
    ;
    let x = ((sequence.w - unit) / 2) as i32 + sequence.x;
    let mut i: usize = 0;
    while i <= n
        invariant
            n == array@.len(),
            nn == n,
            n >= 1,
            n + 3 <= u32::MAX,
            unit == box_side(sequence, nn),
            unit <= sequence.w / 2,
            unit * (nn + 1) <= sequence.h,
            sequence.w <= i32::MAX,
            sequence.h <= i32::MAX,
            sequence.y + sequence.h <= i32::MAX,
            sequence.x + sequence.w <= i32::MAX,
            x == box_left(sequence, nn),
            i <= n + 1,
            v1@.len() == i,
            v2@.len() == if i == 0 {
                0
            } else if i <= n {
                i - 1
            } else {
                n - 1
            },
            forall|k: int| 0 <= k < v1@.len() ==> #[trigger] v1@[k] == rule_box(sequence, nn, k),
            forall|k: int|
                0 <= k < v2@.len() ==> #[trigger] v2@[k] == delete_box(sequence, nn, k + 1),
        decreases n + 1 - i,
    {
        assert((i + 1) * unit <= unit * (nn + 1)) by (nonlinear_arith)
            requires
                i <= nn,
        ;
        let y = (((i + 1) as u32) * unit) as i32 + sequence.y;
        v1.push(Area { x, y, w: unit, h: unit });
        if i > 0 && i < n {
            v2.push(Area { x: x + unit as i32 - (unit / 4) as i32, y, w: unit / 4, h: unit });
        }
        i = i + 1;
    }
    (v1, v2)
}

/// Where the grid lies on screen: the side of one cell and the screen
/// position of the top-left corner of cell (0, 0).
#[derive(Clone, Copy, Debug, PartialEq, Eq, Structural)]
pub struct Placement {
    pub side: i32,
    pub offset_x: i32,
    pub offset_y: i32,
}

/// Integer division rounding toward zero, as machine division does.
pub open spec fn div_toward_zero(a: int, b: int) -> int {
    if a >= 0 {
        a / b
    } else {
        -((-a) / b)
    }
}

/// The side of one cell when a `cols` by `rows` grid is fitted in `area`: the
/// largest that fits the longer axis in the shorter side, and at least 1.
pub open spec fn cell_side(area: Area, cols: nat, rows: nat) -> int {
    let room: int = if area.w > area.h {
        area.h as int
    } else {
        area.w as int
    };
    let cells: int = if cols > rows {
        cols as int
    } else {
        rows as int
    };
    if room / cells == 0 {
        1
    } else {
        room / cells
    }
}

/// Where the first cell of an axis goes: the grid is centred on the area, and
/// where it does not fit, shifted so that the ant stays in the middle.
pub open spec fn axis_offset(start: int, len: int, side: int, cells: int, ant: int) -> int {
    let centred = start + div_toward_zero(len - side * cells, 2);
    if side * cells > len {
        centred - (ant - cells / 2) * side
    } else {
        centred
    }
}

/// Bounds under which the placement arithmetic cannot overflow.
pub open spec fn placement_fits(area: Area, cols: nat, rows: nat) -> bool {
    &&& -0x1000_0000 <= area.x <= 0x1000_0000
    &&& -0x1000_0000 <= area.y <= 0x1000_0000
    &&& area.w <= 0x1000_0000
    &&& area.h <= 0x1000_0000
    &&& 1 <= cols <= 0x1000_0000
    &&& 1 <= rows <= 0x1000_0000
}

/// Fits a `cols` by `rows` grid with the ant at (`ant_x`, `ant_y`) into
/// `area`.
pub fn grid_placement(area: Area, cols: usize, rows: usize, ant_x: usize, ant_y: usize) -> (p:
    Placement)
    requires
        placement_fits(area, cols as nat, rows as nat),
        ant_x < cols,
        ant_y < rows,
    ensures
        p.side == cell_side(area, cols as nat, rows as nat),
        p.offset_x == axis_offset(area.x as int, area.w as int, p.side as int, cols as int, ant_x as int),
        p.offset_y == axis_offset(area.y as int, area.h as int, p.side as int, rows as int, ant_y as int),
{
    let room: i32 = if area.w > area.h {
        area.h as i32
    } else {
        area.w as i32
    };
    let cells: i32 = if cols > rows {
        cols as i32
    } else {
        rows as i32
    };
    let mut side: i32 = room / cells;
    if side == 0 {
        side = 1;
    }
    assert(side as int * cells as int <= if room > cells { room as int } else { cells as int })
        by (nonlinear_arith)
        requires
            cells >= 1,
            room >= 0,
            side == (if room / cells == 0 { 1 } else { room / cells }),
    ;
    assert(side * cols <= side * cells && side * rows <= side * cells) by (nonlinear_arith)
        requires
            side >= 1,
            cols <= cells,
            rows <= cells,
    ;
    let offset_x = area_offset(area.x, area.w, side, cols as i32, ant_x as i32);
    let offset_y = area_offset(area.y, area.h, side, rows as i32, ant_y as i32);
    Placement { side, offset_x, offset_y }
}

/// One axis of `grid_placement`.
fn area_offset(start: i32, len: u32, side: i32, cells: i32, ant: i32) -> (o: i32)
    requires
        -0x1000_0000 <= start <= 0x1000_0000,
        len <= 0x1000_0000,
        1 <= side,
        1 <= cells,
        0 <= ant < cells,
        side * cells <= 0x1000_0000,
    ensures
        o == axis_offset(start as int, len as int, side as int, cells as int, ant as int),
{
    assert(-(side * cells) <= (ant - cells / 2) * side <= side * cells) by (nonlinear_arith)
        requires
            side >= 1,
            0 <= ant < cells,
            0 <= cells / 2 <= cells,
    ;
    let mut o: i32 = start + (len as i32 - side * cells) / 2;
    if (side as u32) * (cells as u32) > len {
        o = o - (ant - cells / 2) * side;
    }
    o
}

} // verus!
