use vstd::prelude::*;
use vstd::string::*;

verus! {

/// The heading of the ant.
#[derive(Clone, Copy, Debug, PartialEq, Eq, Structural)]
pub enum Direction {
    Up,
    Down,
    Left,
    Right,
}

/// A quarter turn: `Left` is counter-clockwise, `Right` is clockwise.
#[derive(Clone, Copy, Debug, PartialEq, Eq, Structural)]
pub enum Rotation {
    Left,
    Right,
}

/// Position of a direction on the compass, counted clockwise from `Up`.
pub open spec fn compass_index(d: Direction) -> int {
    match d {
        Direction::Up => 0,
        Direction::Right => 1,
        Direction::Down => 2,
        Direction::Left => 3,
    }
}

/// The direction at a compass position (taken modulo 4).
pub open spec fn direction_at(i: int) -> Direction {
    let k = i % 4;
    if k == 0 {
        Direction::Up
    } else if k == 1 {
        Direction::Right
    } else if k == 2 {
        Direction::Down
    } else {
        Direction::Left
    }
}

/// How many clockwise quarter turns a rotation amounts to, modulo 4.
pub open spec fn quarter_turns(r: Rotation) -> int {
    match r {
        Rotation::Right => 1,
        Rotation::Left => 3,
    }
}

/// The heading reached from `d` by turning `r`.
pub open spec fn turned(d: Direction, r: Rotation) -> Direction {
    direction_at(compass_index(d) + quarter_turns(r))
}

/// The opposite sense of turning.
pub open spec fn opposite(r: Rotation) -> Rotation {
    match r {
        Rotation::Left => Rotation::Right,
        Rotation::Right => Rotation::Left,
    }
}

impl Direction {
    /// The heading after turning by `r`.
    pub fn rotate(self, r: Rotation) -> (res: Direction)
        ensures
            res == turned(self, r),
    {
        match (self, r) {
            (Direction::Up, Rotation::Left) => Direction::Left,
            (Direction::Down, Rotation::Left) => Direction::Right,
            (Direction::Left, Rotation::Left) => Direction::Down,
            (Direction::Right, Rotation::Left) => Direction::Up,
            (Direction::Up, Rotation::Right) => Direction::Right,
            (Direction::Down, Rotation::Right) => Direction::Left,
            (Direction::Left, Rotation::Right) => Direction::Up,
            (Direction::Right, Rotation::Right) => Direction::Down,
        }
    }
}

/// The rotations written in `s`: `R` for clockwise, `L` for counter-clockwise,
/// every other character skipped.
pub open spec fn rules_of(s: Seq<char>) -> Seq<Rotation>
    decreases s.len(),
{
    if s.len() == 0 {
        Seq::empty()
    } else {
        let rest = rules_of(s.drop_last());
        let c = s.last();
        if c == 'R' {
            rest.push(Rotation::Right)
        } else if c == 'L' {
            rest.push(Rotation::Left)
        } else {
            rest
        }
    }
}

impl Rotation {
    /// Reads a rule sequence from its notation, a string of `R` and `L`.
    pub fn vec_from_string(s: &str) -> (res: Vec<Rotation>)
        ensures
            res@ == rules_of(s@),
    {
        let n = s.unicode_len();
        let mut res: Vec<Rotation> = Vec::new();
        let mut i: usize = 0;
        while i < n
            invariant
                n == s@.len(),
                i <= n,
                res@ == rules_of(s@.subrange(0, i as int)),
            decreases n - i,
        {
            let c = s.get_char(i);
            proof {
                let pre = s@.subrange(0, i + 1);
                assert(pre.drop_last() =~= s@.subrange(0, i as int));
                assert(pre.last() == c);
            }
            if c == 'R' {
                res.push(Rotation::Right);
            } else if c == 'L' {
                res.push(Rotation::Left);
            }
            i = i + 1;
        }
        proof {
            assert(s@.subrange(0, n as int) =~= s@);
        }
        res
    }

    /// The rotation of the other sense.
    pub fn invert(self) -> (res: Rotation)
        ensures
            res == opposite(self),
    {
        match self {
            Rotation::Left => Rotation::Right,
            Rotation::Right => Rotation::Left,
        }
    }
}

/// Four turns of the same sense bring the ant back to its heading.
pub proof fn lemma_four_turns_identity(d: Direction, r: Rotation)
    ensures
        turned(turned(turned(turned(d, r), r), r), r) == d,
{
}

/// A clockwise turn followed by a counter-clockwise one changes nothing.
pub proof fn lemma_right_then_left_cancel(d: Direction)
    ensures
        turned(turned(d, Rotation::Right), Rotation::Left) == d,
{
}

/// Inverting a rotation twice gives the rotation back.
pub proof fn lemma_invert_involution(r: Rotation)
    ensures
        opposite(opposite(r)) == r,
{
}

} // verus!
