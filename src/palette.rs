use vstd::prelude::*;

verus! {

/// How far apart, per channel, two colours are told apart by `same_color`.
pub const THRESHOLD: u8 = 100;

/// A colour as its red, green and blue channels.
#[derive(Clone, Copy, Debug, PartialEq, Eq, Structural)]
pub struct Rgb {
    pub r: u8,
    pub g: u8,
    pub b: u8,
}

/// `a + b`, capped at the largest `u8`.
pub open spec fn capped_sum(a: u8, b: u8) -> u8 {
    if a as int + b as int > u8::MAX {
        u8::MAX
    } else {
        (a + b) as u8
    }
}

/// The test that `same_color` makes on one channel.
pub open spec fn channel_match(a: u8, b: u8) -> bool {
    capped_sum(a, THRESHOLD) < b && a > capped_sum(b, THRESHOLD)
}

/// The test that `same_color` makes, over all three channels.
pub open spec fn colors_match(a: Rgb, b: Rgb) -> bool {
    channel_match(a.r, b.r) || channel_match(a.g, b.g) || channel_match(a.b, b.b)
}

/// Adds two channel values, saturating at the largest `u8`.
pub fn add_u8(a: u8, b: u8) -> (c: u8)
    ensures
        c == capped_sum(a, b),
{
    let c: u16 = a as u16 + b as u16;
    if c > u8::MAX as u16 {
        u8::MAX
    } else {
        c as u8
    }
}

/// Whether two colours count as the same when a new one is picked.
pub fn same_color(a: &Rgb, b: &Rgb) -> (res: bool)
    ensures
        res == colors_match(*a, *b),
{
    (add_u8(a.r, THRESHOLD) < b.r && a.r > add_u8(b.r, THRESHOLD)) || (add_u8(a.g, THRESHOLD) < b.g
        && a.g > add_u8(b.g, THRESHOLD)) || (add_u8(a.b, THRESHOLD) < b.b && a.b > add_u8(
        b.b,
        THRESHOLD,
    ))
}

/// Whether `candidate` counts as the same as any colour of `taken`.
pub fn clashes(candidate: &Rgb, taken: &Vec<Rgb>) -> (res: bool)
    ensures
        res == exists|i: int| 0 <= i < taken@.len() && colors_match(#[trigger] taken@[i], *candidate),
{
    let mut i: usize = 0;
    while i < taken.len()
        invariant
            i <= taken@.len(),
            forall|k: int| 0 <= k < i ==> !colors_match(#[trigger] taken@[k], *candidate),
        decreases taken@.len() - i,
    {
        if same_color(&taken[i], candidate) {
            return true;
        }
        i = i + 1;
    }
    false
}

} // verus!
