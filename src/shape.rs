use vstd::prelude::*;
use rand::Rng;

verus! {

/// The seven tetromino shapes.
#[derive(Clone, Copy, Debug, PartialEq, Eq, Structural, Hash)]
pub enum Shape {
    IBlock,
    LBlock,
    JBlock,
    SBlock,
    ZBlock,
    TBlock,
    OBlock,
}

/// Number of distinct shapes.
pub const SHAPE_COUNT: u8 = 7;

/// The shape that stands at position `n` of the catalog order.
pub open spec fn shape_at(n: int) -> Shape {
    if n == 0 {
        Shape::IBlock
    } else if n == 1 {
        Shape::LBlock
    } else if n == 2 {
        Shape::JBlock
    } else if n == 3 {
        Shape::SBlock
    } else if n == 4 {
        Shape::ZBlock
    } else if n == 5 {
        Shape::TBlock
    } else {
        Shape::OBlock
    }
}

/// Relies on rand's `thread_rng` and `Rng::gen_range` over the half-open
/// range `0..7`, which yields a value inside that range.
#[verifier::external_body]
fn draw_below_seven() -> (r: u8)
    ensures
        r < 7,
{
    rand::thread_rng().gen_range(0..7u8)
}

impl Shape {
    /// The shape at catalog position `n`; every `n` below `SHAPE_COUNT`
    /// names a different shape, so a uniform `n` gives a uniform shape.
    pub fn from_index(n: u8) -> (r: Shape)
        requires
            n < SHAPE_COUNT,
        ensures
            r == shape_at(n as int),
    {
        match n {
            0 => Shape::IBlock,
            1 => Shape::LBlock,
            2 => Shape::JBlock,
            3 => Shape::SBlock,
            4 => Shape::ZBlock,
            5 => Shape::TBlock,
            _ => Shape::OBlock,
        }
    }

    /// A shape drawn uniformly from all seven.
    pub fn random() -> (r: Shape)
        ensures
            exists|n: int| 0 <= n < SHAPE_COUNT && r == shape_at(n),
    {
        let n = draw_below_seven();
        Shape::from_index(n)
    }
}

} // verus!
