//! Configuration surface of the generator: the shape drawn per sample,
//! the layout the samples sit on, and the palette and output flags.
use vstd::prelude::*;
use vstd::string::StringExecFns;
use crate::sampling::PixelGrid;

verus! {

broadcast use vstd::string::group_string_axioms;

/// The shape drawn for one halftone sample.
#[derive(Copy, Clone, PartialEq, Eq, Structural, Debug)]
pub enum Shape {
    Circle,
    Hex,
    Diamond,
}

/// The spatial distribution the samples are laid out on.
#[derive(Copy, Clone, PartialEq, Eq, Structural, Debug)]
pub enum Grid {
    Rect,
    Hex,
    Diamond,
    Poisson,
}

/// The shape best suited to a layout: matching polygon for the offset
/// tilings, circles elsewhere.
pub open spec fn shape_for_grid(grid: Grid) -> Shape {
    match grid {
        Grid::Rect => Shape::Circle,
        Grid::Hex => Shape::Hex,
        Grid::Diamond => Shape::Diamond,
        Grid::Poisson => Shape::Circle,
    }
}

/// The layout best suited to a shape.
pub open spec fn grid_for_shape(shape: Shape) -> Grid {
    match shape {
        Shape::Circle => Grid::Rect,
        Shape::Hex => Grid::Hex,
        Shape::Diamond => Grid::Diamond,
    }
}

impl From<Grid> for Shape {
    fn from(grid: Grid) -> (r: Self) {
        match grid {
            Grid::Rect => Shape::Circle,
            Grid::Hex => Shape::Hex,
            Grid::Diamond => Shape::Diamond,
            Grid::Poisson => Shape::Circle,
        }
    }
}

impl vstd::std_specs::convert::FromSpecImpl<Grid> for Shape {
    open spec fn obeys_from_spec() -> bool {
        true
    }

    open spec fn from_spec(grid: Grid) -> Shape {
        shape_for_grid(grid)
    }
}

impl From<Shape> for Grid {
    fn from(shape: Shape) -> (r: Self) {
        match shape {
            Shape::Circle => Grid::Rect,
            Shape::Hex => Grid::Hex,
            Shape::Diamond => Grid::Diamond,
        }
    }
}

impl vstd::std_specs::convert::FromSpecImpl<Shape> for Grid {
    open spec fn obeys_from_spec() -> bool {
        true
    }

    open spec fn from_spec(shape: Shape) -> Grid {
        grid_for_shape(shape)
    }
}

impl Shape {
    /// Parses a shape name: exactly "circle", "hex" or "diamond"; any
    /// other string is rejected with a message naming it.
    pub fn from_str(s: &str) -> (r: Result<Shape, String>)
        ensures
            s@ == "diamond"@ ==> r == Result::<Shape, String>::Ok(Shape::Diamond),
            s@ == "hex"@ ==> r == Result::<Shape, String>::Ok(Shape::Hex),
            s@ == "circle"@ ==> r == Result::<Shape, String>::Ok(Shape::Circle),
            r is Ok <==> (s@ == "diamond"@ || s@ == "hex"@ || s@ == "circle"@),
            r is Err ==> r->Err_0@ == "no shape type named '"@ + s@ + "'"@,
    {
        proof {
            reveal_strlit("diamond");
            reveal_strlit("hex");
            reveal_strlit("circle");
            assert("diamond"@.len() == 7);
            assert("hex"@.len() == 3);
            assert("circle"@.len() == 6);
        }
        let owned = s.to_owned();
        if owned == String::from_str("diamond") {
            Ok(Shape::Diamond)
        } else if owned == String::from_str("hex") {
            Ok(Shape::Hex)
        } else if owned == String::from_str("circle") {
            Ok(Shape::Circle)
        } else {
            let mut msg = String::from_str("no shape type named '");
            msg.append(s);
            msg.append("'");
            Err(msg)
        }
    }
}

impl Grid {
    /// Parses a layout name: exactly "rect", "hex", "diamond" or
    /// "poisson"; any other string is rejected with a message naming it.
    pub fn from_str(s: &str) -> (r: Result<Grid, String>)
        ensures
            s@ == "rect"@ ==> r == Result::<Grid, String>::Ok(Grid::Rect),
            s@ == "hex"@ ==> r == Result::<Grid, String>::Ok(Grid::Hex),
            s@ == "diamond"@ ==> r == Result::<Grid, String>::Ok(Grid::Diamond),
            s@ == "poisson"@ ==> r == Result::<Grid, String>::Ok(Grid::Poisson),
            r is Ok <==> (s@ == "rect"@ || s@ == "hex"@ || s@ == "diamond"@ || s@
                == "poisson"@),
            r is Err ==> r->Err_0@ == "no grid type named '"@ + s@ + "'"@,
    {
        proof {
            reveal_strlit("rect");
            reveal_strlit("hex");
            reveal_strlit("diamond");
            reveal_strlit("poisson");
            assert("rect"@.len() == 4);
            assert("hex"@.len() == 3);
            assert("diamond"@.len() == 7);
            assert("poisson"@.len() == 7);
            assert("diamond"@[0] == 'd' && "poisson"@[0] == 'p');
        }
        let owned = s.to_owned();
        if owned == String::from_str("rect") {
            Ok(Grid::Rect)
        } else if owned == String::from_str("hex") {
            Ok(Grid::Hex)
        } else if owned == String::from_str("diamond") {
            Ok(Grid::Diamond)
        } else if owned == String::from_str("poisson") {
            Ok(Grid::Poisson)
        } else {
            let mut msg = String::from_str("no grid type named '");
            msg.append(s);
            msg.append("'");
            Err(msg)
        }
    }
}

/// Everything one generation run consumes. The pixel source arrives
/// already decoded (and, where asked for, inverted or
/// contrast-adjusted); the invert flag here only selects the palette.
pub struct Options {
    pub image: PixelGrid,
    pub output_width: i64,
    pub spacing: i64,
    pub shape: Shape,
    pub grid: Grid,
    pub invert: bool,
    pub cut_paths: bool,
    pub multi_sample: bool,
}

} // verus!
