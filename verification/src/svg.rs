//! Vector-markup elements: a minimal element tree, fixed-point decimal
//! rendering of coordinates, and the builders for the shapes and groups
//! the generator emits.
use vstd::prelude::*;
use vstd::string::StringExecFns;
use crate::geom::Point;
use crate::DIM_LIMIT;

verus! {

broadcast use vstd::string::group_string_axioms;

/// The character of one decimal digit.
pub open spec fn digit_char(d: int) -> char {
    if d == 0 {
        '0'
    } else if d == 1 {
        '1'
    } else if d == 2 {
        '2'
    } else if d == 3 {
        '3'
    } else if d == 4 {
        '4'
    } else if d == 5 {
        '5'
    } else if d == 6 {
        '6'
    } else if d == 7 {
        '7'
    } else if d == 8 {
        '8'
    } else {
        '9'
    }
}

/// The decimal digits of a non-negative integer, most significant first.
pub open spec fn spec_digits(n: int) -> Seq<char>
    decreases n,
{
    if n < 10 {
        seq![digit_char(n)]
    } else {
        spec_digits(n / 10).push(digit_char(n % 10))
    }
}

/// A milli-unit value as a decimal numeral with three fraction digits:
/// sign, integer part, '.', and the zero-padded thousandths.
pub open spec fn spec_dec3(v: int) -> Seq<char> {
    let a = if v < 0 {
        -v
    } else {
        v
    };
    let sign: Seq<char> = if v < 0 {
        seq!['-']
    } else {
        Seq::empty()
    };
    sign + spec_digits(a / 1000) + seq!['.'] + seq![
        digit_char(a % 1000 / 100),
        digit_char(a % 1000 / 10 % 10),
        digit_char(a % 1000 % 10),
    ]
}

/// One digit as markup text.
fn digit_str(d: u64) -> (r: &'static str)
    requires
        d < 10,
    ensures
        r@ == seq![digit_char(d as int)],
        r@.len() == 1,
{
    proof {
        reveal_strlit("0");
        reveal_strlit("1");
        reveal_strlit("2");
        reveal_strlit("3");
        reveal_strlit("4");
        reveal_strlit("5");
        reveal_strlit("6");
        reveal_strlit("7");
        reveal_strlit("8");
        reveal_strlit("9");
    }
    let r: &'static str = if d == 0 {
        "0"
    } else if d == 1 {
        "1"
    } else if d == 2 {
        "2"
    } else if d == 3 {
        "3"
    } else if d == 4 {
        "4"
    } else if d == 5 {
        "5"
    } else if d == 6 {
        "6"
    } else if d == 7 {
        "7"
    } else if d == 8 {
        "8"
    } else {
        "9"
    };
    proof {
        assert(r@.len() == 1);
        assert(r@ =~= seq![digit_char(d as int)]);
    }
    r
}

/// The decimal numeral of a non-negative integer.
fn digits_string(n: u64) -> (r: String)
    requires
        n <= 0xFFFF_FFFF_FFFF,
    ensures
        r@ == spec_digits(n as int),
    decreases n,
{
    if n < 10 {
        digit_str(n).to_owned()
    } else {
        let mut s = digits_string(n / 10);
        s.append(digit_str(n % 10));
        proof {
            assert(s@ =~= spec_digits(n as int));
        }
        s
    }
}

/// Renders a milli-unit value as a decimal numeral with exactly three
/// fraction digits, e.g. 12345 as "12.345" and -80 as "-0.080".
pub fn dec3(v: i64) -> (r: String)
    requires
        -4 * DIM_LIMIT <= v <= 4 * DIM_LIMIT,
    ensures
        r@ == spec_dec3(v as int),
{
    let a: u64 = if v < 0 {
        (-v) as u64
    } else {
        v as u64
    };
    let mut s: String = if v < 0 {
        proof {
            reveal_strlit("-");
        }
        "-".to_owned()
    } else {
        String::new()
    };
    let whole = digits_string(a / 1000);
    s.append(whole.as_str());
    proof {
        reveal_strlit(".");
    }
    s.append(".");
    let frac = a % 1000;
    s.append(digit_str(frac / 100));
    s.append(digit_str(frac / 10 % 10));
    s.append(digit_str(frac % 10));
    proof {
        assert(s@ =~= spec_dec3(v as int));
    }
    s
}

/// One node of the output markup: a named element with attributes and
/// child elements.
pub struct Element {
    pub name: &'static str,
    pub attributes: Vec<(&'static str, String)>,
    pub children: Vec<Element>,
}

/// One attribute as markup text: ` name="value"`.
pub open spec fn spec_attr_markup(a: (&str, String)) -> Seq<char> {
    " "@ + a.0@ + "=\""@ + a.1@ + "\""@
}

/// A whole attribute list as markup text, in order.
pub open spec fn spec_attrs_markup(attrs: Seq<(&str, String)>) -> Seq<char>
    decreases attrs.len(),
{
    if attrs.len() == 0 {
        Seq::empty()
    } else {
        spec_attrs_markup(attrs.drop_last()) + spec_attr_markup(attrs.last())
    }
}

/// The markup text of an element: `\n<name attrs/>` when childless,
/// `\n<name attrs>children</name>` otherwise.
pub open spec fn spec_markup(e: Element) -> Seq<char>
    decreases e,
{
    let open_part = "\n<"@ + e.name@ + spec_attrs_markup(e.attributes@);
    if e.children@.len() == 0 {
        open_part + "/>"@
    } else {
        open_part + ">"@ + spec_children_markup(e.children@) + "</"@ + e.name@ + ">"@
    }
}

/// The concatenated markup of a list of elements, in order.
pub open spec fn spec_children_markup(children: Seq<Element>) -> Seq<char>
    decreases children, children.len(),
{
    if children.len() == 0 {
        Seq::empty()
    } else {
        spec_children_markup(children.drop_last()) + spec_markup(children.last())
    }
}

impl Element {
    /// Serializes the element tree to markup text, exactly as
    /// `spec_markup` lays it down.
    pub fn to_markup(&self) -> (r: String)
        ensures
            r@ == spec_markup(*self),
        decreases *self,
    {
        proof {
            reveal_strlit("\n<");
            reveal_strlit("/>");
            reveal_strlit(">");
            reveal_strlit("</");
        }
        let mut out = "\n<".to_owned();
        out.append(self.name);
        let mut i: usize = 0;
        while i < self.attributes.len()
            invariant
                i <= self.attributes@.len(),
                out@ == "\n<"@ + self.name@ + spec_attrs_markup(self.attributes@.take(i as int)),
            decreases self.attributes@.len() - i,
        {
            proof {
                reveal_strlit(" ");
                reveal_strlit("=\"");
                reveal_strlit("\"");
            }
            let attr_name: &'static str = self.attributes[i].0;
            out.append(" ");
            out.append(attr_name);
            out.append("=\"");
            let val: &str = self.attributes[i].1.as_str();
            out.append(val);
            out.append("\"");
            proof {
                let taken = self.attributes@.take(i + 1);
                assert(taken.drop_last() =~= self.attributes@.take(i as int));
                assert(taken.last() == self.attributes@[i as int]);
                assert(out@ =~= "\n<"@ + self.name@ + spec_attrs_markup(taken));
            }
            i = i + 1;
        }
        proof {
            assert(self.attributes@.take(self.attributes@.len() as int) =~= self.attributes@);
        }
        if self.children.len() == 0 {
            out.append("/>");
            proof {
                assert(out@ =~= spec_markup(*self));
            }
            out
        } else {
            out.append(">");
            let mut j: usize = 0;
            while j < self.children.len()
                invariant
                    j <= self.children@.len(),
                    out@ == "\n<"@ + self.name@ + spec_attrs_markup(self.attributes@) + ">"@
                        + spec_children_markup(self.children@.take(j as int)),
                decreases self.children@.len() - j,
            {
                let child_markup = self.children[j].to_markup();
                out.append(child_markup.as_str());
                proof {
                    let taken = self.children@.take(j + 1);
                    assert(taken.drop_last() =~= self.children@.take(j as int));
                    assert(taken.last() == self.children@[j as int]);
                    assert(out@ =~= "\n<"@ + self.name@ + spec_attrs_markup(self.attributes@)
                        + ">"@ + spec_children_markup(taken));
                }
                j = j + 1;
            }
            proof {
                assert(self.children@.take(self.children@.len() as int) =~= self.children@);
            }
            out.append("</");
            out.append(self.name);
            out.append(">");
            proof {
                assert(out@ =~= spec_markup(*self));
            }
            out
        }
    }
}

/// A coordinate pair as markup text: `x,y`.
pub open spec fn spec_pair(x: int, y: int) -> Seq<char> {
    spec_dec3(x) + ","@ + spec_dec3(y)
}

/// The corner points of a diamond of circumradius r around (cx, cy):
/// top, right, bottom, left.
pub open spec fn spec_diamond_points(cx: int, cy: int, r: int) -> Seq<char> {
    spec_pair(cx, cy - r) + " "@ + spec_pair(cx + r, cy) + " "@ + spec_pair(cx, cy + r) + " "@
        + spec_pair(cx - r, cy)
}

/// Corner i (1-based, counter-clockwise from 30 degrees) of a hexagon of
/// circumradius r around (cx, cy), with sqrt(3)/2 as the fixed-point
/// ratio 866/1000.
pub open spec fn spec_hex_corner(cx: int, cy: int, r: int, i: int) -> Point {
    let hx = r * 866 / 1000;
    let hy = r / 2;
    if i == 1 {
        Point { x: (cx + hx) as i64, y: (cy + hy) as i64 }
    } else if i == 2 {
        Point { x: cx as i64, y: (cy + r) as i64 }
    } else if i == 3 {
        Point { x: (cx - hx) as i64, y: (cy + hy) as i64 }
    } else if i == 4 {
        Point { x: (cx - hx) as i64, y: (cy - hy) as i64 }
    } else if i == 5 {
        Point { x: cx as i64, y: (cy - r) as i64 }
    } else {
        Point { x: (cx + hx) as i64, y: (cy - hy) as i64 }
    }
}

/// The six hexagon corners as markup text, each pair followed by a space.
pub open spec fn spec_hex_points(cx: int, cy: int, r: int) -> Seq<char> {
    let c1 = spec_hex_corner(cx, cy, r, 1);
    let c2 = spec_hex_corner(cx, cy, r, 2);
    let c3 = spec_hex_corner(cx, cy, r, 3);
    let c4 = spec_hex_corner(cx, cy, r, 4);
    let c5 = spec_hex_corner(cx, cy, r, 5);
    let c6 = spec_hex_corner(cx, cy, r, 6);
    spec_pair(c1.x as int, c1.y as int) + " "@ + spec_pair(c2.x as int, c2.y as int) + " "@
        + spec_pair(c3.x as int, c3.y as int) + " "@ + spec_pair(c4.x as int, c4.y as int) + " "@
        + spec_pair(c5.x as int, c5.y as int) + " "@ + spec_pair(c6.x as int, c6.y as int) + " "@
}

/// Coordinates a shape builder accepts: inside twice the machine bound,
/// with a non-negative radius no larger than the bound.
pub open spec fn shape_args_ok(cx: i64, cy: i64, r: i64) -> bool {
    &&& -2 * DIM_LIMIT <= cx <= 2 * DIM_LIMIT
    &&& -2 * DIM_LIMIT <= cy <= 2 * DIM_LIMIT
    &&& 0 <= r <= DIM_LIMIT
}

/// Renders `x,y` for a coordinate pair.
fn pair_string(x: i64, y: i64) -> (r: String)
    requires
        -4 * DIM_LIMIT <= x <= 4 * DIM_LIMIT,
        -4 * DIM_LIMIT <= y <= 4 * DIM_LIMIT,
    ensures
        r@ == spec_pair(x as int, y as int),
{
    proof {
        reveal_strlit(",");
    }
    let mut s = dec3(x);
    s.append(",");
    let ys = dec3(y);
    s.append(ys.as_str());
    s
}

/// A circle element of radius r around (cx, cy).
pub fn circle(cx: i64, cy: i64, r: i64) -> (e: Element)
    requires
        shape_args_ok(cx, cy, r),
    ensures
        e.name@ == "circle"@,
        e.attributes@.len() == 3,
        e.attributes@[0].0@ == "cx"@ && e.attributes@[0].1@ == spec_dec3(cx as int),
        e.attributes@[1].0@ == "cy"@ && e.attributes@[1].1@ == spec_dec3(cy as int),
        e.attributes@[2].0@ == "r"@ && e.attributes@[2].1@ == spec_dec3(r as int),
        e.children@.len() == 0,
{
    Element {
        name: "circle",
        attributes: vec![("cx", dec3(cx)), ("cy", dec3(cy)), ("r", dec3(r))],
        children: Vec::new(),
    }
}

/// A diamond: a four-point polygon of circumradius r around (cx, cy).
pub fn diamond(cx: i64, cy: i64, r: i64) -> (e: Element)
    requires
        shape_args_ok(cx, cy, r),
    ensures
        e.name@ == "polygon"@,
        e.attributes@.len() == 1,
        e.attributes@[0].0@ == "points"@,
        e.attributes@[0].1@ == spec_diamond_points(cx as int, cy as int, r as int),
        e.children@.len() == 0,
{
    proof {
        reveal_strlit(" ");
    }
    let mut points = pair_string(cx, cy - r);
    points.append(" ");
    let p2 = pair_string(cx + r, cy);
    points.append(p2.as_str());
    points.append(" ");
    let p3 = pair_string(cx, cy + r);
    points.append(p3.as_str());
    points.append(" ");
    let p4 = pair_string(cx - r, cy);
    points.append(p4.as_str());
    Element { name: "polygon", attributes: vec![("points", points)], children: Vec::new() }
}

/// One hexagon corner in fixed-point arithmetic.
fn hex_corner(cx: i64, cy: i64, r: i64, i: u8) -> (p: Point)
    requires
        shape_args_ok(cx, cy, r),
        1 <= i <= 6,
    ensures
        p == spec_hex_corner(cx as int, cy as int, r as int, i as int),
{
    let hx: i64 = r * 866 / 1000;
    let hy: i64 = r / 2;
    if i == 1 {
        Point { x: cx + hx, y: cy + hy }
    } else if i == 2 {
        Point { x: cx, y: cy + r }
    } else if i == 3 {
        Point { x: cx - hx, y: cy + hy }
    } else if i == 4 {
        Point { x: cx - hx, y: cy - hy }
    } else if i == 5 {
        Point { x: cx, y: cy - r }
    } else {
        Point { x: cx + hx, y: cy - hy }
    }
}

/// A hexagon: a six-point polygon of circumradius r around (cx, cy).
pub fn hex(cx: i64, cy: i64, r: i64) -> (e: Element)
    requires
        shape_args_ok(cx, cy, r),
    ensures
        e.name@ == "polygon"@,
        e.attributes@.len() == 1,
        e.attributes@[0].0@ == "points"@,
        e.attributes@[0].1@ == spec_hex_points(cx as int, cy as int, r as int),
        e.children@.len() == 0,
{
    proof {
        reveal_strlit(" ");
    }
    let mut points = String::new();
    let c1 = hex_corner(cx, cy, r, 1);
    points.append(pair_string(c1.x, c1.y).as_str());
    points.append(" ");
    let c2 = hex_corner(cx, cy, r, 2);
    points.append(pair_string(c2.x, c2.y).as_str());
    points.append(" ");
    let c3 = hex_corner(cx, cy, r, 3);
    points.append(pair_string(c3.x, c3.y).as_str());
    points.append(" ");
    let c4 = hex_corner(cx, cy, r, 4);
    points.append(pair_string(c4.x, c4.y).as_str());
    points.append(" ");
    let c5 = hex_corner(cx, cy, r, 5);
    points.append(pair_string(c5.x, c5.y).as_str());
    points.append(" ");
    let c6 = hex_corner(cx, cy, r, 6);
    points.append(pair_string(c6.x, c6.y).as_str());
    points.append(" ");
    proof {
        assert(points@ =~= spec_hex_points(cx as int, cy as int, r as int));
    }
    Element { name: "polygon", attributes: vec![("points", points)], children: Vec::new() }
}

/// A group element.
pub fn g(attributes: Vec<(&'static str, String)>, children: Vec<Element>) -> (e: Element)
    ensures
        e.name@ == "g"@,
        e.attributes == attributes,
        e.children == children,
{
    Element { name: "g", attributes, children }
}

/// The document root element.
pub fn svg(attributes: Vec<(&'static str, String)>, children: Vec<Element>) -> (e: Element)
    ensures
        e.name@ == "svg"@,
        e.attributes == attributes,
        e.children == children,
{
    Element { name: "svg", attributes, children }
}

/// A rectangle element.
pub fn rect(attributes: Vec<(&'static str, String)>, children: Vec<Element>) -> (e: Element)
    ensures
        e.name@ == "rect"@,
        e.attributes == attributes,
        e.children == children,
{
    Element { name: "rect", attributes, children }
}

/// Wraps the samples for cut output: one unfilled, hairline-stroked
/// group, no background.
pub fn cut_paths(samples: Vec<Element>) -> (r: Vec<Element>)
    ensures
        r@.len() == 1,
        r@[0].name@ == "g"@,
        r@[0].attributes@.len() == 3,
        r@[0].attributes@[0].0@ == "stroke-width"@ && r@[0].attributes@[0].1@ == "0.002mm"@,
        r@[0].attributes@[1].0@ == "stroke"@ && r@[0].attributes@[1].1@ == "black"@,
        r@[0].attributes@[2].0@ == "fill"@ && r@[0].attributes@[2].1@ == "none"@,
        r@[0].children == samples,
{
    vec![
        g(
            vec![
                ("stroke-width", "0.002mm".to_owned()),
                ("stroke", "black".to_owned()),
                ("fill", "none".to_owned()),
            ],
            samples,
        ),
    ]
}

/// Wraps the samples as light shapes over a dark background.
pub fn white_on_black(samples: Vec<Element>) -> (r: Vec<Element>)
    ensures
        r@.len() == 2,
        r@[0].name@ == "rect"@,
        r@[0].attributes@.len() == 3,
        r@[0].attributes@[0].0@ == "width"@ && r@[0].attributes@[0].1@ == "100%"@,
        r@[0].attributes@[1].0@ == "height"@ && r@[0].attributes@[1].1@ == "100%"@,
        r@[0].attributes@[2].0@ == "fill"@ && r@[0].attributes@[2].1@ == "black"@,
        r@[0].children@.len() == 0,
        r@[1].name@ == "g"@,
        r@[1].attributes@.len() == 1,
        r@[1].attributes@[0].0@ == "fill"@ && r@[1].attributes@[0].1@ == "white"@,
        r@[1].children == samples,
{
    vec![
        rect(
            vec![
                ("width", "100%".to_owned()),
                ("height", "100%".to_owned()),
                ("fill", "black".to_owned()),
            ],
            Vec::new(),
        ),
        g(vec![("fill", "white".to_owned())], samples),
    ]
}

/// Wraps the samples as dark shapes over a light background.
pub fn black_on_white(samples: Vec<Element>) -> (r: Vec<Element>)
    ensures
        r@.len() == 2,
        r@[0].name@ == "rect"@,
        r@[0].attributes@.len() == 3,
        r@[0].attributes@[0].0@ == "width"@ && r@[0].attributes@[0].1@ == "100%"@,
        r@[0].attributes@[1].0@ == "height"@ && r@[0].attributes@[1].1@ == "100%"@,
        r@[0].attributes@[2].0@ == "fill"@ && r@[0].attributes@[2].1@ == "white"@,
        r@[0].children@.len() == 0,
        r@[1].name@ == "g"@,
        r@[1].attributes@.len() == 1,
        r@[1].attributes@[0].0@ == "fill"@ && r@[1].attributes@[0].1@ == "black"@,
        r@[1].children == samples,
{
    vec![
        rect(
            vec![
                ("width", "100%".to_owned()),
                ("height", "100%".to_owned()),
                ("fill", "white".to_owned()),
            ],
            Vec::new(),
        ),
        g(vec![("fill", "black".to_owned())], samples),
    ]
}

} // verus!
