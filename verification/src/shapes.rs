use vstd::prelude::*;

verus! {

/// A type as the history of a workspace writes it down, read but not resolved.
#[derive(Debug)]
#[allow(inconsistent_fields)]
pub enum Rendered {
    /// What was not known.
    Hole,
    Named { name: String, args: Vec<Rendered> },
    Fn { params: Vec<Rendered>, ret: Box<Rendered> },
    Tuple(Vec<Rendered>),
    Record(Vec<(String, Rendered)>),
}

/// What a [`Rendered`] denotes.
#[verifier::ext_equal]
#[allow(inconsistent_fields)]
pub enum Shape {
    Hole,
    Named { name: Seq<char>, args: Seq<Shape> },
    Fn { params: Seq<Shape>, ret: Box<Shape> },
    Tuple(Seq<Shape>),
    Record(Seq<(Seq<char>, Shape)>),
}

impl Rendered {
    pub open spec fn view(&self) -> Shape
        decreases self,
    {
        match self {
            Rendered::Hole => Shape::Hole,
            Rendered::Named { name, args } => Shape::Named { name: name@, args: shapes(args@) },
            Rendered::Fn { params, ret } => Shape::Fn {
                params: shapes(params@),
                ret: Box::new(ret.view()),
            },
            Rendered::Tuple(elems) => Shape::Tuple(shapes(elems@)),
            Rendered::Record(fields) => Shape::Record(shape_fields(fields@)),
        }
    }
}

pub open spec fn shapes(ts: Seq<Rendered>) -> Seq<Shape>
    decreases ts,
{
    Seq::new(
        ts.len(),
        |i: int|
            if 0 <= i < ts.len() {
                ts[i].view()
            } else {
                Shape::Hole
            },
    )
}

pub open spec fn shape_fields(fs: Seq<(String, Rendered)>) -> Seq<(Seq<char>, Shape)>
    decreases fs,
{
    Seq::new(
        fs.len(),
        |i: int|
            if 0 <= i < fs.len() {
                (fs[i].0@, fs[i].1.view())
            } else {
                (Seq::empty(), Shape::Hole)
            },
    )
}

pub broadcast proof fn shapes_len(ts: Seq<Rendered>)
    ensures
        #[trigger] shapes(ts).len() == ts.len(),
{
}

pub broadcast proof fn shapes_index(ts: Seq<Rendered>, i: int)
    requires
        0 <= i < ts.len(),
    ensures
        #[trigger] shapes(ts)[i] == ts[i]@,
{
}

pub broadcast proof fn shape_fields_len(fs: Seq<(String, Rendered)>)
    ensures
        #[trigger] shape_fields(fs).len() == fs.len(),
{
}

pub broadcast proof fn shape_fields_index(fs: Seq<(String, Rendered)>, i: int)
    requires
        0 <= i < fs.len(),
    ensures
        #[trigger] shape_fields(fs)[i] == (fs[i].0@, fs[i].1@),
{
}

pub broadcast group group_shapes {
    shapes_len,
    shapes_index,
    shape_fields_len,
    shape_fields_index,
}

} // verus!
