//! What is told to the operator: lines for standard output and standard error.

use vstd::prelude::*;

verus! {

/// A piece of output.
#[derive(Debug, Clone, PartialEq, Eq)]
pub enum Line {
    /// A line of standard output.
    Out(String),
    /// A part of a line of standard output, which more text follows.
    Part(String),
    /// A line of standard error.
    Warn(String),
}

/// The model of a [`Line`].
#[verifier::ext_equal]
pub enum LineView {
    Out(Seq<char>),
    Part(Seq<char>),
    Warn(Seq<char>),
}

impl View for Line {
    type V = LineView;

    open spec fn view(&self) -> LineView {
        match *self {
            Line::Out(s) => LineView::Out(s@),
            Line::Part(s) => LineView::Part(s@),
            Line::Warn(s) => LineView::Warn(s@),
        }
    }
}

/// The models of a list of lines.
pub open spec fn line_views(v: Seq<Line>) -> Seq<LineView> {
    v.map_values(|l: Line| l@)
}

/// The models of a list that got one line more.
pub broadcast proof fn lemma_lines_push(v: Seq<Line>, l: Line)
    ensures
        #[trigger] line_views(v.push(l)) == line_views(v).push(l@),
{
    assert(line_views(v.push(l)) =~= line_views(v).push(l@));
}

/// No output.
pub fn no_lines() -> (r: Vec<Line>)
    ensures
        line_views(r@) == Seq::<LineView>::empty(),
{
    let r: Vec<Line> = Vec::new();
    assert(line_views(r@) =~= Seq::<LineView>::empty());
    r
}

/// One piece of output.
pub fn one_line(l: Line) -> (r: Vec<Line>)
    ensures
        line_views(r@) == seq![l@],
{
    let mut r: Vec<Line> = Vec::new();
    r.push(l);
    assert(line_views(r@) =~= seq![l@]);
    r
}

/// Two pieces of output.
pub fn two_lines(a: Line, b: Line) -> (r: Vec<Line>)
    ensures
        line_views(r@) == seq![a@, b@],
{
    let mut r: Vec<Line> = Vec::new();
    r.push(a);
    r.push(b);
    assert(line_views(r@) =~= seq![a@, b@]);
    r
}

/// The models of lines: each line keeps its text and where it goes, and a list of lines is modelled
/// one by one.
pub proof fn law_line_models(l: Line, v: Seq<Line>, i: int)
    ensures
        match l {
            Line::Out(text) => l@ == LineView::Out(text@),
            Line::Part(text) => l@ == LineView::Part(text@),
            Line::Warn(text) => l@ == LineView::Warn(text@),
        },
        line_views(v).len() == v.len(),
        0 <= i < v.len() ==> line_views(v)[i] == v[i]@,
{
}

} // verus!
