//! Turning the path of a `Path` element into the data that the renderer draws.

use vstd::prelude::*;

use crate::expression_tree::{PathEvent, PathPoint};

verus! {

/// What a step of a path given as events does.
#[derive(Debug, Clone, Copy, PartialEq, Eq, Structural)]
pub enum PathEventKind {
    Begin,
    Line,
    Quadratic,
    Cubic,
    EndClosed,
    EndOpen,
}

/// A path as the renderer draws it: the kind of each step, and the points that the
/// steps use, one after the other.
#[derive(Debug)]
pub struct PathEvents {
    pub events: Vec<PathEventKind>,
    pub coordinates: Vec<PathPoint>,
}

/// What a step of a path does.
pub open spec fn event_kind(e: PathEvent) -> PathEventKind {
    match e {
        PathEvent::Begin { .. } => PathEventKind::Begin,
        PathEvent::Line { .. } => PathEventKind::Line,
        PathEvent::Quadratic { .. } => PathEventKind::Quadratic,
        PathEvent::Cubic { .. } => PathEventKind::Cubic,
        PathEvent::End { close, .. } => if close {
            PathEventKind::EndClosed
        } else {
            PathEventKind::EndOpen
        },
    }
}

/// The points that a step of a path uses, in order.
pub open spec fn event_points(e: PathEvent) -> Seq<PathPoint> {
    match e {
        PathEvent::Begin { at } => seq![at],
        PathEvent::Line { from, to } => seq![from, to],
        PathEvent::Quadratic { from, ctrl, to } => seq![from, ctrl, to],
        PathEvent::Cubic { from, ctrl1, ctrl2, to } => seq![from, ctrl1, ctrl2, to],
        PathEvent::End { .. } => Seq::empty(),
    }
}

/// The points that the steps of a path use, one step after the other.
pub open spec fn path_coordinates(events: Seq<PathEvent>) -> Seq<PathPoint>
    decreases events.len(),
{
    if events.len() == 0 {
        Seq::empty()
    } else {
        path_coordinates(events.subrange(0, events.len() - 1)) + event_points(
            events[events.len() - 1],
        )
    }
}

/// The points of a path made of two paths one after the other are the points of the
/// first followed by those of the second: each step contributes its own points.
pub proof fn law_path_coordinates_concat(a: Seq<PathEvent>, b: Seq<PathEvent>)
    ensures
        path_coordinates(a + b) == path_coordinates(a) + path_coordinates(b),
    decreases b.len(),
{
    if b.len() == 0 {
        assert(a + b =~= a);
        assert(path_coordinates(a) + path_coordinates(b) =~= path_coordinates(a));
    } else {
        let n = b.len() - 1;
        let b0 = b.subrange(0, n);
        law_path_coordinates_concat(a, b0);
        let ab = a + b;
        assert(ab.subrange(0, ab.len() - 1) =~= a + b0);
        assert(ab[ab.len() - 1] == b[n]);
        assert(path_coordinates(a) + path_coordinates(b) =~= (path_coordinates(a)
            + path_coordinates(b0)) + event_points(b[n]));
    }
}

/// A step contributes its points in order: a begin its point; a line its start and
/// end; a quadratic curve its start, control point and end; a cubic curve its start,
/// first control point, second control point and end; an end of the path no point.
/// The kind of an end tells whether it closes the path.
pub proof fn law_step_points_and_kind(prefix: Seq<PathEvent>, e: PathEvent)
    ensures
        path_coordinates(prefix.push(e)) == path_coordinates(prefix) + match e {
            PathEvent::Begin { at: start } => seq![start],
            PathEvent::Line { from: start, to: end } => seq![start, end],
            PathEvent::Quadratic { from: start, ctrl: c, to: end } => seq![start, c, end],
            PathEvent::Cubic { from: start, ctrl1: c1, ctrl2: c2, to: end } => seq![start, c1, c2, end],
            PathEvent::End { .. } => Seq::<PathPoint>::empty(),
        },
        event_kind(e) == match e {
            PathEvent::Begin { .. } => PathEventKind::Begin,
            PathEvent::Line { .. } => PathEventKind::Line,
            PathEvent::Quadratic { .. } => PathEventKind::Quadratic,
            PathEvent::Cubic { .. } => PathEventKind::Cubic,
            PathEvent::End { close: true, .. } => PathEventKind::EndClosed,
            PathEvent::End { close: false, .. } => PathEventKind::EndOpen,
        },
{
    let s = prefix.push(e);
    assert(s.subrange(0, s.len() - 1) =~= prefix);
}

/// The points of a path, step by step: the points of the first `k` steps are followed
/// by those of step `k` as [`law_step_points_and_kind`] gives them; for a cubic step,
/// its first control point comes right after its start and its second control point
/// right after the first.
pub proof fn law_cubic_control_points(events: Seq<PathEvent>, k: int)
    requires
        0 <= k < events.len(),
        events[k] is Cubic,
    ensures
        ({
            let base = path_coordinates(events.subrange(0, k)).len() as int;
            let c = path_coordinates(events);
            &&& c[base] == events[k]->Cubic_from
            &&& c[base + 1] == events[k]->ctrl1
            &&& c[base + 2] == events[k]->ctrl2
            &&& c[base + 3] == events[k]->Cubic_to
        }),
{
    let a = events.subrange(0, k);
    let b = events.subrange(k, events.len() as int);
    assert(events =~= a + b);
    law_path_coordinates_concat(a, b);
    let b1 = b.subrange(1, b.len() as int);
    assert(b =~= seq![events[k]] + b1);
    law_path_coordinates_concat(seq![events[k]], b1);
    law_step_points_and_kind(Seq::empty(), events[k]);
    assert(Seq::<PathEvent>::empty().push(events[k]) =~= seq![events[k]]);
    assert(path_coordinates(Seq::<PathEvent>::empty()) =~= Seq::<PathPoint>::empty());
}

/// Converts a path given as events into the kinds of its steps and the points that
/// they use.
pub fn convert_from_lyon_path(events: &Vec<PathEvent>) -> (r: PathEvents)
    ensures
        r.events@ == events@.map_values(|e: PathEvent| event_kind(e)),
        r.coordinates@ == path_coordinates(events@),
{
    let mut kinds: Vec<PathEventKind> = Vec::new();
    let mut coordinates: Vec<PathPoint> = Vec::new();
    let mut i: usize = 0;
    while i < events.len()
        invariant
            0 <= i <= events.len(),
            kinds@ == events@.subrange(0, i as int).map_values(|e: PathEvent| event_kind(e)),
            coordinates@ == path_coordinates(events@.subrange(0, i as int)),
        decreases events.len() - i,
    {
        let ghost before = coordinates@;
        let kind = match events[i] {
            PathEvent::Begin { at } => {
                coordinates.push(at);
                PathEventKind::Begin
            },
            PathEvent::Line { from, to } => {
                coordinates.push(from);
                coordinates.push(to);
                PathEventKind::Line
            },
            PathEvent::Quadratic { from, ctrl, to } => {
                coordinates.push(from);
                coordinates.push(ctrl);
                coordinates.push(to);
                PathEventKind::Quadratic
            },
            PathEvent::Cubic { from, ctrl1, ctrl2, to } => {
                coordinates.push(from);
                coordinates.push(ctrl1);
                coordinates.push(ctrl2);
                coordinates.push(to);
                PathEventKind::Cubic
            },
            PathEvent::End { close, .. } => {
                if close {
                    PathEventKind::EndClosed
                } else {
                    PathEventKind::EndOpen
                }
            },
        };
        kinds.push(kind);
        assert(events@.subrange(0, i + 1).subrange(0, i as int) =~= events@.subrange(0, i as int));
        assert(coordinates@ =~= before + event_points(events@[i as int]));
        assert(kinds@ =~= events@.subrange(0, i + 1).map_values(|e: PathEvent| event_kind(e)));
        i += 1;
    }
    assert(events@.subrange(0, events.len() as int) =~= events@);
    PathEvents { events: kinds, coordinates }
}

/// The kinds of element that a path can be built of.
#[derive(Debug, Clone, Copy, PartialEq, Eq, Structural)]
pub enum PathElementKind {
    LineTo,
    ArcTo,
    Close,
}

/// The kind of path element of a builtin element class, if it is one.
pub open spec fn spec_path_element_kind(class_name: Seq<char>) -> Option<PathElementKind> {
    if class_name == seq!['L', 'i', 'n', 'e', 'T', 'o'] {
        Some(PathElementKind::LineTo)
    } else if class_name == seq!['A', 'r', 'c', 'T', 'o'] {
        Some(PathElementKind::ArcTo)
    } else if class_name == seq!['C', 'l', 'o', 's', 'e'] {
        Some(PathElementKind::Close)
    } else {
        None
    }
}

/// The kind of path element of a builtin element class; `None` for a class that is
/// not a path element.
pub fn path_element_kind(class_name: &String) -> (k: Option<PathElementKind>)
    ensures
        k == spec_path_element_kind(class_name@),
{
    let line_to = String::from_str("LineTo");
    let arc_to = String::from_str("ArcTo");
    let close = String::from_str("Close");
    proof {
        reveal_strlit("LineTo");
        reveal_strlit("ArcTo");
        reveal_strlit("Close");
        assert(line_to@ =~= seq!['L', 'i', 'n', 'e', 'T', 'o']);
        assert(arc_to@ =~= seq!['A', 'r', 'c', 'T', 'o']);
        assert(close@ =~= seq!['C', 'l', 'o', 's', 'e']);
    }
    if *class_name == line_to {
        Some(PathElementKind::LineTo)
    } else if *class_name == arc_to {
        Some(PathElementKind::ArcTo)
    } else if *class_name == close {
        Some(PathElementKind::Close)
    } else {
        None
    }
}

} // verus!
