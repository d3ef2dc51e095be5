use sixtyfps::expression_tree::{PathEvent, PathPoint};
use sixtyfps::path::{convert_from_lyon_path, path_element_kind, PathElementKind, PathEventKind};

fn p(x: f32, y: f32) -> PathPoint {
    PathPoint { x_bits: x.to_bits(), y_bits: y.to_bits() }
}

#[test]
fn events_and_their_points() {
    let events = vec![
        PathEvent::Begin { at: p(0.0, 0.0) },
        PathEvent::Line { from: p(0.0, 0.0), to: p(1.0, 0.0) },
        PathEvent::Quadratic { from: p(1.0, 0.0), ctrl: p(2.0, 1.0), to: p(1.0, 2.0) },
        PathEvent::Cubic { from: p(1.0, 2.0), ctrl1: p(0.5, 3.0), ctrl2: p(0.2, 2.0), to: p(0.0, 0.0) },
        PathEvent::End { last: p(0.0, 0.0), first: p(0.0, 0.0), close: true },
    ];
    let r = convert_from_lyon_path(&events);
    assert_eq!(
        r.events,
        vec![
            PathEventKind::Begin,
            PathEventKind::Line,
            PathEventKind::Quadratic,
            PathEventKind::Cubic,
            PathEventKind::EndClosed
        ]
    );
    assert_eq!(r.coordinates.len(), 1 + 2 + 3 + 4);
    assert_eq!(r.coordinates[0], p(0.0, 0.0));
    assert_eq!(r.coordinates[2], p(1.0, 0.0));
    assert_eq!(r.coordinates[4], p(2.0, 1.0));
    assert_eq!(r.coordinates[9], p(0.0, 0.0));
}

#[test]
fn open_end_and_empty_path() {
    let events = vec![
        PathEvent::Begin { at: p(1.0, 1.0) },
        PathEvent::End { last: p(1.0, 1.0), first: p(1.0, 1.0), close: false },
    ];
    let r = convert_from_lyon_path(&events);
    assert_eq!(r.events, vec![PathEventKind::Begin, PathEventKind::EndOpen]);
    assert_eq!(r.coordinates, vec![p(1.0, 1.0)]);
    let r = convert_from_lyon_path(&vec![]);
    assert!(r.events.is_empty());
    assert!(r.coordinates.is_empty());
}

#[test]
fn concatenated_paths_concatenate_points() {
    let a = vec![PathEvent::Begin { at: p(0.0, 0.0) }, PathEvent::Line { from: p(0.0, 0.0), to: p(1.0, 1.0) }];
    let b = vec![PathEvent::Begin { at: p(5.0, 5.0) }];
    let mut ab = a.clone();
    ab.extend(b.iter().cloned());
    let ra = convert_from_lyon_path(&a);
    let rb = convert_from_lyon_path(&b);
    let rab = convert_from_lyon_path(&ab);
    let mut joined = ra.coordinates.clone();
    joined.extend(rb.coordinates.iter().cloned());
    assert_eq!(rab.coordinates, joined);
}

#[test]
fn path_element_kinds() {
    assert_eq!(path_element_kind(&"LineTo".to_string()), Some(PathElementKind::LineTo));
    assert_eq!(path_element_kind(&"ArcTo".to_string()), Some(PathElementKind::ArcTo));
    assert_eq!(path_element_kind(&"Close".to_string()), Some(PathElementKind::Close));
    assert_eq!(path_element_kind(&"Rectangle".to_string()), None);
    assert_eq!(path_element_kind(&"lineto".to_string()), None);
}
