use scape::geometry::Size;
use scape::grabs::{constrain_size, AxisDrag, ResizeEdge, X11ResizeEdge};

#[test]
fn xdg_edges_convert_both_ways() {
    for v in [0u32, 1, 2, 4, 5, 6, 8, 9, 10] {
        assert_eq!(ResizeEdge::from_xdg(v).bits, v);
        assert_eq!(ResizeEdge::from_xdg(v).to_xdg(), v);
    }
    assert_eq!(ResizeEdge::from_xdg(3).bits, 0);
    assert_eq!(ResizeEdge::from_xdg(12).bits, 0);
    assert_eq!(ResizeEdge { bits: 12 }.to_xdg(), 0);
}

#[test]
fn x11_edges_map_to_their_bits() {
    assert_eq!(ResizeEdge::from_x11(X11ResizeEdge::Top).bits, 1);
    assert_eq!(ResizeEdge::from_x11(X11ResizeEdge::Bottom).bits, 2);
    assert_eq!(ResizeEdge::from_x11(X11ResizeEdge::Left).bits, 4);
    assert_eq!(ResizeEdge::from_x11(X11ResizeEdge::TopLeft).bits, 5);
    assert_eq!(ResizeEdge::from_x11(X11ResizeEdge::BottomLeft).bits, 6);
    assert_eq!(ResizeEdge::from_x11(X11ResizeEdge::Right).bits, 8);
    assert_eq!(ResizeEdge::from_x11(X11ResizeEdge::TopRight).bits, 9);
    assert_eq!(ResizeEdge::from_x11(X11ResizeEdge::BottomRight).bits, 10);
}

#[test]
fn dragged_edges_decide_how_the_size_follows_the_pointer() {
    assert_eq!(ResizeEdge { bits: 0 }.axes(), (AxisDrag::Fixed, AxisDrag::Fixed));
    assert_eq!(ResizeEdge { bits: 8 }.axes(), (AxisDrag::Forward, AxisDrag::Fixed));
    assert_eq!(ResizeEdge { bits: 4 }.axes(), (AxisDrag::Backward, AxisDrag::Fixed));
    assert_eq!(ResizeEdge { bits: 1 }.axes(), (AxisDrag::Fixed, AxisDrag::Backward));
    assert_eq!(ResizeEdge { bits: 10 }.axes(), (AxisDrag::Forward, AxisDrag::Forward));
    assert_eq!(ResizeEdge { bits: 5 }.axes(), (AxisDrag::Backward, AxisDrag::Backward));
    assert!(ResizeEdge { bits: 5 }.intersects(ResizeEdge { bits: 1 }));
    assert!(!ResizeEdge { bits: 5 }.intersects(ResizeEdge { bits: 2 }));
    assert_eq!(ResizeEdge { bits: 1 }.union(ResizeEdge { bits: 4 }).bits, 5);
}

#[test]
fn resized_size_respects_min_and_max() {
    let none = Size { w: 0, h: 0 };
    assert_eq!(constrain_size(Size { w: -20, h: 0 }, none, none), Size { w: 1, h: 1 });
    assert_eq!(constrain_size(Size { w: 5000, h: 300 }, none, none), Size { w: 5000, h: 300 });
    let min = Size { w: 100, h: 50 };
    let max = Size { w: 800, h: 0 };
    assert_eq!(constrain_size(Size { w: 50, h: 20 }, min, max), Size { w: 100, h: 50 });
    assert_eq!(constrain_size(Size { w: 900, h: 9000 }, min, max), Size { w: 800, h: 9000 });
}
