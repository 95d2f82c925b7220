use retrotex::definition::{Coverage, TexturePass};
use retrotex::preview::{pick_for_target, DragTarget};

fn pass() -> TexturePass {
    let mut p = TexturePass::default();
    p.coverage = Coverage::Rectangle;
    p.feature_x = 10;
    p.feature_y = 20;
    p.rect.width = 30;
    p.rect.height = 40;
    p.rect.round.radius = 5;
    p.tile.x_gap = 2;
    p.tile.y_gap = 3;
    p
}

fn drag(t: DragTarget, dx: i32, dy: i32) -> TexturePass {
    let mut p = pass();
    let start = t.start_values(&p);
    t.update_pass(&mut p, start, dx, dy);
    p
}

#[test]
fn start_values() {
    let p = pass();
    assert_eq!(DragTarget::Rect.start_values(&p), (10, 20, 30, 40));
    assert_eq!(DragTarget::Edge(2).start_values(&p), (10, 20, 30, 40));
    assert_eq!(DragTarget::RoundHandle.start_values(&p), (5, 0, 0, 0));
    assert_eq!(DragTarget::Tile(0).start_values(&p), (2, 0, 0, 0));
    assert_eq!(DragTarget::Tile(1).start_values(&p), (3, 0, 0, 0));
}

#[test]
fn moving_and_resizing() {
    let p = drag(DragTarget::Rect, 3, -4);
    assert_eq!((p.feature_x, p.feature_y, p.rect.width, p.rect.height), (13, 16, 30, 40));
    let p = drag(DragTarget::Edge(0), 5, 0);
    assert_eq!((p.feature_x, p.rect.width), (15, 25));
    let p = drag(DragTarget::Edge(1), 5, 0);
    assert_eq!((p.feature_x, p.rect.width), (10, 35));
    let p = drag(DragTarget::Edge(2), 0, 50);
    assert_eq!((p.feature_y, p.rect.height), (70, 1));
    let p = drag(DragTarget::Edge(3), 0, -7);
    assert_eq!(p.rect.height, 33);
    let p = drag(DragTarget::CornerHandle(0), 1, 2);
    assert_eq!((p.feature_x, p.feature_y, p.rect.width, p.rect.height), (11, 22, 29, 38));
    let p = drag(DragTarget::CornerHandle(3), -100, 1);
    assert_eq!((p.feature_x, p.feature_y, p.rect.width, p.rect.height), (10, 20, 1, 41));
}

#[test]
fn radius_and_gaps_are_clamped() {
    assert_eq!(drag(DragTarget::RoundHandle, 0, -100).rect.round.radius, 15);
    assert_eq!(drag(DragTarget::RoundHandle, 0, 100).rect.round.radius, 0);
    assert_eq!(drag(DragTarget::RoundHandle, 0, -2).rect.round.radius, 7);
    assert_eq!(drag(DragTarget::Tile(0), -10, 0).tile.x_gap, 0);
    assert_eq!(drag(DragTarget::Tile(1), 0, 4).tile.y_gap, 7);
}

#[test]
fn still_drag_changes_nothing() {
    for t in [
        DragTarget::Rect,
        DragTarget::Edge(0),
        DragTarget::Edge(3),
        DragTarget::CornerHandle(1),
        DragTarget::RoundHandle,
        DragTarget::Tile(0),
        DragTarget::Tile(1),
    ] {
        let p = drag(t, 0, 0);
        let q = pass();
        assert_eq!((p.feature_x, p.feature_y, p.rect.width, p.rect.height), (q.feature_x, q.feature_y, 30, 40));
        assert_eq!((p.rect.round.radius, p.tile.x_gap, p.tile.y_gap), (5, 2, 3));
    }
}

#[test]
fn highlighting_the_held_handle() {
    assert_eq!(pick_for_target(Some(DragTarget::Edge(1)), DragTarget::Edge(1), 1, 2), 2);
    assert_eq!(pick_for_target(Some(DragTarget::Edge(1)), DragTarget::Edge(2), 1, 2), 1);
    assert_eq!(pick_for_target(None, DragTarget::Rect, 'n', 'a'), 'n');
}
