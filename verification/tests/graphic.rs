use std::sync::Arc;

use ruffle_seer::graphic::{
    Graphic, GraphicShared, HitTestAction, Rectangle, RenderAction, Shape, ShapeHandle,
    SharedGraphics,
};
use ruffle_seer::movie::{SandboxType, SwfMovie};
use ruffle_seer::time::{Duration, Instant};

#[derive(Debug)]
struct TestShapeHandle;

type TestGraphic = Graphic<u32, u64, Vec<i32>>;

const NOWHERE: Rectangle =
    Rectangle { x_min: 0x7ff_ffff, x_max: 0x7ff_ffff, y_min: 0x7ff_ffff, y_max: 0x7ff_ffff };

const BOX: Rectangle = Rectangle { x_min: 10, x_max: 50, y_min: 20, y_max: 60 };

fn movie(is_action_script_3: bool) -> Arc<SwfMovie> {
    Arc::new(SwfMovie { version: 32, is_action_script_3, sandbox_type: SandboxType::Remote })
}

fn test_shape() -> Shape<u8> {
    Shape {
        version: 32,
        id: 1,
        shape_bounds: NOWHERE,
        edge_bounds: NOWHERE,
        flags: 0,
        fill_styles: Vec::new(),
        line_styles: Vec::new(),
        shape: Vec::new(),
    }
}

fn at(secs: u64) -> Instant {
    Instant { nanos: Duration::from_secs(secs).nanos }
}

#[test]
fn swf_shapes_are_lazy_and_idle_handles_are_evictable() {
    let mut shared: GraphicShared<u8, TestShapeHandle> =
        GraphicShared::from_swf_shape(test_shape(), movie(false));
    assert!(shared.render_handle.is_none());

    shared.render_handle = Some(ShapeHandle(Arc::new(TestShapeHandle)));
    let now = at(1000);
    shared.last_rendered = Some(now);
    assert!(!shared.evict_shape_if_idle(now, Duration::from_secs(30)));

    shared.last_rendered = Some(Instant { nanos: now.nanos - Duration::from_secs(31).nanos });
    assert!(shared.evict_shape_if_idle(now, Duration::from_secs(30)));
    assert!(shared.render_handle.is_none());
}

#[test]
fn the_threshold_itself_is_idle() {
    let mut shared: GraphicShared<u8, TestShapeHandle> =
        GraphicShared::from_swf_shape(test_shape(), movie(false));
    shared.render_handle = Some(ShapeHandle(Arc::new(TestShapeHandle)));
    shared.last_rendered = Some(at(70));
    let mut late = at(100);
    late.nanos -= 1;
    assert!(!shared.evict_shape_if_idle(late, Duration::from_secs(30)));
    assert!(shared.evict_shape_if_idle(at(100), Duration::from_secs(30)));
    assert!(!shared.evict_shape_if_idle(at(100), Duration::from_secs(30)));
}

#[test]
fn a_shape_that_was_never_drawn_is_not_idle() {
    let mut shared: GraphicShared<u8, TestShapeHandle> =
        GraphicShared::from_swf_shape(test_shape(), movie(false));
    shared.render_handle = Some(ShapeHandle(Arc::new(TestShapeHandle)));
    assert!(!shared.evict_shape_if_idle(at(100), Duration::from_secs(0)));
    assert!(shared.render_handle.is_some());
}

#[test]
fn a_clock_that_runs_back_counts_as_no_time() {
    let mut shared: GraphicShared<u8, TestShapeHandle> =
        GraphicShared::from_swf_shape(test_shape(), movie(false));
    shared.render_handle = Some(ShapeHandle(Arc::new(TestShapeHandle)));
    shared.last_rendered = Some(at(200));
    assert!(!shared.evict_shape_if_idle(at(100), Duration::from_secs(1)));
    assert_eq!(at(100).duration_since(at(200)), Duration { nanos: 0 });
    assert_eq!(at(200).duration_since(at(100)), Duration::from_secs(100));
}

#[test]
fn instances_share_the_registered_shape() {
    let mut store: SharedGraphics<u8, TestShapeHandle> = SharedGraphics::new();
    let one = TestGraphic::from_swf_tag(&mut store, test_shape(), movie(false));
    let two = one.instantiate();
    let apart = TestGraphic::from_swf_tag(&mut store, test_shape(), movie(false));

    assert!(matches!(one.render_self(&mut store, false, true, at(5)), RenderAction::RegisterShape));
    let handle = ShapeHandle(Arc::new(TestShapeHandle));
    let kept = handle.share();
    let drawn = one.shape_registered(&mut store, handle);
    assert!(Arc::ptr_eq(&drawn.0, &kept.0));

    match two.render_self(&mut store, false, true, at(6)) {
        RenderAction::RenderShape(handle) => assert!(Arc::ptr_eq(&handle.0, &kept.0)),
        _ => panic!("the shape is registered"),
    }
    assert!(matches!(
        apart.render_self(&mut store, false, true, at(6)),
        RenderAction::RegisterShape
    ));

    assert!(!one.evict_shape_if_idle(&mut store, at(15), Duration::from_secs(10)));
    assert!(one.evict_shape_if_idle(&mut store, at(16), Duration::from_secs(10)));
    assert!(!two.evict_shape_if_idle(&mut store, at(16), Duration::from_secs(10)));
    assert!(matches!(
        two.render_self(&mut store, false, true, at(17)),
        RenderAction::RegisterShape
    ));
}

#[test]
fn what_is_out_of_view_is_culled_and_not_noted() {
    let mut store: SharedGraphics<u8, TestShapeHandle> = SharedGraphics::new();
    let graphic = TestGraphic::from_swf_tag(&mut store, test_shape(), movie(false));
    assert!(matches!(graphic.render_self(&mut store, false, false, at(5)), RenderAction::Cull));
    assert!(store.records[0].as_ref().unwrap().last_rendered.is_none());
    assert!(matches!(
        graphic.render_self(&mut store, true, false, at(6)),
        RenderAction::RegisterShape
    ));
    assert_eq!(store.records[0].as_ref().unwrap().last_rendered, Some(at(6)));
}

#[test]
fn a_drawing_takes_the_place_of_the_shape() {
    let mut store: SharedGraphics<u8, TestShapeHandle> = SharedGraphics::new();
    let mut shape = test_shape();
    shape.shape_bounds = BOX;
    let mut graphic = TestGraphic::from_swf_tag(&mut store, shape, movie(false));
    assert_eq!(graphic.self_bounds(&store, |_: &Vec<i32>| NOWHERE), BOX);
    assert_eq!(graphic.hit_test_shape(true, true, true, true), HitTestAction::TestShape);

    graphic.drawing_mut().push(3);
    graphic.as_drawing().unwrap().push(4);
    assert_eq!(graphic.0.drawing, Some(vec![3, 4]));
    assert_eq!(
        graphic.self_bounds(&store, |d: &Vec<i32>| Rectangle { x_max: d[1], ..NOWHERE }),
        Rectangle { x_max: 4, ..NOWHERE }
    );
    assert!(matches!(
        graphic.render_self(&mut store, false, true, at(5)),
        RenderAction::RenderDrawing
    ));
    assert!(store.records[0].as_ref().unwrap().last_rendered.is_none());
    assert_eq!(graphic.hit_test_shape(true, true, true, true), HitTestAction::TestDrawing);

    let copy = graphic.instantiate();
    graphic.drawing_mut().push(5);
    assert_eq!(copy.0.drawing, Some(vec![3, 4]));
}

#[test]
fn a_point_misses_what_is_hidden_or_elsewhere() {
    let mut store: SharedGraphics<u8, TestShapeHandle> = SharedGraphics::new();
    let graphic = TestGraphic::from_swf_tag(&mut store, test_shape(), movie(false));
    assert_eq!(graphic.hit_test_shape(true, false, true, true), HitTestAction::Miss);
    assert_eq!(graphic.hit_test_shape(false, false, true, true), HitTestAction::TestShape);
    assert_eq!(graphic.hit_test_shape(false, true, false, true), HitTestAction::Miss);
    assert_eq!(graphic.hit_test_shape(false, true, true, false), HitTestAction::Miss);
}

#[test]
fn an_empty_graphic_has_an_empty_shape() {
    let mut store: SharedGraphics<u8, TestShapeHandle> = SharedGraphics::new();
    let root = movie(true);
    let graphic = TestGraphic::empty(&mut store, root.clone(), NOWHERE);
    assert_eq!(graphic.id(&store), 0);
    assert!(Arc::ptr_eq(&graphic.movie(&store), &root));
    let shared = store.records[0].as_ref().unwrap();
    assert_eq!(shared.shape.version, 32);
    assert!(shared.shape.fill_styles.is_empty());
    assert!(shared.shape.line_styles.is_empty());
    assert!(shared.shape.shape.is_empty());
    assert!(shared.render_handle.is_none());
    assert!(graphic.object1::<u8>().is_none());
    assert!(graphic.object2().is_none());
}

#[test]
fn a_replaced_graphic_keeps_its_own_object() {
    let mut store: SharedGraphics<u8, TestShapeHandle> = SharedGraphics::new();
    let mut graphic = TestGraphic::from_swf_tag(&mut store, test_shape(), movie(true));
    graphic.set_object2(77);
    let mut other_shape = test_shape();
    other_shape.id = 9;
    let other = TestGraphic::from_swf_tag(&mut store, other_shape, movie(true));

    let missing = graphic.replace_with(None);
    assert!(missing.missing && missing.invalidate_cached_bitmap);
    assert_eq!(graphic.id(&store), 1);

    let found = graphic.replace_with(Some(&other));
    assert!(!found.missing && found.invalidate_cached_bitmap);
    assert_eq!(graphic.id(&store), 9);
    assert_eq!(graphic.object2(), Some(77));
}

#[test]
fn an_object_is_constructed_once_and_only_for_newer_movies() {
    let mut store: SharedGraphics<u8, TestShapeHandle> = SharedGraphics::new();
    let older = TestGraphic::from_swf_tag(&mut store, test_shape(), movie(false));
    assert_eq!(older.construct_frame(&store, 1), None);
    assert!(!older.post_instantiation(&store));

    let mut newer = TestGraphic::from_swf_tag(&mut store, test_shape(), movie(true));
    assert!(newer.post_instantiation(&store));
    assert_eq!(newer.construct_frame(&store, 1), Some(1));
    newer.set_avm2_class(2);
    assert_eq!(newer.construct_frame(&store, 1), Some(2));
    assert_eq!(newer.construction_finished(Err("no")), Some("no"));
    assert_eq!(newer.construct_frame(&store, 1), Some(2));
    assert_eq!(newer.construction_finished::<&str>(Ok(5)), None);
    assert_eq!(newer.object2(), Some(5));
    assert_eq!(newer.construct_frame(&store, 1), None);
}

#[test]
fn offscreen_shapes_are_lazy_and_registered_once_too() {
    let mut store: SharedGraphics<u8, TestShapeHandle> = SharedGraphics::new();
    let graphic = TestGraphic::from_swf_tag(&mut store, test_shape(), movie(false));
    for in_view in [false, true] {
        assert!(matches!(
            graphic.render_self(&mut store, true, in_view, at(1)),
            RenderAction::RegisterShape
        ));
    }
    graphic.shape_registered(&mut store, ShapeHandle(Arc::new(TestShapeHandle)));
    for in_view in [false, true] {
        assert!(matches!(
            graphic.render_self(&mut store, true, in_view, at(2)),
            RenderAction::RenderShape(_)
        ));
    }
    assert!(graphic.evict_shape_if_idle(&mut store, at(4), Duration::from_secs(2)));
    assert!(matches!(
        graphic.render_self(&mut store, true, false, at(5)),
        RenderAction::RegisterShape
    ));
}

#[test]
fn what_was_shared_goes_with_the_last_instance() {
    let mut store: SharedGraphics<u8, TestShapeHandle> = SharedGraphics::new();
    let source = movie(true);
    let gone = TestGraphic::from_swf_tag(&mut store, test_shape(), source.clone());
    let mut other_shape = test_shape();
    other_shape.id = 9;
    let stays = TestGraphic::from_swf_tag(&mut store, other_shape, movie(true));
    let handle = ShapeHandle(Arc::new(TestShapeHandle));
    let seen = handle.share();
    gone.shape_registered(&mut store, handle);
    assert_eq!((Arc::strong_count(&seen.0), Arc::strong_count(&source)), (2, 2));

    assert!(store.release(0));
    assert!(!store.release(0));
    assert!(store.records[0].is_none());
    assert_eq!((Arc::strong_count(&seen.0), Arc::strong_count(&source)), (1, 1));
    assert_eq!(stays.id(&store), 9);
}
