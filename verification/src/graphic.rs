//! Static shapes on the stage, whose GPU shapes are made when they are first drawn
//! and let go when they were not drawn for a while.

use std::sync::Arc;

use vstd::prelude::*;

use crate::movie::SwfMovie;
use crate::time::{nanos_between, Duration, Instant};

verus! {

/// The number by which a movie knows a character.
pub type CharacterId = u16;

/// A rectangle, in twips.
#[derive(Debug, Clone, Copy, PartialEq, Eq, Structural)]
pub struct Rectangle {
    pub x_min: i32,
    pub x_max: i32,
    pub y_min: i32,
    pub y_max: i32,
}

/// The shape of a movie tag. `Art` is an element of its outline or its styles,
/// which are only carried along.
#[derive(Debug, Clone)]
pub struct Shape<Art> {
    pub version: u8,
    pub id: CharacterId,
    pub shape_bounds: Rectangle,
    pub edge_bounds: Rectangle,
    pub flags: u8,
    pub fill_styles: Vec<Art>,
    pub line_styles: Vec<Art>,
    pub shape: Vec<Art>,
}

/// A handle of a shape that the renderer holds.
#[derive(Debug)]
pub struct ShapeHandle<H>(pub Arc<H>);

impl<H> ShapeHandle<H> {
    /// Another handle of the same shape.
    pub fn share(&self) -> (handle: Self)
        ensures
            handle == *self,
    {
        ShapeHandle(self.0.clone())
    }
}

/// What all instances of a graphic share.
#[derive(Debug)]
pub struct GraphicShared<Art, H> {
    pub id: CharacterId,
    pub shape: Shape<Art>,
    /// The shape that the renderer holds, while it holds one.
    pub render_handle: Option<ShapeHandle<H>>,
    /// When an instance was last drawn.
    pub last_rendered: Option<Instant>,
    pub bounds: Rectangle,
    pub movie: Arc<SwfMovie>,
}

/// What the instances of the graphic of a shape share before any is drawn.
pub open spec fn undrawn<Art, H>(shape: Shape<Art>, movie: Arc<SwfMovie>) -> GraphicShared<Art, H> {
    GraphicShared {
        id: shape.id,
        shape,
        render_handle: None,
        last_rendered: None,
        bounds: shape.shape_bounds,
        movie,
    }
}

/// Whether a graphic was drawn before, and then not for at least the threshold.
pub open spec fn is_idle(
    last_rendered: Option<Instant>,
    now: Instant,
    idle_threshold: Duration,
) -> bool {
    match last_rendered {
        Some(last) => nanos_between(last, now) >= idle_threshold.nanos,
        None => false,
    }
}

/// What the instances of a graphic share after an idle one was looked for: the
/// GPU shape of an idle graphic is gone, and all else stays.
pub open spec fn evicted_if_idle<Art, H>(
    shared: GraphicShared<Art, H>,
    now: Instant,
    idle_threshold: Duration,
) -> GraphicShared<Art, H> {
    if is_idle(shared.last_rendered, now, idle_threshold) {
        GraphicShared { render_handle: None, ..shared }
    } else {
        shared
    }
}

impl<Art, H> GraphicShared<Art, H> {
    /// What the instances of the graphic of a shape share. The renderer holds
    /// nothing of it yet.
    pub fn from_swf_shape(shape: Shape<Art>, movie: Arc<SwfMovie>) -> (shared: Self)
        ensures
            shared == undrawn::<Art, H>(shape, movie),
    {
        GraphicShared {
            id: shape.id,
            bounds: shape.shape_bounds,
            render_handle: None,
            last_rendered: None,
            shape,
            movie,
        }
    }

    /// Lets the GPU shape go where the graphic was not drawn for the threshold.
    /// Returns whether there was one to let go. The source shape stays.
    pub fn evict_shape_if_idle(&mut self, now: Instant, idle_threshold: Duration) -> (evicted: bool)
        ensures
            *final(self) == evicted_if_idle(*old(self), now, idle_threshold),
            evicted == (is_idle(old(self).last_rendered, now, idle_threshold) && old(
                self).render_handle is Some),
    {
        let last_rendered = match self.last_rendered {
            Some(last_rendered) => last_rendered,
            None => {
                return false;
            },
        };
        if now.duration_since(last_rendered).nanos < idle_threshold.nanos {
            return false;
        }
        self.render_handle.take().is_some()
    }
}

/// The shared data of all graphics. An instance names its own by position; where no
/// instance is left, the data is gone and its place stays empty.
#[derive(Debug)]
pub struct SharedGraphics<Art, H> {
    pub records: Vec<Option<GraphicShared<Art, H>>>,
}

impl<Art, H> SharedGraphics<Art, H> {
    /// The shared data of no graphics.
    pub fn new() -> (store: Self)
        ensures
            store.records@.len() == 0,
    {
        SharedGraphics { records: Vec::new() }
    }

    /// Lets go of what the instances of a graphic share, once the last of them is
    /// gone: source shape, GPU shape and movie. Returns whether it was still there.
    pub fn release(&mut self, shared: usize) -> (was_there: bool)
        requires
            shared < old(self).records@.len(),
        ensures
            final(self).records@ == old(self).records@.update(shared as int, None),
            was_there == (old(self).records@[shared as int] is Some),
    {
        let was_there = self.records[shared].is_some();
        self.records[shared] = None;
        was_there
    }
}

/// One instance of a graphic. `Class` and `Object` are its script class and its
/// script object, and `Drawing` what a script draws on it.
#[derive(Debug)]
pub struct GraphicData<Class, Object, Drawing> {
    /// The position of what it shares with the other instances.
    pub shared: usize,
    pub class: Option<Class>,
    pub avm2_object: Option<Object>,
    /// Made when it is first drawn on.
    pub drawing: Option<Drawing>,
}

/// A graphic on the stage.
#[derive(Debug)]
pub struct Graphic<Class, Object, Drawing>(pub GraphicData<Class, Object, Drawing>);

/// What is to be done to draw a graphic.
#[derive(Debug)]
pub enum RenderAction<H> {
    /// Nothing: it is out of view.
    Cull,
    /// Draw what scripts drew on it.
    RenderDrawing,
    /// Draw the shape that the renderer holds.
    RenderShape(ShapeHandle<H>),
    /// Register the source shape with the renderer, and then draw it.
    RegisterShape,
}

/// What is to be done to find out whether a point hits a graphic.
#[derive(Debug, Clone, Copy, PartialEq, Eq, Structural)]
pub enum HitTestAction {
    /// Nothing: it is a miss.
    Miss,
    /// Ask what scripts drew on it.
    TestDrawing,
    /// Ask the source shape.
    TestShape,
}

/// What follows when a graphic was told to show another character.
#[derive(Debug, Clone, Copy, PartialEq, Eq, Structural)]
pub struct ReplaceOutcome {
    /// There is no graphic of that number, which is worth a warning.
    pub missing: bool,
    /// What was cached of the graphic no longer holds.
    pub invalidate_cached_bitmap: bool,
}

impl<Class, Object, Drawing> Graphic<Class, Object, Drawing> {
    /// Whether the store holds what the graphic shares.
    pub open spec fn is_in<Art, H>(&self, store: SharedGraphics<Art, H>) -> bool {
        self.0.shared < store.records@.len() && store.records@[self.0.shared as int] is Some
    }

    /// What the graphic shares with other instances.
    pub open spec fn shared_in<Art, H>(&self, store: SharedGraphics<Art, H>) -> GraphicShared<
        Art,
        H,
    > {
        store.records@[self.0.shared as int]->Some_0
    }

    /// The data of the graphic in the store.
    fn record<'a, Art, H>(&self, store: &'a SharedGraphics<Art, H>) -> (shared: &'a GraphicShared<
        Art,
        H,
    >)
        requires
            self.is_in(*store),
        ensures
            *shared == self.shared_in(*store),
    {
        store.records[self.0.shared].as_ref().unwrap()
    }

    /// The first instance of the graphic of a shape.
    pub fn from_swf_tag<Art, H>(
        store: &mut SharedGraphics<Art, H>,
        swf_shape: Shape<Art>,
        movie: Arc<SwfMovie>,
    ) -> (graphic: Self)
        ensures
            final(store).records@ == old(store).records@.push(Some(undrawn(swf_shape, movie))),
            graphic.0.shared == old(store).records@.len(),
            graphic.0.class is None,
            graphic.0.avm2_object is None,
            graphic.0.drawing is None,
    {
        let shared = store.records.len();
        store.records.push(Some(GraphicShared::from_swf_shape(swf_shape, movie)));
        Graphic(GraphicData { shared, class: None, avm2_object: None, drawing: None })
    }

    /// A graphic without a shape. `no_bounds` are the bounds of nothing.
    pub fn empty<Art, H>(
        store: &mut SharedGraphics<Art, H>,
        root_swf: Arc<SwfMovie>,
        no_bounds: Rectangle,
    ) -> (graphic: Self)
        ensures
            is_empty_graphic(*old(store), *final(store), graphic, root_swf, no_bounds),
            final(store).records@.len() == old(store).records@.len() + 1,
            final(store).records@.drop_last() == old(store).records@,
            final(store).records@.last() is Some,
            ({
                let shared = final(store).records@.last()->Some_0;
                &&& shared == undrawn::<Art, H>(shared.shape, root_swf)
                &&& shared.shape.version == 32
                &&& shared.shape.id == 0
                &&& shared.shape.shape_bounds == no_bounds
                &&& shared.shape.edge_bounds == no_bounds
                &&& shared.shape.flags == 0
                &&& shared.shape.fill_styles@.len() == 0
                &&& shared.shape.line_styles@.len() == 0
                &&& shared.shape.shape@.len() == 0
            }),
            graphic.0.shared == old(store).records@.len(),
            graphic.0.class is None,
            graphic.0.avm2_object is None,
            graphic.0.drawing is None,
    {
        let shape = Shape {
            version: 32,
            id: 0,
            shape_bounds: no_bounds,
            edge_bounds: no_bounds,
            flags: 0,
            fill_styles: Vec::new(),
            line_styles: Vec::new(),
            shape: Vec::new(),
        };
        let graphic = Self::from_swf_tag(store, shape, root_swf);
        assert(store.records@.drop_last() =~= old(store).records@);
        assert(store.records@.last() == Some(undrawn::<Art, H>(shape, root_swf)));
        graphic
    }

    /// What scripts draw on the graphic, which is made here where there is none.
    pub fn drawing_mut(&mut self) -> (drawing: &mut Drawing) where Drawing: Default
        ensures
            match old(self).0.drawing {
                Some(drawn) => *drawing == drawn,
                None => call_ensures(Drawing::default, (), *drawing),
            },
            *final(self) == Graphic(
                GraphicData { drawing: Some(*final(drawing)), ..old(self).0 },
            ),
    {
        if self.0.drawing.is_none() {
            self.0.drawing = Some(Drawing::default());
        }
        self.0.drawing.as_mut().unwrap()
    }

    /// What scripts draw on the graphic.
    pub fn as_drawing(&mut self) -> (drawing: Option<&mut Drawing>) where Drawing: Default
        ensures
            drawing is Some,
            match old(self).0.drawing {
                Some(drawn) => *drawing->Some_0 == drawn,
                None => call_ensures(Drawing::default, (), *drawing->Some_0),
            },
            *final(self) == Graphic(
                GraphicData { drawing: Some(*final(drawing->Some_0)), ..old(self).0 },
            ),
    {
        Some(self.drawing_mut())
    }

    /// Sets the script class.
    pub fn set_avm2_class(&mut self, class: Class)
        ensures
            *final(self) == Graphic(GraphicData { class: Some(class), ..old(self).0 }),
    {
        self.0.class = Some(class);
    }

    /// Lets the GPU shape go where no instance of the graphic was drawn for the
    /// threshold. Returns whether there was one to let go. The source shape stays
    /// for another.
    pub fn evict_shape_if_idle<Art, H>(
        &self,
        store: &mut SharedGraphics<Art, H>,
        now: Instant,
        idle_threshold: Duration,
    ) -> (evicted: bool)
        requires
            self.is_in(*old(store)),
        ensures
            final(store).records@ == old(store).records@.update(
                self.0.shared as int,
                Some(evicted_if_idle(self.shared_in(*old(store)), now, idle_threshold)),
            ),
            evicted == (is_idle(self.shared_in(*old(store)).last_rendered, now, idle_threshold)
                && self.shared_in(*old(store)).render_handle is Some),
    {
        let shared = store.records[self.0.shared].as_mut().unwrap();
        shared.evict_shape_if_idle(now, idle_threshold)
    }

    fn set_shared(&mut self, shared: usize)
        ensures
            *final(self) == Graphic(GraphicData { shared, ..old(self).0 }),
    {
        self.0.shared = shared;
    }

    /// Another instance of the graphic, which shares the same data and has a copy
    /// of all else.
    pub fn instantiate(&self) -> (instance: Self) where
        Class: Copy,
        Object: Copy,
        Drawing: Clone,

        ensures
            instance.0.shared == self.0.shared,
            instance.0.class == self.0.class,
            instance.0.avm2_object == self.0.avm2_object,
            match self.0.drawing {
                Some(drawn) => instance.0.drawing matches Some(copy) && cloned(drawn, copy),
                None => instance.0.drawing is None,
            },
    {
        let drawing = match &self.0.drawing {
            Some(drawn) => Some(drawn.clone()),
            None => None,
        };
        Graphic(
            GraphicData {
                shared: self.0.shared,
                class: self.0.class,
                avm2_object: self.0.avm2_object,
                drawing,
            },
        )
    }

    /// The number of the graphic.
    pub fn id<Art, H>(&self, store: &SharedGraphics<Art, H>) -> (id: CharacterId)
        requires
            self.is_in(*store),
        ensures
            id == self.shared_in(*store).id,
    {
        self.record(store).id
    }

    /// The bounds of what scripts drew, which `drawing_bounds` tells, and of the
    /// shape where they drew nothing.
    pub fn self_bounds<Art, H, DrawingBounds>(
        &self,
        store: &SharedGraphics<Art, H>,
        drawing_bounds: DrawingBounds,
    ) -> (bounds: Rectangle) where DrawingBounds: Fn(&Drawing) -> Rectangle
        requires
            self.is_in(*store),
            self.0.drawing matches Some(drawn) ==> call_requires(drawing_bounds, (&drawn,)),
        ensures
            match self.0.drawing {
                Some(drawn) => call_ensures(drawing_bounds, (&drawn,), bounds),
                None => bounds == self.shared_in(*store).bounds,
            },
    {
        match &self.0.drawing {
            Some(drawn) => drawing_bounds(drawn),
            None => self.record(store).bounds,
        }
    }

    /// The class to construct the script object of the graphic with, where it is
    /// to have one and has none: its own, or the default where none was set.
    pub fn construct_frame<Art, H>(
        &self,
        store: &SharedGraphics<Art, H>,
        default_class: Class,
    ) -> (class: Option<Class>) where Class: Copy
        requires
            self.is_in(*store),
        ensures
            class == class_to_construct(*self, self.shared_in(*store), default_class),
            class == if self.shared_in(*store).movie.is_action_script_3
                && self.0.avm2_object is None {
                match self.0.class {
                    Some(class) => Some(class),
                    None => Some(default_class),
                }
            } else {
                None
            },
    {
        if self.record(store).movie.is_action_script_3 && self.0.avm2_object.is_none() {
            match self.0.class {
                Some(class) => Some(class),
                None => Some(default_class),
            }
        } else {
            None
        }
    }

    /// Takes the script object that was constructed, and hands out the error, to
    /// be reported, where it could not be. The construction is complete either
    /// way.
    pub fn construction_finished<E>(&mut self, constructed: Result<Object, E>) -> (error: Option<E>)
        ensures
            was_constructed(*old(self), *final(self), constructed, error),
            match constructed {
                Ok(object) => {
                    &&& *final(self) == Graphic(
                        GraphicData { avm2_object: Some(object), ..old(self).0 },
                    )
                    &&& error is None
                },
                Err(e) => *final(self) == *old(self) && error == Some(e),
            },
    {
        match constructed {
            Ok(object) => {
                self.set_object2(object);
                None
            },
            Err(error) => Some(error),
        }
    }

    /// Shows the art of another graphic, which is what the movie of this one has
    /// under the number that was asked for. The instance stays the same.
    pub fn replace_with(&mut self, replacement: Option<&Self>) -> (outcome: ReplaceOutcome)
        ensures
            was_replaced(
                *old(self),
                *final(self),
                match replacement {
                    Some(other) => Some(other.0.shared),
                    None => None,
                },
                outcome,
            ),
            match replacement {
                Some(other) => *final(self) == Graphic(
                    GraphicData { shared: other.0.shared, ..old(self).0 },
                ),
                None => *final(self) == *old(self),
            },
            outcome.missing == (replacement is None),
            outcome.invalidate_cached_bitmap,
    {
        let missing = match replacement {
            Some(other) => {
                self.set_shared(other.0.shared);
                false
            },
            None => true,
        };
        ReplaceOutcome { missing, invalidate_cached_bitmap: true }
    }

    /// What is to be done to draw the graphic at this time. It is culled where it
    /// is drawn on the screen and not in view. What scripts drew takes the place
    /// of the shape. A shape that is drawn is noted as drawn.
    pub fn render_self<Art, H>(
        &self,
        store: &mut SharedGraphics<Art, H>,
        is_offscreen: bool,
        in_view: bool,
        now: Instant,
    ) -> (action: RenderAction<H>)
        requires
            self.is_in(*old(store)),
        ensures
            was_rendered(
                *self,
                *old(store),
                *final(store),
                is_offscreen,
                in_view,
                now,
                action,
            ),
            action == render_action(*self, self.shared_in(*old(store)), is_offscreen, in_view),
            final(store).records@ == if action is RenderShape || action is RegisterShape {
                old(store).records@.update(
                    self.0.shared as int,
                    Some(drawn_at(self.shared_in(*old(store)), now)),
                )
            } else {
                old(store).records@
            },
    {
        if !is_offscreen && !in_view {
            return RenderAction::Cull;
        }
        if self.0.drawing.is_some() {
            return RenderAction::RenderDrawing;
        }
        let shared = store.records[self.0.shared].as_mut().unwrap();
        shared.last_rendered = Some(now);
        match &shared.render_handle {
            Some(handle) => RenderAction::RenderShape(handle.share()),
            None => RenderAction::RegisterShape,
        }
    }

    /// Keeps the handle of the shape that was registered, and hands out the one to
    /// draw with.
    pub fn shape_registered<Art, H>(
        &self,
        store: &mut SharedGraphics<Art, H>,
        handle: ShapeHandle<H>,
    ) -> (to_draw: ShapeHandle<H>)
        requires
            self.is_in(*old(store)),
        ensures
            to_draw == handle,
            final(store).records@ == old(store).records@.update(
                self.0.shared as int,
                Some(realised(self.shared_in(*old(store)), handle)),
            ),
    {
        let shared = store.records[self.0.shared].as_mut().unwrap();
        shared.render_handle = Some(handle.share());
        handle
    }

    /// What is to be done to find out whether a point hits the graphic: nothing
    /// where it is invisible and that counts, where the point is out of its
    /// bounds, or where the point has no place in its coordinates.
    pub fn hit_test_shape(
        &self,
        skip_invisible: bool,
        visible: bool,
        in_bounds: bool,
        has_local_point: bool,
    ) -> (action: HitTestAction)
        ensures
            action == hit_test_action(
                self.0.drawing is Some,
                skip_invisible,
                visible,
                in_bounds,
                has_local_point,
            ),
            action == if (skip_invisible && !visible) || !in_bounds || !has_local_point {
                HitTestAction::Miss
            } else if self.0.drawing is Some {
                HitTestAction::TestDrawing
            } else {
                HitTestAction::TestShape
            },
    {
        if (!skip_invisible || visible) && in_bounds {
            if !has_local_point {
                return HitTestAction::Miss;
            }
            if self.0.drawing.is_some() {
                HitTestAction::TestDrawing
            } else {
                HitTestAction::TestShape
            }
        } else {
            HitTestAction::Miss
        }
    }

    /// Whether the graphic gets a default name when it is placed.
    pub fn post_instantiation<Art, H>(&self, store: &SharedGraphics<Art, H>) -> (named: bool)
        requires
            self.is_in(*store),
        ensures
            named == self.shared_in(*store).movie.is_action_script_3,
    {
        self.record(store).movie.is_action_script_3
    }

    /// The movie that the graphic is from.
    pub fn movie<Art, H>(&self, store: &SharedGraphics<Art, H>) -> (movie: Arc<SwfMovie>)
        requires
            self.is_in(*store),
        ensures
            movie == self.shared_in(*store).movie,
    {
        self.record(store).movie.clone()
    }

    /// The script object of the older machine, which a graphic never has.
    pub fn object1<OldObject>(&self) -> (object: Option<OldObject>)
        ensures
            object is None,
    {
        None
    }

    /// The script object.
    pub fn object2(&self) -> (object: Option<Object>) where Object: Copy
        ensures
            object == self.0.avm2_object,
    {
        self.0.avm2_object
    }

    /// Sets the script object.
    pub fn set_object2(&mut self, to: Object)
        ensures
            *final(self) == Graphic(GraphicData { avm2_object: Some(to), ..old(self).0 }),
    {
        self.0.avm2_object = Some(to);
    }
}

/// What is to be done to draw a graphic.
pub open spec fn render_action<Art, H, Class, Object, Drawing>(
    graphic: Graphic<Class, Object, Drawing>,
    shared: GraphicShared<Art, H>,
    is_offscreen: bool,
    in_view: bool,
) -> RenderAction<H> {
    if !is_offscreen && !in_view {
        RenderAction::Cull
    } else if graphic.0.drawing is Some {
        RenderAction::RenderDrawing
    } else {
        match shared.render_handle {
            Some(handle) => RenderAction::RenderShape(handle),
            None => RenderAction::RegisterShape,
        }
    }
}

/// The shared data of a graphic that is drawn at this time.
pub open spec fn drawn_at<Art, H>(shared: GraphicShared<Art, H>, now: Instant) -> GraphicShared<
    Art,
    H,
> {
    GraphicShared { last_rendered: Some(now), ..shared }
}

/// The shared data of a graphic whose shape the renderer holds.
pub open spec fn realised<Art, H>(
    shared: GraphicShared<Art, H>,
    handle: ShapeHandle<H>,
) -> GraphicShared<Art, H> {
    GraphicShared { render_handle: Some(handle), ..shared }
}

/// Shapes are lazy: a graphic has no GPU shape before it is drawn, is never idle
/// before it is drawn, and the first time it is drawn its shape is registered.
pub proof fn law_shapes_are_lazy<Art, H, Class, Object, Drawing>(
    graphic: Graphic<Class, Object, Drawing>,
    shape: Shape<Art>,
    movie: Arc<SwfMovie>,
    now: Instant,
    idle_threshold: Duration,
)
    requires
        graphic.0.drawing is None,
    ensures
        undrawn::<Art, H>(shape, movie).render_handle is None,
        evicted_if_idle(undrawn::<Art, H>(shape, movie), now, idle_threshold) == undrawn::<Art, H>(
            shape,
            movie,
        ),
        forall|is_offscreen: bool, in_view: bool|
            is_offscreen || in_view ==> #[trigger] render_action(
                graphic,
                undrawn::<Art, H>(shape, movie),
                is_offscreen,
                in_view,
            ) == RenderAction::<H>::RegisterShape,
{
}

/// A registered shape is registered once: as long as it is not evicted, the
/// graphic is drawn with the handle that it got.
pub proof fn law_a_shape_is_registered_once<Art, H, Class, Object, Drawing>(
    graphic: Graphic<Class, Object, Drawing>,
    shared: GraphicShared<Art, H>,
    handle: ShapeHandle<H>,
    now: Instant,
)
    requires
        graphic.0.drawing is None,
    ensures
        forall|is_offscreen: bool, in_view: bool|
            is_offscreen || in_view ==> #[trigger] render_action(
                graphic,
                realised(shared, handle),
                is_offscreen,
                in_view,
            ) == RenderAction::RenderShape(handle),
        forall|is_offscreen: bool, in_view: bool|
            is_offscreen || in_view ==> #[trigger] render_action(
                graphic,
                drawn_at(realised(shared, handle), now),
                is_offscreen,
                in_view,
            ) == RenderAction::RenderShape(handle),
{
}

/// A graphic keeps its GPU shape until the threshold has passed since it was last
/// drawn, and loses it then.
pub proof fn law_a_shape_is_evicted_at_the_threshold<Art, H>(
    shared: GraphicShared<Art, H>,
    drawn: Instant,
    now: Instant,
    idle_threshold: Duration,
)
    requires
        drawn.nanos <= now.nanos,
    ensures
        now.nanos - drawn.nanos < idle_threshold.nanos ==> evicted_if_idle(
            drawn_at(shared, drawn),
            now,
            idle_threshold,
        ) == drawn_at(shared, drawn),
        now.nanos - drawn.nanos >= idle_threshold.nanos ==> evicted_if_idle(
            drawn_at(shared, drawn),
            now,
            idle_threshold,
        ).render_handle is None,
{
}

/// An evicted graphic keeps its source shape and is registered anew when it is
/// drawn again.
pub proof fn law_an_evicted_shape_is_rebuilt<Art, H, Class, Object, Drawing>(
    graphic: Graphic<Class, Object, Drawing>,
    shared: GraphicShared<Art, H>,
    now: Instant,
    idle_threshold: Duration,
)
    requires
        graphic.0.drawing is None,
        is_idle(shared.last_rendered, now, idle_threshold),
    ensures
        ({
            let left = evicted_if_idle(shared, now, idle_threshold);
            &&& left.shape == shared.shape
            &&& left.bounds == shared.bounds
            &&& left.movie == shared.movie
            &&& forall|is_offscreen: bool, in_view: bool|
                is_offscreen || in_view ==> #[trigger] render_action(
                    graphic,
                    left,
                    is_offscreen,
                    in_view,
                ) == RenderAction::<H>::RegisterShape
            &&& evicted_if_idle(left, now, idle_threshold) == left
        }),
{
}

/// What one instance does to the shared data every instance of the graphic sees,
/// and no other graphic does.
pub proof fn law_instances_share<Art, H, Class, Object, Drawing>(
    before: SharedGraphics<Art, H>,
    after: SharedGraphics<Art, H>,
    one: Graphic<Class, Object, Drawing>,
    other: Graphic<Class, Object, Drawing>,
    shared: GraphicShared<Art, H>,
)
    requires
        one.is_in(before),
        other.is_in(before),
        after.records@ == before.records@.update(one.0.shared as int, Some(shared)),
    ensures
        other.is_in(after),
        other.0.shared == one.0.shared ==> other.shared_in(after) == shared,
        other.0.shared != one.0.shared ==> other.shared_in(after) == other.shared_in(before),
{
}

/// What the instances of one graphic share goes for all of them, and no other graphic
/// loses anything.
pub proof fn law_a_release_spares_the_others<Art, H, Class, Object, Drawing>(
    before: SharedGraphics<Art, H>,
    after: SharedGraphics<Art, H>,
    one: Graphic<Class, Object, Drawing>,
    other: Graphic<Class, Object, Drawing>,
)
    requires
        one.is_in(before),
        other.is_in(before),
        after.records@ == before.records@.update(one.0.shared as int, None),
    ensures
        !one.is_in(after),
        other.0.shared == one.0.shared ==> !other.is_in(after),
        other.0.shared != one.0.shared ==> other.is_in(after) && other.shared_in(after)
            == other.shared_in(before),
{
}

/// A graphic is culled exactly where it is drawn on the screen and out of view, whatever it
/// shares and whatever was drawn on it, also when its shape is registered.
pub proof fn law_what_is_out_of_view_is_culled<Art, H, Class, Object, Drawing>(
    graphic: Graphic<Class, Object, Drawing>,
    shared: GraphicShared<Art, H>,
    is_offscreen: bool,
    in_view: bool,
)
    ensures
        render_action(graphic, shared, is_offscreen, in_view) is Cull <==> !is_offscreen
            && !in_view,
{
}

/// A graphic that is not culled is drawn by what scripts drew on it, where they did, whether
/// its shape is registered or not; else by its shape, with the handle that it has where it
/// has one.
pub proof fn law_what_is_drawn_takes_the_place_of_the_shape<Art, H, Class, Object, Drawing>(
    graphic: Graphic<Class, Object, Drawing>,
    shared: GraphicShared<Art, H>,
    is_offscreen: bool,
    in_view: bool,
)
    requires
        is_offscreen || in_view,
    ensures
        graphic.0.drawing is Some <==> render_action(
            graphic,
            shared,
            is_offscreen,
            in_view,
        ) is RenderDrawing,
        graphic.0.drawing is None && shared.render_handle is Some ==> render_action(
            graphic,
            shared,
            is_offscreen,
            in_view,
        ) == RenderAction::RenderShape(shared.render_handle->Some_0),
        graphic.0.drawing is None && shared.render_handle is None ==> render_action(
            graphic,
            shared,
            is_offscreen,
            in_view,
        ) is RegisterShape,
{
}

/// What drawing a graphic does: what is to be done, and what is noted of it.
pub open spec fn was_rendered<Art, H, Class, Object, Drawing>(
    graphic: Graphic<Class, Object, Drawing>,
    before: SharedGraphics<Art, H>,
    after: SharedGraphics<Art, H>,
    is_offscreen: bool,
    in_view: bool,
    now: Instant,
    action: RenderAction<H>,
) -> bool {
    &&& action == render_action(graphic, graphic.shared_in(before), is_offscreen, in_view)
    &&& after.records@ == if action is RenderShape || action is RegisterShape {
        before.records@.update(
            graphic.0.shared as int,
            Some(drawn_at(graphic.shared_in(before), now)),
        )
    } else {
        before.records@
    }
}

/// Drawn on the screen and out of view, a graphic is culled, and the time it was last drawn
/// stays, of it and of every other: it goes on becoming idle.
pub proof fn law_what_is_culled_is_not_noted<Art, H, Class, Object, Drawing>(
    graphic: Graphic<Class, Object, Drawing>,
    before: SharedGraphics<Art, H>,
    after: SharedGraphics<Art, H>,
    now: Instant,
    action: RenderAction<H>,
)
    requires
        graphic.is_in(before),
        was_rendered(graphic, before, after, false, false, now, action),
    ensures
        action is Cull,
        after.records@ == before.records@,
{
}

/// A shape that is drawn is noted as drawn at that time, and one that scripts drew over is
/// not. Whatever is drawn, no GPU shape, no source shape and no other graphic changes.
pub proof fn law_a_drawn_shape_is_noted<Art, H, Class, Object, Drawing>(
    graphic: Graphic<Class, Object, Drawing>,
    before: SharedGraphics<Art, H>,
    after: SharedGraphics<Art, H>,
    is_offscreen: bool,
    in_view: bool,
    now: Instant,
    action: RenderAction<H>,
    other: int,
)
    requires
        graphic.is_in(before),
        was_rendered(graphic, before, after, is_offscreen, in_view, now, action),
    ensures
        graphic.is_in(after),
        graphic.shared_in(after).last_rendered == if (is_offscreen || in_view)
            && graphic.0.drawing is None {
            Some(now)
        } else {
            graphic.shared_in(before).last_rendered
        },
        graphic.shared_in(after).render_handle == graphic.shared_in(before).render_handle,
        graphic.shared_in(after).shape == graphic.shared_in(before).shape,
        graphic.shared_in(after).id == graphic.shared_in(before).id,
        graphic.shared_in(after).bounds == graphic.shared_in(before).bounds,
        graphic.shared_in(after).movie == graphic.shared_in(before).movie,
        after.records@.len() == before.records@.len(),
        0 <= other < before.records@.len() && other != graphic.0.shared ==> after.records@[other]
            == before.records@[other],
{
}

/// A registered shape is kept under the handle that it got, and nothing else changes.
pub proof fn law_a_registered_shape_is_kept<Art, H>(
    shared: GraphicShared<Art, H>,
    handle: ShapeHandle<H>,
)
    ensures
        realised(shared, handle).render_handle == Some(handle),
        realised(shared, handle).last_rendered == shared.last_rendered,
        realised(shared, handle).shape == shared.shape,
        realised(shared, handle).id == shared.id,
        realised(shared, handle).bounds == shared.bounds,
        realised(shared, handle).movie == shared.movie,
{
}

/// A graphic is idle exactly where it was drawn before and as much time as the threshold, or
/// more, has passed since; no time passes where the clock runs back.
pub proof fn law_idle_is_told_by_the_clock(last: Instant, now: Instant, idle_threshold: Duration)
    ensures
        !is_idle(None, now, idle_threshold),
        last.nanos <= now.nanos ==> (is_idle(Some(last), now, idle_threshold) <==> now.nanos
            >= last.nanos + idle_threshold.nanos),
        last.nanos > now.nanos ==> (is_idle(Some(last), now, idle_threshold)
            <==> idle_threshold.nanos == 0),
{
}

/// An eviction takes the GPU shape of an idle graphic and of no other, and changes nothing
/// else.
pub proof fn law_an_eviction_takes_the_gpu_shape_only<Art, H>(
    shared: GraphicShared<Art, H>,
    now: Instant,
    idle_threshold: Duration,
)
    ensures
        ({
            let left = evicted_if_idle(shared, now, idle_threshold);
            &&& left.render_handle == if is_idle(shared.last_rendered, now, idle_threshold) {
                None
            } else {
                shared.render_handle
            }
            &&& left.last_rendered == shared.last_rendered
            &&& left.shape == shared.shape
            &&& left.id == shared.id
            &&& left.bounds == shared.bounds
            &&& left.movie == shared.movie
        }),
{
}

/// A graphic of a shape has the number and the bounds of the shape, keeps shape and movie, and
/// was never drawn.
pub proof fn law_a_graphic_takes_after_its_shape<Art, H>(shape: Shape<Art>, movie: Arc<SwfMovie>)
    ensures
        undrawn::<Art, H>(shape, movie).id == shape.id,
        undrawn::<Art, H>(shape, movie).bounds == shape.shape_bounds,
        undrawn::<Art, H>(shape, movie).shape == shape,
        undrawn::<Art, H>(shape, movie).movie == movie,
        undrawn::<Art, H>(shape, movie).render_handle is None,
        undrawn::<Art, H>(shape, movie).last_rendered is None,
{
}

/// What is to be done to find out whether a point hits a graphic on which scripts drew or
/// did not draw.
pub open spec fn hit_test_action(
    drawn_on: bool,
    skip_invisible: bool,
    visible: bool,
    in_bounds: bool,
    has_local_point: bool,
) -> HitTestAction {
    if (skip_invisible && !visible) || !in_bounds || !has_local_point {
        HitTestAction::Miss
    } else if drawn_on {
        HitTestAction::TestDrawing
    } else {
        HitTestAction::TestShape
    }
}

/// A point out of bounds or without a place in the coordinates of the graphic misses, and so
/// does any point where the graphic is invisible and that counts. Every other point is put to
/// the test, to that of what scripts drew exactly where they drew.
pub proof fn law_only_points_in_bounds_are_tested(
    drawn_on: bool,
    skip_invisible: bool,
    visible: bool,
    in_bounds: bool,
    has_local_point: bool,
)
    ensures
        hit_test_action(drawn_on, skip_invisible, visible, in_bounds, has_local_point) is Miss
            <==> !(in_bounds && has_local_point && (visible || !skip_invisible)),
        hit_test_action(drawn_on, skip_invisible, visible, in_bounds, has_local_point)
            is TestDrawing ==> drawn_on,
        hit_test_action(drawn_on, skip_invisible, visible, in_bounds, has_local_point)
            is TestShape ==> !drawn_on,
{
}

/// The class to construct the script object of a graphic with, where it is to have one and
/// has none.
pub open spec fn class_to_construct<Art, H, Class, Object, Drawing>(
    graphic: Graphic<Class, Object, Drawing>,
    shared: GraphicShared<Art, H>,
    default_class: Class,
) -> Option<Class> {
    if shared.movie.is_action_script_3 && graphic.0.avm2_object is None {
        match graphic.0.class {
            Some(class) => Some(class),
            None => Some(default_class),
        }
    } else {
        None
    }
}

/// What the end of a construction does to a graphic.
pub open spec fn was_constructed<Class, Object, Drawing, E>(
    before: Graphic<Class, Object, Drawing>,
    after: Graphic<Class, Object, Drawing>,
    constructed: Result<Object, E>,
    error: Option<E>,
) -> bool {
    match constructed {
        Ok(object) => {
            &&& after == Graphic(GraphicData { avm2_object: Some(object), ..before.0 })
            &&& error is None
        },
        Err(e) => after == before && error == Some(e),
    }
}

/// The script object of a graphic is constructed once, with its own class where one was set,
/// and only for newer movies. One that could not be constructed is reported, and tried again
/// with the same class.
pub proof fn law_an_object_is_constructed_once<Art, H, Class, Object, Drawing, E>(
    before: Graphic<Class, Object, Drawing>,
    after: Graphic<Class, Object, Drawing>,
    shared: GraphicShared<Art, H>,
    default_class: Class,
    constructed: Result<Object, E>,
    error: Option<E>,
)
    requires
        was_constructed(before, after, constructed, error),
    ensures
        class_to_construct(before, shared, default_class) is Some <==>
            shared.movie.is_action_script_3 && before.0.avm2_object is None,
        class_to_construct(before, shared, default_class) is Some && before.0.class is Some
            ==> class_to_construct(before, shared, default_class) == before.0.class,
        class_to_construct(before, shared, default_class) is Some && before.0.class is None
            ==> class_to_construct(before, shared, default_class) == Some(default_class),
        constructed matches Ok(object) ==> after.0.avm2_object == Some(object) && error is None
            && class_to_construct(after, shared, default_class) is None,
        constructed matches Err(e) ==> error == Some(e) && after.0.avm2_object
            == before.0.avm2_object && class_to_construct(after, shared, default_class)
            == class_to_construct(before, shared, default_class),
        after.0.shared == before.0.shared,
        after.0.class == before.0.class,
        after.0.drawing == before.0.drawing,
{
}

/// What being told to show another character does to a graphic; `art` is the position of what
/// that character shares, if there is one.
pub open spec fn was_replaced<Class, Object, Drawing>(
    before: Graphic<Class, Object, Drawing>,
    after: Graphic<Class, Object, Drawing>,
    art: Option<usize>,
    outcome: ReplaceOutcome,
) -> bool {
    &&& after == match art {
        Some(shared) => Graphic(GraphicData { shared, ..before.0 }),
        None => before,
    }
    &&& outcome == ReplaceOutcome { missing: art is None, invalidate_cached_bitmap: true }
}

/// A graphic that is told to show another character swaps its art and nothing else: its object,
/// its class and what scripts drew on it stay. A character that is missing is reported and
/// leaves the art as it is. What was cached never holds any more.
pub proof fn law_a_replacement_swaps_the_art_only<Art, H, Class, Object, Drawing>(
    store: SharedGraphics<Art, H>,
    before: Graphic<Class, Object, Drawing>,
    after: Graphic<Class, Object, Drawing>,
    other: Graphic<Class, Object, Drawing>,
    art: Option<usize>,
    outcome: ReplaceOutcome,
)
    requires
        was_replaced(before, after, art, outcome),
        art is Some ==> art == Some(other.0.shared),
    ensures
        art is Some ==> after.shared_in(store) == other.shared_in(store) && !outcome.missing,
        art is None ==> after.shared_in(store) == before.shared_in(store) && outcome.missing,
        outcome.invalidate_cached_bitmap,
        after.0.avm2_object == before.0.avm2_object,
        after.0.class == before.0.class,
        after.0.drawing == before.0.drawing,
{
}

/// What making a graphic without a shape does.
pub open spec fn is_empty_graphic<Art, H, Class, Object, Drawing>(
    before: SharedGraphics<Art, H>,
    after: SharedGraphics<Art, H>,
    graphic: Graphic<Class, Object, Drawing>,
    root_swf: Arc<SwfMovie>,
    no_bounds: Rectangle,
) -> bool {
    let shared = after.records@.last()->Some_0;
    &&& after.records@ == before.records@.push(Some(undrawn::<Art, H>(shared.shape, root_swf)))
    &&& shared.shape.version == 32
    &&& shared.shape.id == 0
    &&& shared.shape.shape_bounds == no_bounds
    &&& shared.shape.edge_bounds == no_bounds
    &&& shared.shape.flags == 0
    &&& shared.shape.fill_styles@.len() == 0
    &&& shared.shape.line_styles@.len() == 0
    &&& shared.shape.shape@.len() == 0
    &&& graphic.0.shared == before.records@.len()
    &&& graphic.0.class is None
    &&& graphic.0.avm2_object is None
    &&& graphic.0.drawing is None
}

/// A graphic without a shape holds nothing and is from the root movie: no art, the bounds of
/// nothing, no number, no class, no object and no drawing. Every other graphic keeps what it
/// shares.
pub proof fn law_an_empty_graphic_holds_nothing<Art, H, Class, Object, Drawing>(
    before: SharedGraphics<Art, H>,
    after: SharedGraphics<Art, H>,
    graphic: Graphic<Class, Object, Drawing>,
    root_swf: Arc<SwfMovie>,
    no_bounds: Rectangle,
    other: Graphic<Class, Object, Drawing>,
)
    requires
        is_empty_graphic(before, after, graphic, root_swf, no_bounds),
        other.is_in(before),
    ensures
        graphic.is_in(after),
        graphic.shared_in(after).bounds == no_bounds,
        graphic.shared_in(after).id == 0,
        graphic.shared_in(after).movie == root_swf,
        graphic.shared_in(after).render_handle is None,
        graphic.shared_in(after).last_rendered is None,
        graphic.shared_in(after).shape.id == 0,
        graphic.shared_in(after).shape.version == 32,
        graphic.shared_in(after).shape.flags == 0,
        graphic.shared_in(after).shape.edge_bounds == no_bounds,
        graphic.shared_in(after).shape.shape_bounds == no_bounds,
        graphic.shared_in(after).shape.fill_styles@.len() == 0,
        graphic.shared_in(after).shape.line_styles@.len() == 0,
        graphic.shared_in(after).shape.shape@.len() == 0,
        graphic.0.class is None,
        graphic.0.avm2_object is None,
        graphic.0.drawing is None,
        other.is_in(after),
        other.0.shared != graphic.0.shared,
        other.shared_in(after) == other.shared_in(before),
{
}

} // verus!
