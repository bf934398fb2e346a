//! Components: the geometry every component carries, the default event
//! handling that moves and resizes them, the built-in primitives and
//! containers, and one step of laying out a container's children.
use vstd::prelude::*;
use vstd::string::StringExecFns;

use crate::events::Events;
use crate::layout::{Area, LayoutType, Layouted};

verus! {

/// Read and write access to a component's position and size.
pub trait InternalLayoutable: Sized {
    /// `(x, y, width, height)`
    spec fn geometry(&self) -> Area;

    /// The component with its geometry replaced by `g` and everything else
    /// kept.
    spec fn with_geometry(self, g: Area) -> Self;

    /// Replacing the geometry gives that geometry.
    proof fn lemma_geometry_of_with(self, g: Area)
        ensures
            self.with_geometry(g).geometry() == g,
    ;

    /// Replacing the geometry twice is replacing it once, by the second.
    proof fn lemma_with_geometry_twice(self, g1: Area, g2: Area)
        ensures
            self.with_geometry(g1).with_geometry(g2) == self.with_geometry(g2),
    ;

    fn get_x(&self) -> (r: u32)
        ensures
            r == self.geometry().0,
    ;

    fn get_y(&self) -> (r: u32)
        ensures
            r == self.geometry().1,
    ;

    fn get_width(&self) -> (r: u32)
        ensures
            r == self.geometry().2,
    ;

    fn get_height(&self) -> (r: u32)
        ensures
            r == self.geometry().3,
    ;

    fn set_x(&mut self, x: u32)
        ensures
            *final(self) == old(self).with_geometry(
                (x, old(self).geometry().1, old(self).geometry().2, old(self).geometry().3),
            ),
    ;

    fn set_y(&mut self, y: u32)
        ensures
            *final(self) == old(self).with_geometry(
                (old(self).geometry().0, y, old(self).geometry().2, old(self).geometry().3),
            ),
    ;

    fn set_width(&mut self, width: u32)
        ensures
            *final(self) == old(self).with_geometry(
                (old(self).geometry().0, old(self).geometry().1, width, old(self).geometry().3),
            ),
    ;

    fn set_height(&mut self, height: u32)
        ensures
            *final(self) == old(self).with_geometry(
                (old(self).geometry().0, old(self).geometry().1, old(self).geometry().2, height),
            ),
    ;
}

/// The events a component handles by default.
pub open spec fn handled_by_default(event: Events) -> bool {
    event is Resize || event is Move || event is Hover
}

/// The geometry after the default handling of `event`: a resize sets the
/// size, a move sets the position, a hover changes nothing.
pub open spec fn geometry_after(g: Area, event: Events) -> Area {
    match event {
        Events::Resize { width, height } => (g.0, g.1, width, height),
        Events::Move { x, y } => (x, y, g.2, g.3),
        _ => g,
    }
}

/// How a component reacts to events.
pub trait EventHandler: InternalLayoutable {
    /// Dispatches a resize, move or hover to its handler; components handle
    /// no other event by default. Only the geometry changes.
    fn handle_event(&mut self, event: Events)
        requires
            handled_by_default(event),
        ensures
            event is Hover ==> *final(self) == *old(self),
            !(event is Hover) ==> *final(self) == old(self).with_geometry(
                geometry_after(old(self).geometry(), event),
            ),
    {
        match event {
            Events::Resize { width, height } => self.handle_resize(width, height),
            Events::Move { x, y } => self.handle_move(x, y),
            Events::Hover { x, y } => self.handle_hover(x, y),
            _ => {},
        }
    }

    /// Sets the size; everything else is kept.
    fn handle_resize(&mut self, width: u32, height: u32)
        ensures
            *final(self) == old(self).with_geometry(
                (old(self).geometry().0, old(self).geometry().1, width, height),
            ),
    {
        let ghost s0 = *self;
        self.set_width(width);
        proof {
            let g1 = (s0.geometry().0, s0.geometry().1, width, s0.geometry().3);
            s0.lemma_geometry_of_with(g1);
            s0.lemma_with_geometry_twice(g1, (s0.geometry().0, s0.geometry().1, width, height));
        }
        self.set_height(height);
    }

    /// Sets the position; everything else is kept.
    fn handle_move(&mut self, x: u32, y: u32)
        ensures
            *final(self) == old(self).with_geometry((x, y, old(self).geometry().2, old(self).geometry().3)),
    {
        let ghost s0 = *self;
        self.set_x(x);
        proof {
            let g1 = (x, s0.geometry().1, s0.geometry().2, s0.geometry().3);
            s0.lemma_geometry_of_with(g1);
            s0.lemma_with_geometry_twice(g1, (x, y, s0.geometry().2, s0.geometry().3));
        }
        self.set_y(y);
    }

    /// Hovering does nothing by default.
    fn handle_hover(&mut self, x: u32, y: u32)
        ensures
            *final(self) == *old(self),
    {
    }
}

/// What a layout needs to know of a child beyond its geometry.
pub trait Layoutable: EventHandler {
    /// Does the component lay out children of its own?
    spec fn spec_has_children(&self) -> bool;

    /// Is the component a primitive the renderer draws?
    spec fn spec_is_primitive(&self) -> bool;

    fn has_children(&self) -> (r: bool)
        ensures
            r == self.spec_has_children(),
    ;

    fn is_primitive(&self) -> (r: bool)
        ensures
            r == self.spec_is_primitive(),
    ;
}

/// A colour as `(red, green, blue, alpha)`.
pub type Color = (u8, u8, u8, u8);

/// A plain rectangle; for artistic shapes use other primitives.
pub struct Rectangle {
    pub x: u32,
    pub y: u32,
    pub width: u32,
    pub height: u32,
    pub color: Color,
    /// Corner rounding (left-top, right-top, left-bottom, right-bottom) as
    /// fractions between 0 and 1 of half the shorter side, given as `f32`
    /// bit patterns.
    pub rounding: Option<(u32, u32, u32, u32)>,
}

impl Rectangle {
    /// An opaque black rectangle of size zero at the origin, not rounded.
    pub fn new() -> (r: Self)
        ensures
            r.x == 0 && r.y == 0 && r.width == 0 && r.height == 0,
            r.color == (0u8, 0u8, 0u8, 255u8),
            r.rounding is None,
    {
        Rectangle { x: 0, y: 0, width: 0, height: 0, color: (0, 0, 0, 255), rounding: None }
    }

    /// A copy of the rectangle, as the renderer receives it.
    pub fn to_primitive(&self) -> (r: Self)
        ensures
            r.x == self.x && r.y == self.y && r.width == self.width && r.height == self.height,
            r.color == self.color,
            r.rounding == self.rounding,
    {
        let mut rect = Rectangle::new();
        rect.color = self.color;
        rect.rounding = self.rounding;
        rect.x = self.x;
        rect.y = self.y;
        rect.width = self.width;
        rect.height = self.height;
        rect
    }
}

/// Text drawn inside a rectangle, word-wrapped.
///
/// A `font_size` of 0 (the default) picks the largest size at which the
/// wrapped text fits the rectangle; a non-zero size is the largest size
/// used, shrunk until the text fits.
pub struct Text {
    pub x: u32,
    pub y: u32,
    pub width: u32,
    pub height: u32,
    pub text: String,
    pub color: Color,
    /// Requested font size in pixels, as an `f32` bit pattern.
    pub font_size: u32,
}

impl Text {
    /// Empty opaque black text of size zero at the origin, auto-fitted.
    pub fn new() -> (r: Self)
        ensures
            r.x == 0 && r.y == 0 && r.width == 0 && r.height == 0,
            r.text@ == Seq::<char>::empty(),
            r.color == (0u8, 0u8, 0u8, 255u8),
            r.font_size == 0,
    {
        Text { x: 0, y: 0, width: 0, height: 0, text: String::new(), color: (0, 0, 0, 255), font_size: 0 }
    }

    /// A copy of the text, as the renderer receives it.
    pub fn to_primitive(&self) -> (r: Self)
        ensures
            r.x == self.x && r.y == self.y && r.width == self.width && r.height == self.height,
            r.text@ == self.text@,
            r.color == self.color,
            r.font_size == self.font_size,
    {
        let mut text = Text::new();
        text.text = self.text.clone();
        text.color = self.color;
        text.font_size = self.font_size;
        text.x = self.x;
        text.y = self.y;
        text.width = self.width;
        text.height = self.height;
        text
    }
}

/// A component that only paints its background colour.
pub struct EmptyComponent {
    pub x: u32,
    pub y: u32,
    pub width: u32,
    pub height: u32,
    pub color: Color,
    pub children: Vec<Layouted<Rectangle>>,
}

impl EmptyComponent {
    /// The children an empty component lays out: one rectangle of its
    /// colour growing over the whole component.
    pub fn children(&self) -> (r: Vec<Layouted<Rectangle>>)
        ensures
            r@.len() == 1,
            r@[0].layout_type == LayoutType::AbsolutePxPxGrowGrow(0, 0),
            r@[0].effective_layout is None,
            r@[0].element.color == self.color,
            r@[0].element.rounding is None,
            r@[0].element.x == 0 && r@[0].element.y == 0,
            r@[0].element.width == 0 && r@[0].element.height == 0,
            r@.len() != 0 <==> self.spec_has_children(),
    {
        let mut rect = Rectangle::new();
        rect.color = self.color;
        let mut v: Vec<Layouted<Rectangle>> = Vec::new();
        v.push(Layouted::new(rect, LayoutType::AbsolutePxPxGrowGrow(0, 0)));
        v
    }

    /// A transparent component of size zero at the origin, with its
    /// background rectangle.
    pub fn new() -> (r: Self)
        ensures
            r.x == 0 && r.y == 0 && r.width == 0 && r.height == 0,
            r.color == (0u8, 0u8, 0u8, 0u8),
            r.children@.len() == 1,
            r.children@[0].layout_type == LayoutType::AbsolutePxPxGrowGrow(0, 0),
            r.children@[0].effective_layout is None,
            r.children@[0].element.color == (0u8, 0u8, 0u8, 0u8),
            r.children@[0].element.rounding is None,
            r.children@[0].element.geometry() == (0u32, 0u32, 0u32, 0u32),
    {
        let mut c = EmptyComponent::default();
        c.children = c.children();
        c
    }
}

/// A container laying out its children side by side.
pub struct RowComponent {
    pub x: u32,
    pub y: u32,
    pub width: u32,
    pub height: u32,
    pub children: Vec<Layouted<EmptyComponent>>,
}

impl RowComponent {
    /// No children while the row is empty; otherwise an empty component
    /// filling the row's background.
    pub fn children(&self) -> (r: Vec<Layouted<EmptyComponent>>)
        ensures
            self.children@.len() == 0 ==> r@.len() == 0,
            self.children@.len() != 0 ==> {
                &&& r@.len() == 1
                &&& r@[0].layout_type == LayoutType::AbsoluteBg
                &&& r@[0].effective_layout is None
                &&& r@[0].element.color == (0u8, 0u8, 0u8, 0u8)
                &&& r@[0].element.children@.len() == 1
            },
            r@.len() != 0 <==> self.spec_has_children(),
    {
        let mut v: Vec<Layouted<EmptyComponent>> = Vec::new();
        if self.children.len() != 0 {
            v.push(Layouted::new(EmptyComponent::new(), LayoutType::AbsoluteBg));
        }
        v
    }

    /// An empty row of size zero at the origin.
    pub fn new() -> (r: Self)
        ensures
            r.x == 0 && r.y == 0 && r.width == 0 && r.height == 0,
            r.children@.len() == 0,
    {
        let mut c = RowComponent::default();
        c.children = c.children();
        c
    }
}

impl Default for Rectangle {
    /// An opaque black rectangle of size zero at the origin, not rounded.
    fn default() -> (r: Self)
        ensures
            r.x == 0 && r.y == 0 && r.width == 0 && r.height == 0,
            r.color == (0u8, 0u8, 0u8, 255u8),
            r.rounding is None,
    {
        Rectangle::new()
    }
}

impl Default for Text {
    /// Empty opaque black text of size zero at the origin, auto-fitted.
    fn default() -> (r: Self)
        ensures
            r.x == 0 && r.y == 0 && r.width == 0 && r.height == 0,
            r.text@ == Seq::<char>::empty(),
            r.color == (0u8, 0u8, 0u8, 255u8),
            r.font_size == 0,
    {
        Text::new()
    }
}

impl Default for EmptyComponent {
    /// A transparent component of size zero at the origin, without
    /// children yet.
    fn default() -> (r: Self)
        ensures
            r.x == 0 && r.y == 0 && r.width == 0 && r.height == 0,
            r.color == (0u8, 0u8, 0u8, 0u8),
            r.children@.len() == 0,
    {
        EmptyComponent { x: 0, y: 0, width: 0, height: 0, color: (0, 0, 0, 0), children: Vec::new() }
    }
}

impl Default for RowComponent {
    /// An empty row of size zero at the origin.
    fn default() -> (r: Self)
        ensures
            r.x == 0 && r.y == 0 && r.width == 0 && r.height == 0,
            r.children@.len() == 0,
    {
        RowComponent { x: 0, y: 0, width: 0, height: 0, children: Vec::new() }
    }
}

impl InternalLayoutable for Rectangle {
    open spec fn geometry(&self) -> Area {
        (self.x, self.y, self.width, self.height)
    }

    open spec fn with_geometry(self, g: Area) -> Self {
        Rectangle { x: g.0, y: g.1, width: g.2, height: g.3, color: self.color, rounding: self.rounding }
    }

    proof fn lemma_geometry_of_with(self, g: Area) {
    }

    proof fn lemma_with_geometry_twice(self, g1: Area, g2: Area) {
    }

    fn get_x(&self) -> (r: u32) {
        self.x
    }

    fn get_y(&self) -> (r: u32) {
        self.y
    }

    fn get_width(&self) -> (r: u32) {
        self.width
    }

    fn get_height(&self) -> (r: u32) {
        self.height
    }

    fn set_x(&mut self, x: u32) {
        self.x = x;
    }

    fn set_y(&mut self, y: u32) {
        self.y = y;
    }

    fn set_width(&mut self, width: u32) {
        self.width = width;
    }

    fn set_height(&mut self, height: u32) {
        self.height = height;
    }
}

impl EventHandler for Rectangle {}

impl Layoutable for Rectangle {
    open spec fn spec_has_children(&self) -> bool {
        false
    }

    open spec fn spec_is_primitive(&self) -> bool {
        true
    }

    fn has_children(&self) -> (r: bool) {
        false
    }

    fn is_primitive(&self) -> (r: bool) {
        true
    }
}

impl InternalLayoutable for Text {
    open spec fn geometry(&self) -> Area {
        (self.x, self.y, self.width, self.height)
    }

    open spec fn with_geometry(self, g: Area) -> Self {
        Text { x: g.0, y: g.1, width: g.2, height: g.3, text: self.text, color: self.color, font_size: self.font_size }
    }

    proof fn lemma_geometry_of_with(self, g: Area) {
    }

    proof fn lemma_with_geometry_twice(self, g1: Area, g2: Area) {
    }

    fn get_x(&self) -> (r: u32) {
        self.x
    }

    fn get_y(&self) -> (r: u32) {
        self.y
    }

    fn get_width(&self) -> (r: u32) {
        self.width
    }

    fn get_height(&self) -> (r: u32) {
        self.height
    }

    fn set_x(&mut self, x: u32) {
        self.x = x;
    }

    fn set_y(&mut self, y: u32) {
        self.y = y;
    }

    fn set_width(&mut self, width: u32) {
        self.width = width;
    }

    fn set_height(&mut self, height: u32) {
        self.height = height;
    }
}

impl EventHandler for Text {}

impl Layoutable for Text {
    open spec fn spec_has_children(&self) -> bool {
        false
    }

    open spec fn spec_is_primitive(&self) -> bool {
        true
    }

    fn has_children(&self) -> (r: bool) {
        false
    }

    fn is_primitive(&self) -> (r: bool) {
        true
    }
}

impl InternalLayoutable for EmptyComponent {
    open spec fn geometry(&self) -> Area {
        (self.x, self.y, self.width, self.height)
    }

    open spec fn with_geometry(self, g: Area) -> Self {
        EmptyComponent { x: g.0, y: g.1, width: g.2, height: g.3, color: self.color, children: self.children }
    }

    proof fn lemma_geometry_of_with(self, g: Area) {
    }

    proof fn lemma_with_geometry_twice(self, g1: Area, g2: Area) {
    }

    fn get_x(&self) -> (r: u32) {
        self.x
    }

    fn get_y(&self) -> (r: u32) {
        self.y
    }

    fn get_width(&self) -> (r: u32) {
        self.width
    }

    fn get_height(&self) -> (r: u32) {
        self.height
    }

    fn set_x(&mut self, x: u32) {
        self.x = x;
    }

    fn set_y(&mut self, y: u32) {
        self.y = y;
    }

    fn set_width(&mut self, width: u32) {
        self.width = width;
    }

    fn set_height(&mut self, height: u32) {
        self.height = height;
    }
}

impl EventHandler for EmptyComponent {}

impl Layoutable for EmptyComponent {
    open spec fn spec_has_children(&self) -> bool {
        true
    }

    open spec fn spec_is_primitive(&self) -> bool {
        false
    }

    fn has_children(&self) -> (r: bool) {
        true
    }

    fn is_primitive(&self) -> (r: bool) {
        false
    }
}

impl InternalLayoutable for RowComponent {
    open spec fn geometry(&self) -> Area {
        (self.x, self.y, self.width, self.height)
    }

    open spec fn with_geometry(self, g: Area) -> Self {
        RowComponent { x: g.0, y: g.1, width: g.2, height: g.3, children: self.children }
    }

    proof fn lemma_geometry_of_with(self, g: Area) {
    }

    proof fn lemma_with_geometry_twice(self, g1: Area, g2: Area) {
    }

    fn get_x(&self) -> (r: u32) {
        self.x
    }

    fn get_y(&self) -> (r: u32) {
        self.y
    }

    fn get_width(&self) -> (r: u32) {
        self.width
    }

    fn get_height(&self) -> (r: u32) {
        self.height
    }

    fn set_x(&mut self, x: u32) {
        self.x = x;
    }

    fn set_y(&mut self, y: u32) {
        self.y = y;
    }

    fn set_width(&mut self, width: u32) {
        self.width = width;
    }

    fn set_height(&mut self, height: u32) {
        self.height = height;
    }
}

impl EventHandler for RowComponent {}

impl Layoutable for RowComponent {
    open spec fn spec_has_children(&self) -> bool {
        self.children@.len() != 0
    }

    open spec fn spec_is_primitive(&self) -> bool {
        false
    }

    fn has_children(&self) -> (r: bool) {
        self.children.len() != 0
    }

    fn is_primitive(&self) -> (r: bool) {
        false
    }
}

/// What the layout of a container does next with one of its children.
#[derive(Debug, Clone, Copy, PartialEq, Eq, Structural)]
pub enum LayoutStep {
    /// Hand child `i` to the renderer.
    Emit(usize),
    /// Lay out the children of child `i`, in its own rectangle.
    Descend(usize),
}

/// The steps for children in order: a child with children of its own is
/// descended into, a childless primitive is emitted, any other childless
/// child is skipped.
pub open spec fn layout_steps<T: Layoutable>(children: Seq<Layouted<T>>, n: int) -> Seq<LayoutStep>
    decreases n,
{
    if n <= 0 {
        Seq::empty()
    } else {
        let prev = layout_steps(children, n - 1);
        let c = children[n - 1].element;
        if c.spec_has_children() {
            prev.push(LayoutStep::Descend((n - 1) as usize))
        } else if c.spec_is_primitive() {
            prev.push(LayoutStep::Emit((n - 1) as usize))
        } else {
            prev
        }
    }
}

proof fn lemma_layout_steps_frame<T: Layoutable>(a: Seq<Layouted<T>>, b: Seq<Layouted<T>>, n: int)
    requires
        0 <= n <= a.len(),
        a.len() == b.len(),
        forall|j: int| 0 <= j < n ==> #[trigger] a[j] == b[j],
    ensures
        layout_steps(a, n) == layout_steps(b, n),
    decreases n,
{
    if n > 0 {
        lemma_layout_steps_frame(a, b, n - 1);
    }
}

/// An empty component always lays out its background rectangle, so a
/// layout step descends into every empty-component child, in order, and
/// emits or skips none of them.
pub proof fn lemma_empty_components_are_descended_into(children: Seq<Layouted<EmptyComponent>>, n: int)
    requires
        0 <= n <= children.len(),
    ensures
        layout_steps(children, n) == Seq::new(n as nat, |i: int| LayoutStep::Descend(i as usize)),
    decreases n,
{
    if n > 0 {
        lemma_empty_components_are_descended_into(children, n - 1);
        assert(layout_steps(children, n) =~= Seq::new(n as nat, |i: int| LayoutStep::Descend(i as usize)));
    }
}

/// Rectangles are primitives without children of their own: a layout step
/// emits every rectangle child, in order, and descends into none.
pub proof fn lemma_rectangles_are_emitted(children: Seq<Layouted<Rectangle>>, n: int)
    requires
        0 <= n <= children.len(),
    ensures
        layout_steps(children, n) == Seq::new(n as nat, |i: int| LayoutStep::Emit(i as usize)),
    decreases n,
{
    if n > 0 {
        lemma_rectangles_are_emitted(children, n - 1);
        assert(layout_steps(children, n) =~= Seq::new(n as nat, |i: int| LayoutStep::Emit(i as usize)));
    }
}

/// Text is a primitive without children of its own: a layout step emits
/// every text child, in order, and descends into none.
pub proof fn lemma_texts_are_emitted(children: Seq<Layouted<Text>>, n: int)
    requires
        0 <= n <= children.len(),
    ensures
        layout_steps(children, n) == Seq::new(n as nat, |i: int| LayoutStep::Emit(i as usize)),
    decreases n,
{
    if n > 0 {
        lemma_texts_are_emitted(children, n - 1);
        assert(layout_steps(children, n) =~= Seq::new(n as nat, |i: int| LayoutStep::Emit(i as usize)));
    }
}

/// After a container's layout has given every child its rectangle, moves
/// and resizes each child into it (through its event handling) and lists,
/// in order, the children to emit and to descend into.
pub fn general_layout_step<T: Layoutable>(children: &mut Vec<Layouted<T>>) -> (r: Vec<LayoutStep>)
    requires
        forall|i: int| 0 <= i < old(children)@.len() ==> (#[trigger] old(children)@[i]).effective_layout is Some,
    ensures
        final(children)@.len() == old(children)@.len(),
        r@ == layout_steps(final(children)@, final(children)@.len() as int),
        forall|i: int|
            0 <= i < old(children)@.len() ==> {
                &&& (#[trigger] final(children)@[i]).element == old(children)@[i].element.with_geometry(
                    old(children)@[i].effective_layout->0,
                )
                &&& final(children)@[i].element.geometry() == old(children)@[i].effective_layout->0
                &&& final(children)@[i].layout_type == old(children)@[i].layout_type
                &&& final(children)@[i].effective_layout == old(children)@[i].effective_layout
            },
{
    let n = children.len();
    let mut steps: Vec<LayoutStep> = Vec::new();
    let mut i: usize = 0;
    while i < n
        invariant
            n == children@.len(),
            n == old(children)@.len(),
            i <= n,
            forall|j: int| 0 <= j < n ==> (#[trigger] old(children)@[j]).effective_layout is Some,
            forall|j: int|
                0 <= j < i ==> {
                    &&& (#[trigger] children@[j]).element == old(children)@[j].element.with_geometry(
                        old(children)@[j].effective_layout->0,
                    )
                    &&& children@[j].element.geometry() == old(children)@[j].effective_layout->0
                    &&& children@[j].layout_type == old(children)@[j].layout_type
                    &&& children@[j].effective_layout == old(children)@[j].effective_layout
                },
            forall|j: int| i <= j < n ==> #[trigger] children@[j] == old(children)@[j],
            steps@ == layout_steps(children@, i as int),
        decreases n - i,
    {
        let ghost before = children@;
        let (ex, ey, ew, eh) = children[i].effective_layout.unwrap();
        let ghost e0 = children@[i as int].element;
        children[i].element.handle_event(Events::Move { x: ex, y: ey });
        children[i].element.handle_event(Events::Resize { width: ew, height: eh });
        proof {
            let g1 = (ex, ey, e0.geometry().2, e0.geometry().3);
            e0.lemma_geometry_of_with(g1);
            e0.lemma_with_geometry_twice(g1, (ex, ey, ew, eh));
            e0.lemma_geometry_of_with((ex, ey, ew, eh));
            lemma_layout_steps_frame(before, children@, i as int);
        }
        if children[i].element.has_children() {
            steps.push(LayoutStep::Descend(i));
        } else if children[i].element.is_primitive() {
            steps.push(LayoutStep::Emit(i));
        }
        i = i + 1;
    }
    steps
}

} // verus!
