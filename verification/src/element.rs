//! The pointer element: the default cursor's timeline, the position in its
//! animation, and what the pointer currently shows; and the composer that
//! turns these into the render elements of one redraw.

use crate::error::CursorError;
use crate::timeline::{
    lemma_miss_is_past_the_end, timeline_of, total_delay, AnimationTimeline, TimedTexture,
};
use vstd::prelude::*;

verus! {

/// What the pointer shows: nothing, the themed default cursor, or content
/// that a client supplies.
#[derive(Debug, PartialEq, Eq)]
pub enum CursorStatus<S> {
    Hidden,
    Default,
    Surface(S),
}

/// A position on the output, in physical pixels.
#[derive(Clone, Copy, Debug, PartialEq, Eq, Structural)]
pub struct PhysicalPoint {
    pub x: i32,
    pub y: i32,
}

/// What to draw for the pointer: a frame of the default cursor at a
/// position, with no further transform, or one layer of a client's surface.
#[derive(Debug, PartialEq, Eq)]
pub enum PointerRenderElement<'a, T, L> {
    Texture { texture: &'a T, location: PhysicalPoint },
    Surface(L),
}

/// The offset within one run of `total_duration` milliseconds that is
/// reached after `elapsed` milliseconds of an animation that repeats for
/// ever; 0 for an animation that takes no time.
pub open spec fn looped_offset(elapsed: u64, total_duration: u64) -> u64 {
    if total_duration == 0 {
        0
    } else {
        (elapsed % total_duration) as u64
    }
}

/// The render element that draws `texture` at `location`.
pub open spec fn texture_element<'a, T, L>(
    texture: &'a T,
    location: PhysicalPoint,
) -> PointerRenderElement<'a, T, L> {
    PointerRenderElement::Texture { texture, location }
}

/// The render element that draws one layer of a client's surface.
pub open spec fn surface_element<'a, T, L>(layer: L) -> PointerRenderElement<'a, T, L> {
    PointerRenderElement::Surface(layer)
}

/// The surface layers as render elements, one for each and in their order.
pub open spec fn surface_elements<'a, T, L>(layers: Seq<L>) -> Seq<PointerRenderElement<'a, T, L>> {
    layers.map_values(|layer: L| surface_element(layer))
}

/// The pointer of one seat: the timeline of its default cursor, the offset
/// reached in that cursor's animation, and what the pointer shows. `T` is
/// the renderer's texture, `S` the handle of a client's surface.
pub struct PointerElement<T, S> {
    default: AnimationTimeline<T>,
    current_delay: u64,
    status: CursorStatus<S>,
}

impl<T, S> PointerElement<T, S> {
    /// The timeline of the default cursor.
    pub closed spec fn spec_timeline(&self) -> &AnimationTimeline<T> {
        &self.default
    }

    /// The current offset into the animation, in milliseconds.
    pub closed spec fn spec_current_delay(&self) -> u64 {
        self.current_delay
    }

    /// What the pointer shows.
    pub closed spec fn spec_status(&self) -> &CursorStatus<S> {
        &self.status
    }

    /// The timeline of the default cursor.
    #[verifier::when_used_as_spec(spec_timeline)]
    pub fn timeline(&self) -> (timeline: &AnimationTimeline<T>)
        ensures
            timeline == self.spec_timeline(),
    {
        &self.default
    }

    /// The current offset into the animation, in milliseconds.
    #[verifier::when_used_as_spec(spec_current_delay)]
    pub fn current_delay(&self) -> (offset: u64)
        ensures
            offset == self.spec_current_delay(),
    {
        self.current_delay
    }

    /// What the pointer shows.
    #[verifier::when_used_as_spec(spec_status)]
    pub fn status(&self) -> (status: &CursorStatus<S>)
        ensures
            status == self.spec_status(),
    {
        &self.status
    }

    /// The render elements of one redraw at `location`, where `layers` are
    /// the flattened layers of the client's surface.
    pub open spec fn composed<'a, L>(&'a self, location: PhysicalPoint, layers: Seq<L>) -> Seq<
        PointerRenderElement<'a, T, L>,
    > {
        match *self.status() {
            CursorStatus::Hidden => Seq::empty(),
            CursorStatus::Default => match self.timeline().selected(self.current_delay()) {
                Some(texture) => seq![texture_element(texture, location)],
                None => Seq::empty(),
            },
            CursorStatus::Surface(_) => surface_elements(layers),
        }
    }

    /// A pointer that shows the default cursor built from `frames`, at the
    /// start of its animation. No frame at all is a decode error.
    pub fn new(frames: Vec<TimedTexture<T>>) -> (element: Result<Self, CursorError>)
        requires
            total_delay(frames@) <= u64::MAX,
        ensures
            element is Err <==> frames@.len() == 0,
            element matches Err(e) ==> e == CursorError::ParseError,
            element matches Ok(pointer) ==> {
                &&& pointer.timeline().wf()
                &&& pointer.timeline()@ == timeline_of(frames@)
                &&& pointer.timeline().total_duration() == total_delay(frames@)
                &&& pointer.current_delay() == 0
                &&& pointer.status() is Default
            },
    {
        match AnimationTimeline::build(frames) {
            Ok(default) => Ok(
                PointerElement { default, current_delay: 0, status: CursorStatus::Default },
            ),
            Err(e) => Err(e),
        }
    }

    /// Moves to the offset reached `elapsed` milliseconds after the
    /// animation began, the animation repeating for ever. A frame is active
    /// at that offset.
    pub fn set_current_delay(&mut self, elapsed: u64)
        ensures
            final(self).current_delay() == looped_offset(
                elapsed,
                old(self).timeline().total_duration(),
            ),
            final(self).timeline() == old(self).timeline(),
            final(self).status() == old(self).status(),
            final(self).timeline().selected(final(self).current_delay()) is Some,
    {
        proof {
            use_type_invariant(&self.default);
            lemma_looped_offset_is_active(self.default, elapsed);
        }
        let total = self.default.total_duration();
        if total == 0 {
            self.current_delay = 0;
        } else {
            self.current_delay = elapsed % total;
        }
    }

    /// Moves to `offset` as it is given.
    pub fn seek(&mut self, offset: u64)
        ensures
            final(self).current_delay() == offset,
            final(self).timeline() == old(self).timeline(),
            final(self).status() == old(self).status(),
    {
        self.current_delay = offset;
    }

    /// Changes what the pointer shows.
    pub fn set_status(&mut self, status: CursorStatus<S>)
        ensures
            *final(self).status() == status,
            final(self).timeline() == old(self).timeline(),
            final(self).current_delay() == old(self).current_delay(),
    {
        self.status = status;
    }

    /// The frame of the default cursor that is active at the current
    /// offset, or a lookup miss where none is.
    pub fn current_texture(&self) -> (active: Result<&T, CursorError>)
        ensures
            match self.timeline().selected(self.current_delay()) {
                Some(texture) => active == Ok::<&T, CursorError>(texture),
                None => active == Err::<&T, CursorError>(CursorError::FrameLookupMiss),
            },
    {
        match self.default.select(self.current_delay) {
            Some(texture) => Ok(texture),
            None => Err(CursorError::FrameLookupMiss),
        }
    }

    /// The client's surface, where the pointer shows one: what has to be
    /// flattened into layers for the next redraw.
    pub fn client_surface(&self) -> (surface: Option<&S>)
        ensures
            match *self.status() {
                CursorStatus::Surface(s) => surface == Some(&s),
                _ => surface is None,
            },
    {
        match &self.status {
            CursorStatus::Surface(s) => Some(s),
            _ => None,
        }
    }

    /// The render elements of one redraw with the pointer at `location`.
    /// `layers` are the flattened layers of the client's surface, in
    /// stacking order; they are used only where the pointer shows a surface.
    pub fn render_elements<L>(&self, location: PhysicalPoint, layers: Vec<L>) -> (elements: Vec<
        PointerRenderElement<'_, T, L>,
    >)
        ensures
            elements@ == self.composed(location, layers@),
    {
        let mut elements: Vec<PointerRenderElement<'_, T, L>> = Vec::new();
        match &self.status {
            CursorStatus::Hidden => {},
            CursorStatus::Default => {
                match self.default.select(self.current_delay) {
                    Some(texture) => {
                        elements.push(PointerRenderElement::Texture { texture, location });
                        assert(elements@ == seq![texture_element::<T, L>(texture, location)]);
                    },
                    None => {},
                }
            },
            CursorStatus::Surface(_) => {
                let ghost all = layers@;
                for layer in it: layers
                    invariant
                        it.seq() == all,
                        elements@ == surface_elements::<T, L>(all.take(it.index() as int)),
                {
                    elements.push(PointerRenderElement::Surface(layer));
                }
                assert(all.take(all.len() as int) == all);
            },
        }
        elements
    }
}

/// The offset that the clock gives lies within one run, and a frame is
/// active at it: after `set_current_delay` the lookup does not miss.
pub proof fn lemma_looped_offset_is_active<T>(timeline: AnimationTimeline<T>, elapsed: u64)
    requires
        timeline.wf(),
    ensures
        timeline.total_duration() > 0 ==> looped_offset(elapsed, timeline.total_duration())
            < timeline.total_duration(),
        timeline.selected(looped_offset(elapsed, timeline.total_duration())) is Some,
{
    lemma_miss_is_past_the_end(timeline, looped_offset(elapsed, timeline.total_duration()));
}

/// A hidden pointer has no render element, whatever its timeline, its
/// offset, the position and the layers.
pub proof fn lemma_hidden_draws_nothing<T, S, L>(
    pointer: PointerElement<T, S>,
    location: PhysicalPoint,
    layers: Seq<L>,
)
    requires
        pointer.status() is Hidden,
    ensures
        pointer.composed(location, layers).len() == 0,
{
}

/// The default cursor has exactly one render element, the active frame at
/// the position given, where a frame is active at the current offset, and
/// none where the lookup misses.
pub proof fn lemma_default_draws_active_frame<T, S, L>(
    pointer: PointerElement<T, S>,
    location: PhysicalPoint,
    layers: Seq<L>,
)
    requires
        pointer.status() is Default,
    ensures
        match pointer.timeline().selected(pointer.current_delay()) {
            Some(texture) => pointer.composed(location, layers) == seq![
                texture_element::<T, L>(texture, location),
            ],
            None => pointer.composed(location, layers).len() == 0,
        },
        pointer.composed(location, layers).len() <= 1,
{
}

/// A client's surface has one render element for each of its layers, in
/// their order.
pub proof fn lemma_surface_draws_each_layer<T, S, L>(
    pointer: PointerElement<T, S>,
    location: PhysicalPoint,
    layers: Seq<L>,
)
    requires
        pointer.status() is Surface,
    ensures
        pointer.composed(location, layers).len() == layers.len(),
        forall|i: int|
            0 <= i < layers.len() ==> #[trigger] pointer.composed(location, layers)[i]
                == surface_element::<T, L>(layers[i]),
{
}

} // verus!
