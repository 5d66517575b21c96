//! The frame decoder: the images of a cursor animation file, and the choice
//! of those whose nominal size is nearest to the size asked for.

use crate::error::CursorError;
use vstd::prelude::*;

verus! {

/// One image of a cursor animation file.
#[derive(Debug, PartialEq, Eq)]
pub struct CursorFrame {
    /// The size the image is meant for; `width` and `height` may differ from it.
    pub nominal_size: u32,
    pub width: u32,
    pub height: u32,
    /// The hotspot, in pixels from the left and from the top.
    pub xhot: u32,
    pub yhot: u32,
    /// How long the image is shown before the next, in milliseconds.
    pub delay: u32,
    /// The pixels, four bytes each, in the order of the file.
    pub pixels: Vec<u8>,
}

/// What a frame holds, as plain values.
pub struct FrameView {
    pub nominal_size: u32,
    pub width: u32,
    pub height: u32,
    pub xhot: u32,
    pub yhot: u32,
    pub delay: u32,
    pub pixels: Seq<u8>,
}

impl View for CursorFrame {
    type V = FrameView;

    open spec fn view(&self) -> FrameView {
        FrameView {
            nominal_size: self.nominal_size,
            width: self.width,
            height: self.height,
            xhot: self.xhot,
            yhot: self.yhot,
            delay: self.delay,
            pixels: self.pixels@,
        }
    }
}

/// The views of a sequence of frames, in order.
pub open spec fn views(frames: Seq<CursorFrame>) -> Seq<FrameView> {
    frames.map_values(|frame: CursorFrame| frame@)
}

/// The views of the frames that a parser gave, if it gave any.
pub open spec fn parsed_views(parsed: Option<Vec<CursorFrame>>) -> Option<Seq<FrameView>> {
    match parsed {
        Some(frames) => Some(views(frames@)),
        None => None,
    }
}

/// The views of the frames that decoding gave, or its error.
pub open spec fn decoded_views(frames: Result<Vec<CursorFrame>, CursorError>) -> Result<
    Seq<FrameView>,
    CursorError,
> {
    match frames {
        Ok(kept) => Ok(views(kept@)),
        Err(e) => Err(e),
    }
}

/// The images that `xcursor::parser::parse_xcursor` reads from a file's
/// bytes, in file order, or `None` where it rejects the file.
pub uninterp spec fn xcursor_images(content: Seq<u8>) -> Option<Seq<FrameView>>;

/// Calls `xcursor::parser::parse_xcursor`, which reads the header, the table
/// of contents and every image chunk that the table lists, passing over
/// entries of other types, and gives the images in the table's order, or
/// `None` on a wrong magic, a truncated chunk or an image it refuses. The
/// result depends on the bytes alone. Each image is handed on field by
/// field; of its two pixel buffers the one in file order is kept.
#[verifier::external_body]
fn parse_images(content: &[u8]) -> (images: Option<Vec<CursorFrame>>)
    ensures
        parsed_views(images) == xcursor_images(content@),
{
    xcursor::parser::parse_xcursor(content).map(
        |images| images.into_iter().map(
            |image| CursorFrame {
                nominal_size: image.size,
                width: image.width,
                height: image.height,
                xhot: image.xhot,
                yhot: image.yhot,
                delay: image.delay,
                pixels: image.pixels_rgba,
            },
        ).collect(),
    )
}

/// How far a nominal size lies from the size asked for.
pub open spec fn size_distance(nominal: u32, size: i32) -> int {
    if nominal >= size {
        nominal - size
    } else {
        size - nominal
    }
}

/// The nominal size among `frames` that lies nearest to `size`; of two that
/// lie equally near, the one that comes first in the sequence.
pub open spec fn nearest_size(frames: Seq<FrameView>, size: i32) -> u32
    decreases frames.len(),
{
    if frames.len() <= 1 {
        frames[0].nominal_size
    } else {
        let best = nearest_size(frames.drop_last(), size);
        if size_distance(frames.last().nominal_size, size) < size_distance(best, size) {
            frames.last().nominal_size
        } else {
            best
        }
    }
}

/// The test that a frame has the nominal size `nominal`.
pub open spec fn has_nominal_size(nominal: u32) -> spec_fn(FrameView) -> bool {
    |frame: FrameView| frame.nominal_size == nominal
}

/// The frames of `frames` whose nominal size is nearest to `size`, in order.
pub open spec fn nearest_frames(frames: Seq<FrameView>, size: i32) -> Seq<FrameView> {
    frames.filter(has_nominal_size(nearest_size(frames, size)))
}

/// What decoding gives for a parser's result: a parse error where the parser
/// rejected the file or found no image in it, else the nearest frames.
pub open spec fn decoded(parsed: Option<Seq<FrameView>>, size: i32) -> Result<
    Seq<FrameView>,
    CursorError,
> {
    match parsed {
        Some(images) if images.len() > 0 => Ok(nearest_frames(images, size)),
        _ => Err(CursorError::ParseError),
    }
}

/// How far `nominal` lies from `size`.
fn distance_to(nominal: u32, size: i32) -> (distance: u64)
    ensures
        distance == size_distance(nominal, size),
{
    let nominal: i64 = nominal as i64;
    let size: i64 = size as i64;
    if nominal >= size {
        (nominal - size) as u64
    } else {
        (size - nominal) as u64
    }
}

/// The nominal size among `frames` that lies nearest to `size`, or `None`
/// where there is no frame.
pub fn nearest_nominal_size(frames: &Vec<CursorFrame>, size: i32) -> (nominal: Option<u32>)
    ensures
        nominal == if frames@.len() == 0 {
            None
        } else {
            Some(nearest_size(views(frames@), size))
        },
{
    if frames.len() == 0 {
        return None;
    }
    let mut best: u32 = frames[0].nominal_size;
    let mut i: usize = 1;
    proof {
        assert(views(frames@).take(1).len() == 1);
    }
    while i < frames.len()
        invariant
            1 <= i <= frames@.len(),
            best == nearest_size(views(frames@).take(i as int), size),
        decreases frames@.len() - i,
    {
        proof {
            let next = views(frames@).take(i as int + 1);
            assert(next.drop_last() == views(frames@).take(i as int));
            assert(next.last() == frames@[i as int]@);
        }
        let candidate: u32 = frames[i].nominal_size;
        if distance_to(candidate, size) < distance_to(best, size) {
            best = candidate;
        }
        i = i + 1;
    }
    proof {
        assert(views(frames@).take(frames@.len() as int) == views(frames@));
    }
    Some(best)
}

/// Keeps the frames whose nominal size is `nominal`, in order.
pub fn frames_of_size(frames: Vec<CursorFrame>, nominal: u32) -> (kept: Vec<CursorFrame>)
    ensures
        views(kept@) == views(frames@).filter(has_nominal_size(nominal)),
{
    let ghost all = views(frames@);
    let ghost keep = has_nominal_size(nominal);
    let mut kept: Vec<CursorFrame> = Vec::new();
    proof {
        reveal(Seq::filter);
        assert(all.take(0).filter(keep) == Seq::<FrameView>::empty());
        assert(views(kept@) == Seq::<FrameView>::empty());
    }
    for frame in it: frames
        invariant
            views(it.seq()) == all,
            keep == has_nominal_size(nominal),
            views(kept@) == all.take(it.index() as int).filter(keep),
    {
        proof {
            reveal(Seq::filter);
            let next = all.take(it.index() as int + 1);
            assert(next.drop_last() == all.take(it.index() as int));
            assert(next.last() == frame@);
        }
        if frame.nominal_size == nominal {
            let ghost before = kept@;
            kept.push(frame);
            proof {
                assert(views(kept@) == views(before).push(frame@));
            }
        }
    }
    proof {
        assert(all.take(all.len() as int) == all);
    }
    kept
}

/// Decides what a parser's result decodes to: a parse error where the parser
/// rejected the file or found no image in it, else the frames whose nominal
/// size is nearest to `size`, of which there is at least one.
pub fn select_frames(parsed: Option<Vec<CursorFrame>>, size: i32) -> (frames: Result<
    Vec<CursorFrame>,
    CursorError,
>)
    ensures
        decoded_views(frames) == decoded(parsed_views(parsed), size),
        frames matches Ok(kept) ==> kept@.len() > 0,
{
    match parsed {
        Some(images) => {
            match nearest_nominal_size(&images, size) {
                Some(nominal) => {
                    proof {
                        lemma_nearest_frames_not_empty(views(images@), size);
                    }
                    Ok(frames_of_size(images, nominal))
                },
                None => Err(CursorError::ParseError),
            }
        },
        None => Err(CursorError::ParseError),
    }
}

/// Decodes the bytes of a cursor animation file into the frames whose
/// nominal size is nearest to `size`, in file order. A file that the parser
/// rejects, or that holds no image, is a parse error.
pub fn decode_frames(content: &[u8], size: i32) -> (frames: Result<Vec<CursorFrame>, CursorError>)
    ensures
        decoded_views(frames) == decoded(xcursor_images(content@), size),
        frames matches Ok(kept) ==> kept@.len() > 0,
{
    select_frames(parse_images(content), size)
}

/// The width and height of the built-in cursor, in pixels.
pub const BUILTIN_SIZE: u32 = 8;

/// Whether the built-in cursor covers the pixel in column `x` of row `y`:
/// an arrow head with its tip at the top left.
pub open spec fn builtin_covers(x: int, y: int) -> bool {
    x <= y
}

/// The byte at `at` among the pixels of the built-in cursor: every byte of
/// a covered pixel is 255, opaque white, and every other byte 0.
pub open spec fn builtin_byte(at: int) -> u8 {
    if builtin_covers((at / 4) % (BUILTIN_SIZE as int), (at / 4) / (BUILTIN_SIZE as int)) {
        0xff
    } else {
        0
    }
}

/// What the built-in cursor holds: one still image with its hotspot at its tip.
pub open spec fn builtin_view() -> FrameView {
    FrameView {
        nominal_size: BUILTIN_SIZE,
        width: BUILTIN_SIZE,
        height: BUILTIN_SIZE,
        xhot: 0,
        yhot: 0,
        delay: 0,
        pixels: Seq::new(4 * BUILTIN_SIZE as nat * BUILTIN_SIZE as nat, |at: int| builtin_byte(at)),
    }
}

/// A cursor of last resort, for when no theme's icon can be had.
pub fn builtin_frame() -> (frame: CursorFrame)
    ensures
        frame@ == builtin_view(),
{
    let mut pixels: Vec<u8> = Vec::new();
    let mut y: u32 = 0;
    while y < BUILTIN_SIZE
        invariant
            0 <= y <= BUILTIN_SIZE == 8,
            pixels@.len() == 32 * y,
            forall|at: int| 0 <= at < pixels@.len() ==> pixels@[at] == builtin_byte(at),
        decreases BUILTIN_SIZE - y,
    {
        let mut x: u32 = 0;
        while x < BUILTIN_SIZE
            invariant
                0 <= x <= BUILTIN_SIZE == 8,
                0 <= y < BUILTIN_SIZE,
                pixels@.len() == 32 * y + 4 * x,
                forall|at: int| 0 <= at < pixels@.len() ==> pixels@[at] == builtin_byte(at),
            decreases BUILTIN_SIZE - x,
        {
            let byte: u8 = if x <= y {
                0xff
            } else {
                0
            };
            proof {
                let start = 32 * y + 4 * x;
                assert forall|at: int| start <= at < start + 4 implies builtin_byte(at) == byte by {
                    assert(at / 4 == 8 * y + x);
                    assert((8 * y + x) % 8 == x);
                    assert((8 * y + x) / 8 == y);
                }
            }
            pixels.push(byte);
            pixels.push(byte);
            pixels.push(byte);
            pixels.push(byte);
            x = x + 1;
        }
        y = y + 1;
    }
    assert(pixels@ =~= builtin_view().pixels);
    CursorFrame {
        nominal_size: BUILTIN_SIZE,
        width: BUILTIN_SIZE,
        height: BUILTIN_SIZE,
        xhot: 0,
        yhot: 0,
        delay: 0,
        pixels,
    }
}

/// The nearest size is the nominal size of the first frame from which no
/// frame lies nearer to `size`.
pub proof fn lemma_nearest_size_is_nearest(frames: Seq<FrameView>, size: i32)
    requires
        frames.len() > 0,
    ensures
        exists|at: int|
            {
                &&& 0 <= at < frames.len()
                &&& #[trigger] frames[at].nominal_size == nearest_size(frames, size)
                &&& forall|j: int|
                    0 <= j < at ==> size_distance(frames[j].nominal_size, size) > size_distance(
                        nearest_size(frames, size),
                        size,
                    )
            },
        forall|j: int|
            0 <= j < frames.len() ==> size_distance(nearest_size(frames, size), size)
                <= size_distance(#[trigger] frames[j].nominal_size, size),
    decreases frames.len(),
{
    if frames.len() == 1 {
        assert(frames[0].nominal_size == nearest_size(frames, size));
    } else {
        let before = frames.drop_last();
        lemma_nearest_size_is_nearest(before, size);
        let best = nearest_size(before, size);
        let at = choose|at: int|
            {
                &&& 0 <= at < before.len()
                &&& #[trigger] before[at].nominal_size == best
                &&& forall|j: int|
                    0 <= j < at ==> size_distance(before[j].nominal_size, size) > size_distance(
                        best,
                        size,
                    )
            };
        assert forall|j: int| 0 <= j < frames.len() implies size_distance(
            nearest_size(frames, size),
            size,
        ) <= size_distance(#[trigger] frames[j].nominal_size, size) by {
            if j < before.len() {
                assert(before[j] == frames[j]);
            }
        }
        if size_distance(frames.last().nominal_size, size) < size_distance(best, size) {
            let last = frames.len() - 1;
            assert(frames[last].nominal_size == nearest_size(frames, size));
            assert forall|j: int| 0 <= j < last implies size_distance(
                frames[j].nominal_size,
                size,
            ) > size_distance(nearest_size(frames, size), size) by {
                assert(before[j] == frames[j]);
            }
        } else {
            assert(frames[at] == before[at]);
            assert(frames[at].nominal_size == nearest_size(frames, size));
            assert forall|j: int| 0 <= j < at implies size_distance(frames[j].nominal_size, size)
                > size_distance(nearest_size(frames, size), size) by {
                assert(before[j] == frames[j]);
            }
        }
    }
}

/// Where some frame has exactly the size asked for, that size is the nearest.
pub proof fn lemma_matching_size_is_nearest(frames: Seq<FrameView>, size: i32, at: int)
    requires
        0 <= at < frames.len(),
        frames[at].nominal_size == size,
    ensures
        nearest_size(frames, size) == size,
{
    lemma_nearest_size_is_nearest(frames, size);
    assert(size_distance(frames[at].nominal_size, size) == 0);
}

/// Some frame is among the nearest, and each of them comes from `frames`
/// and has the nearest size.
pub proof fn lemma_nearest_frames_not_empty(frames: Seq<FrameView>, size: i32)
    requires
        frames.len() > 0,
    ensures
        0 < nearest_frames(frames, size).len() <= frames.len(),
        forall|i: int|
            0 <= i < nearest_frames(frames, size).len() ==> {
                &&& (#[trigger] nearest_frames(frames, size)[i]).nominal_size == nearest_size(
                    frames,
                    size,
                )
                &&& frames.contains(nearest_frames(frames, size)[i])
            },
{
    let keep = has_nominal_size(nearest_size(frames, size));
    lemma_nearest_size_is_nearest(frames, size);
    let at = choose|at: int|
        0 <= at < frames.len() && #[trigger] frames[at].nominal_size == nearest_size(frames, size);
    assert(keep(frames[at]));
    frames.lemma_filter_contains(keep, at);
    frames.lemma_filter_len(keep);
    assert forall|i: int| 0 <= i < nearest_frames(frames, size).len() implies {
        &&& (#[trigger] nearest_frames(frames, size)[i]).nominal_size == nearest_size(frames, size)
        &&& frames.contains(nearest_frames(frames, size)[i])
    } by {
        frames.lemma_filter_pred(keep, i);
        assert(frames.filter(keep).contains(frames.filter(keep)[i]));
        frames.lemma_filter_contains_rev(keep, frames.filter(keep)[i]);
    }
}

} // verus!
