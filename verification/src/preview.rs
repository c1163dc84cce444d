//! Image preview: how large an image may be handed on, and the state of
//! the one image slot.

use vstd::prelude::*;

verus! {

/// The largest image, in pixels, that is handed on for a terminal of
/// `cols` by `rows` cells: ten pixels for each column, twenty for each row.
pub open spec fn budget(cols: u16, rows: u16) -> (u32, u32) {
    ((cols * 10) as u32, (rows * 20) as u32)
}

/// See [`budget`].
pub fn resize_budget(cols: u16, rows: u16) -> (r: (u32, u32))
    ensures
        r == budget(cols, rows),
        r.0 == cols * 10,
        r.1 == rows * 20,
{
    ((cols as u32) * 10, (rows as u32) * 20)
}

/// The box that a decoded image of `width` by `height` pixels has to be
/// shrunk into before it is handed on, or `None` when it fits the budget
/// as it is. An image is never enlarged: the box is only given for an image
/// that is wider or higher than it.
pub fn presize_target(width: u32, height: u32, cols: u16, rows: u16) -> (r: Option<(u32, u32)>)
    ensures
        r == if width > budget(cols, rows).0 || height > budget(cols, rows).1 {
            Some(budget(cols, rows))
        } else {
            None
        },
{
    let (max_width, max_height) = resize_budget(cols, rows);
    if width > max_width || height > max_height {
        Some((max_width, max_height))
    } else {
        None
    }
}

/// Whether an image of `width` by `height` pixels fits the budget of a
/// terminal of `cols` by `rows` cells.
pub open spec fn fits_budget(width: u32, height: u32, cols: u16, rows: u16) -> bool {
    width <= budget(cols, rows).0 && height <= budget(cols, rows).1
}

/// The size of the image that is handed on for a decoded image of `width`
/// by `height` pixels: the decoded image itself where it fits the budget;
/// else the image that shrinking gave, of the size `shrunk`, where that
/// fits the budget and is in no direction larger than the decoded image;
/// else none.
pub open spec fn handed_on(width: u32, height: u32, cols: u16, rows: u16, shrunk: (u32, u32))
    -> Option<(u32, u32)> {
    if fits_budget(width, height, cols, rows) {
        Some((width, height))
    } else if fits_budget(shrunk.0, shrunk.1, cols, rows) && shrunk.0 <= width && shrunk.1
        <= height {
        Some(shrunk)
    } else {
        None
    }
}

/// Whether the image that shrinking gave, of `shrunk_width` by
/// `shrunk_height` pixels, may be handed on in place of a decoded image of
/// `width` by `height` pixels that did not fit the budget: it fits the
/// budget, and is in no direction larger than the decoded image.
pub fn accept_shrunk(
    width: u32,
    height: u32,
    cols: u16,
    rows: u16,
    shrunk_width: u32,
    shrunk_height: u32,
) -> (ok: bool)
    ensures
        ok == (fits_budget(shrunk_width, shrunk_height, cols, rows) && shrunk_width <= width
            && shrunk_height <= height),
        !fits_budget(width, height, cols, rows) ==> ok == (handed_on(
            width,
            height,
            cols,
            rows,
            (shrunk_width, shrunk_height),
        ) == Some((shrunk_width, shrunk_height))),
{
    let (max_width, max_height) = resize_budget(cols, rows);
    shrunk_width <= max_width && shrunk_height <= max_height && shrunk_width <= width
        && shrunk_height <= height
}

/// Whatever shrinking gives, an image that is handed on fits the budget and
/// is in no direction larger than the decoded image; an image that fits the
/// budget is handed on as it was decoded; and nothing is handed on only
/// where the decoded image did not fit.
pub proof fn lemma_handed_on_within_budget(
    width: u32,
    height: u32,
    cols: u16,
    rows: u16,
    shrunk: (u32, u32),
)
    ensures
        match handed_on(width, height, cols, rows, shrunk) {
            Some(size) => fits_budget(size.0, size.1, cols, rows) && size.0 <= width && size.1
                <= height,
            None => !fits_budget(width, height, cols, rows),
        },
        fits_budget(width, height, cols, rows) ==> handed_on(width, height, cols, rows, shrunk)
            == Some((width, height)),
{
}

/// What the image slot shows.
#[derive(Clone, Copy, Debug, PartialEq, Eq, Structural)]
pub enum ImageState {
    /// No image is being shown: the editor shows text.
    Text,
    /// An image was asked for and has not come yet.
    Loading,
    /// The image has come.
    Ready,
    /// The image could not be decoded.
    Failed,
}

impl ImageState {
    /// The state after the decoder answered: while an image is shown, the
    /// answer decides between `Ready` and `Failed`; while text is shown, it
    /// changes nothing.
    pub open spec fn decoded(self, ok: bool) -> ImageState {
        match self {
            ImageState::Text => ImageState::Text,
            _ => if ok {
                ImageState::Ready
            } else {
                ImageState::Failed
            },
        }
    }

    /// See [`ImageState::decoded`].
    pub fn on_decoded(self, ok: bool) -> (r: ImageState)
        ensures
            r == self.decoded(ok),
    {
        match self {
            ImageState::Text => ImageState::Text,
            _ => if ok {
                ImageState::Ready
            } else {
                ImageState::Failed
            },
        }
    }

    /// Whether a resized image that comes in is taken: only an image that
    /// is there can be replaced.
    pub fn accepts_resized(self) -> (r: bool)
        ensures
            r == (self == ImageState::Ready),
    {
        match self {
            ImageState::Ready => true,
            _ => false,
        }
    }

    /// Whether an image, not text, is being shown.
    pub fn is_image_mode(self) -> (r: bool)
        ensures
            r == (self != ImageState::Text),
    {
        match self {
            ImageState::Text => false,
            _ => true,
        }
    }
}

} // verus!
