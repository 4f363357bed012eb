//! Where the captions of an image macro go: the layout that the renderer
//! follows, and the names of the assets it reads and writes.

use vstd::prelude::*;
use vstd::string::StringExecFns;
use crate::error::PipelineError;
use crate::text::{chars_of, find_char, first_index_of, slice_of, string_of};

verus! {

/// Point size at which both captions are set, and the baseline of the top one.
pub const FONT_SIZE: usize = 55;

/// Distance of the bottom caption's baseline from the lower edge.
pub const BOTTOM_MARGIN: usize = 20;

/// Number of light passes drawn under the final dark one.
pub const OUTLINE_DEPTH: usize = 4;

/// Which of the two captions a drawing step sets.
#[derive(Clone, Copy, Debug, PartialEq, Eq, Structural)]
pub enum Caption {
    Top,
    Bottom,
}

/// The colour of one pass: light for the contour, dark for the face.
#[derive(Clone, Copy, Debug, PartialEq, Eq, Structural)]
pub enum Ink {
    Light,
    Dark,
}

/// One drawing step: set `caption` in `ink` with its baseline starting at (`x`, `y`).
#[derive(Clone, Copy, Debug, PartialEq, Eq, Structural)]
pub struct DrawOp {
    pub caption: Caption,
    pub x: usize,
    pub y: usize,
    pub ink: Ink,
}

/// What the renderer is asked to do: the base image and the two captions.
#[derive(Debug)]
pub struct RenderRequest {
    pub base_image_id: String,
    pub top_caption: String,
    pub bottom_caption: String,
}

/// Horizontal position of a caption `text_width` pixels wide on an image
/// `image_width` pixels wide: centred where it fits, at the left edge where it
/// does not.
pub open spec fn centered_offset(image_width: int, text_width: int) -> int {
    if text_width < image_width {
        (image_width - text_width) / 2
    } else {
        0
    }
}

/// The ink of the pass drawn `offset` pixels off the final position.
pub open spec fn ink_at(offset: int) -> Ink {
    if offset != 0 {
        Ink::Light
    } else {
        Ink::Dark
    }
}

/// Step `k` of the plan. Passes run from the farthest offset down to zero, and
/// each pass sets the top caption, then the bottom one.
pub open spec fn planned_op(
    image_width: int,
    image_height: int,
    top_width: int,
    bottom_width: int,
    k: int,
) -> DrawOp {
    let offset = OUTLINE_DEPTH - k / 2;
    if k % 2 == 0 {
        DrawOp {
            caption: Caption::Top,
            x: (centered_offset(image_width, top_width) + offset) as usize,
            y: (FONT_SIZE + offset) as usize,
            ink: ink_at(offset),
        }
    } else {
        DrawOp {
            caption: Caption::Bottom,
            x: (centered_offset(image_width, bottom_width) + offset) as usize,
            y: (image_height - BOTTOM_MARGIN + offset) as usize,
            ink: ink_at(offset),
        }
    }
}

/// The whole plan: two steps for each of the `OUTLINE_DEPTH + 1` passes.
pub open spec fn planned_ops(
    image_width: int,
    image_height: int,
    top_width: int,
    bottom_width: int,
) -> Seq<DrawOp> {
    Seq::new(
        2 * (OUTLINE_DEPTH + 1) as nat,
        |k: int| planned_op(image_width, image_height, top_width, bottom_width, k),
    )
}

/// The horizontal position of a caption of the given width.
pub fn caption_offset(image_width: usize, text_width: usize) -> (x: usize)
    ensures
        x == centered_offset(image_width as int, text_width as int),
        text_width < image_width ==> x == (image_width - text_width) / 2,
        text_width >= image_width ==> x == 0,
        x <= image_width / 2,
{
    if text_width < image_width {
        (image_width - text_width) / 2
    } else {
        0
    }
}

/// The drawing steps for an image of the given size and captions of the
/// given measured widths. An image lower than the bottom margin cannot take
/// the bottom caption.
pub fn layout_captions(
    image_width: usize,
    image_height: usize,
    top_width: usize,
    bottom_width: usize,
) -> (plan: Result<Vec<DrawOp>, PipelineError>)
    ensures
        image_height < BOTTOM_MARGIN <==> plan is Err,
        plan matches Err(e) ==> e == PipelineError::RenderError,
        plan matches Ok(ops) ==> ops@ == planned_ops(
            image_width as int,
            image_height as int,
            top_width as int,
            bottom_width as int,
        ),
{
    if image_height < BOTTOM_MARGIN {
        return Err(PipelineError::RenderError);
    }
    let top_x = caption_offset(image_width, top_width);
    let bottom_x = caption_offset(image_width, bottom_width);
    let mut ops: Vec<DrawOp> = Vec::new();
    let mut pass: usize = 0;
    while pass <= OUTLINE_DEPTH
        invariant
            pass <= OUTLINE_DEPTH + 1,
            image_height >= BOTTOM_MARGIN,
            top_x == centered_offset(image_width as int, top_width as int),
            bottom_x == centered_offset(image_width as int, bottom_width as int),
            top_x <= image_width / 2,
            bottom_x <= image_width / 2,
            ops@.len() == 2 * pass,
            forall|k: int|
                0 <= k < ops@.len() ==> ops@[k] == planned_op(
                    image_width as int,
                    image_height as int,
                    top_width as int,
                    bottom_width as int,
                    k,
                ),
        decreases OUTLINE_DEPTH + 1 - pass,
    {
        let offset: usize = OUTLINE_DEPTH - pass;
        let ink = if offset != 0 {
            Ink::Light
        } else {
            Ink::Dark
        };
        ops.push(DrawOp { caption: Caption::Top, x: top_x + offset, y: FONT_SIZE + offset, ink });
        ops.push(
            DrawOp {
                caption: Caption::Bottom,
                x: bottom_x + offset,
                y: image_height - BOTTOM_MARGIN + offset,
                ink,
            },
        );
        pass += 1;
    }
    assert(ops@ =~= planned_ops(
        image_width as int,
        image_height as int,
        top_width as int,
        bottom_width as int,
    ));
    Ok(ops)
}

/// The text between the first two double quotes of `prompt`: the name of the
/// base image by the convention of image templates.
pub open spec fn quoted_image_id(prompt: Seq<char>) -> Option<Seq<char>> {
    match first_index_of(prompt, '"') {
        Some(open) => {
            let rest = prompt.subrange(open + 1, prompt.len() as int);
            match first_index_of(rest, '"') {
                Some(close) => Some(rest.subrange(0, close)),
                None => None,
            }
        },
        None => None,
    }
}

/// The base image that a resolved image prompt names.
pub fn get_image_from_prompt(prompt: &str) -> (id: Result<String, PipelineError>)
    ensures
        match id {
            Ok(name) => quoted_image_id(prompt@) == Some(name@),
            Err(e) => e == PipelineError::MalformedImagePrompt && quoted_image_id(prompt@) is None,
        },
{
    let text = chars_of(prompt);
    match find_char(&text, '"') {
        Some(open) => {
            let rest = slice_of(&text, open + 1, text.len());
            match find_char(&rest, '"') {
                Some(close) => {
                    let name = slice_of(&rest, 0, close);
                    Ok(string_of(&name))
                },
                None => Err(PipelineError::MalformedImagePrompt),
            }
        },
        None => Err(PipelineError::MalformedImagePrompt),
    }
}

/// Where the base image called `id` is kept.
pub open spec fn base_image_path(id: Seq<char>) -> Seq<char> {
    "images/"@ + id + ".jpg"@
}

/// The path of the base image called `id`.
pub fn image_path(id: &str) -> (path: String)
    ensures
        path@ == base_image_path(id@),
{
    "images/".to_owned().concat(id).concat(".jpg")
}

/// The path of the typeface in which captions are set.
pub fn font_path() -> (path: String)
    ensures
        path@ == "font/Anton-Regular.ttf"@,
{
    "font/Anton-Regular.ttf".to_owned()
}

/// The path to which the rendered image is written, each run over the last.
pub fn output_path() -> (path: String)
    ensures
        path@ == "output/output.jpg"@,
{
    "output/output.jpg".to_owned()
}

} // verus!
