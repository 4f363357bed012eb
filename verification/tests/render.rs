use memegen::error::PipelineError;
use memegen::render::{
    caption_offset, font_path, get_image_from_prompt, image_path, layout_captions, output_path,
    Caption, DrawOp, Ink, BOTTOM_MARGIN, FONT_SIZE, OUTLINE_DEPTH,
};

#[test]
fn narrow_caption_is_centred() {
    assert_eq!(caption_offset(800, 200), 300);
    assert_eq!(caption_offset(101, 50), 25);
    assert_eq!(caption_offset(100, 99), 0);
    assert_eq!(caption_offset(100, 98), 1);
    assert_eq!(caption_offset(10, 0), 5);
    assert_eq!(caption_offset(usize::MAX, 0), usize::MAX / 2);
}

#[test]
fn wide_caption_starts_at_the_left_edge() {
    assert_eq!(caption_offset(100, 100), 0);
    assert_eq!(caption_offset(100, 250), 0);
    assert_eq!(caption_offset(0, 0), 0);
    assert_eq!(caption_offset(0, usize::MAX), 0);
}

#[test]
fn constants_of_the_layout() {
    assert_eq!(FONT_SIZE, 55);
    assert_eq!(BOTTOM_MARGIN, 20);
    assert_eq!(OUTLINE_DEPTH, 4);
}

#[test]
fn plan_has_five_passes_of_two_captions() {
    let ops = layout_captions(800, 600, 200, 1000).unwrap();
    let expected = vec![
        DrawOp { caption: Caption::Top, x: 304, y: 59, ink: Ink::Light },
        DrawOp { caption: Caption::Bottom, x: 4, y: 584, ink: Ink::Light },
        DrawOp { caption: Caption::Top, x: 303, y: 58, ink: Ink::Light },
        DrawOp { caption: Caption::Bottom, x: 3, y: 583, ink: Ink::Light },
        DrawOp { caption: Caption::Top, x: 302, y: 57, ink: Ink::Light },
        DrawOp { caption: Caption::Bottom, x: 2, y: 582, ink: Ink::Light },
        DrawOp { caption: Caption::Top, x: 301, y: 56, ink: Ink::Light },
        DrawOp { caption: Caption::Bottom, x: 1, y: 581, ink: Ink::Light },
        DrawOp { caption: Caption::Top, x: 300, y: 55, ink: Ink::Dark },
        DrawOp { caption: Caption::Bottom, x: 0, y: 580, ink: Ink::Dark },
    ];
    assert_eq!(ops, expected);
}

#[test]
fn image_as_low_as_the_margin_is_laid_out() {
    let ops = layout_captions(10, 20, 4, 6).unwrap();
    assert_eq!(ops.len(), 10);
    assert_eq!(ops[9], DrawOp { caption: Caption::Bottom, x: 2, y: 0, ink: Ink::Dark });
    assert_eq!(ops[8], DrawOp { caption: Caption::Top, x: 3, y: 55, ink: Ink::Dark });
    assert_eq!(ops[1], DrawOp { caption: Caption::Bottom, x: 6, y: 4, ink: Ink::Light });
}

#[test]
fn image_lower_than_the_margin_cannot_be_laid_out() {
    assert_eq!(layout_captions(800, 19, 10, 10), Err(PipelineError::RenderError));
    assert_eq!(layout_captions(800, 0, 10, 10), Err(PipelineError::RenderError));
}

#[test]
fn largest_image_is_laid_out() {
    let ops = layout_captions(usize::MAX, usize::MAX, 0, usize::MAX).unwrap();
    assert_eq!(ops[0].x, usize::MAX / 2 + 4);
    assert_eq!(ops[1], DrawOp { caption: Caption::Bottom, x: 4, y: usize::MAX - 16, ink: Ink::Light });
}

#[test]
fn image_is_named_between_the_first_two_quotes() {
    assert_eq!(get_image_from_prompt("Make a meme of \"doge\" now"), Ok("doge".to_string()));
    assert_eq!(get_image_from_prompt("\"a\" and \"b\""), Ok("a".to_string()));
    assert_eq!(get_image_from_prompt("\"\""), Ok(String::new()));
    assert_eq!(get_image_from_prompt("x\"é ü\"\""), Ok("é ü".to_string()));
}

#[test]
fn prompt_with_fewer_than_two_quotes_names_no_image() {
    assert_eq!(get_image_from_prompt("no quotes"), Err(PipelineError::MalformedImagePrompt));
    assert_eq!(get_image_from_prompt("one \" quote"), Err(PipelineError::MalformedImagePrompt));
    assert_eq!(get_image_from_prompt(""), Err(PipelineError::MalformedImagePrompt));
    assert_eq!(get_image_from_prompt("\""), Err(PipelineError::MalformedImagePrompt));
}

#[test]
fn asset_paths() {
    assert_eq!(image_path("doge"), "images/doge.jpg");
    assert_eq!(font_path(), "font/Anton-Regular.ttf");
    assert_eq!(output_path(), "output/output.jpg");
}
