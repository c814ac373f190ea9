use rnote_engine::color::Color;
use rnote_engine::geometry::{Aabb, Vec2, COORD_LIMIT};
use rnote_engine::strokecontent::{DrawCommand, RenderError, StrokeContent};
use rnote_engine::strokes::{Background, BrushStroke, Image, Stroke};
use std::sync::Arc;

fn aabb(minx: i64, miny: i64, maxx: i64, maxy: i64) -> Aabb {
    Aabb::new(Vec2::new(minx, miny), Vec2::new(maxx, maxy))
}

fn brush(bounds: Aabb, stroke_color: Color, fill_color: Option<Color>) -> Stroke {
    Stroke::BrushStroke(BrushStroke { bounds, stroke_color, fill_color })
}

#[test]
fn default_is_empty() {
    let c = StrokeContent::default();
    assert!(c.strokes.is_empty());
    assert!(c.bounds.is_none());
    assert!(c.background.is_none());
}

#[test]
fn mime_type_and_margin_constants() {
    assert_eq!(StrokeContent::MIME_TYPE, "application/rnote-stroke-content");
    assert_eq!(StrokeContent::CLIPBOARD_EXPORT_MARGIN, 6);
}

#[test]
fn empty_content_has_no_bounds_and_no_size() {
    let c = StrokeContent::default();
    assert_eq!(c.bounds(), None);
    assert_eq!(c.size(), None);
}

#[test]
fn bounds_are_union_of_stroke_bounds() {
    let red = Color::new(65280, 0, 0, 65280);
    let s1 = brush(aabb(0, 5, 10, 20), red, None);
    let s2 = brush(aabb(-4, 8, 3, 42), red, None);
    let c = StrokeContent::default().with_strokes(vec![Arc::new(s1), Arc::new(s2)]);
    assert_eq!(c.bounds(), Some(aabb(-4, 5, 10, 42)));
    assert_eq!(c.size(), Some(Vec2::new(14, 37)));
}

#[test]
fn bounds_are_invariant_to_stroke_order() {
    let red = Color::new(65280, 0, 0, 65280);
    let s1 = Arc::new(brush(aabb(0, 5, 10, 20), red, None));
    let s2 = Arc::new(brush(aabb(-4, 8, 3, 42), red, None));
    let s3 = Arc::new(Stroke::BitmapImage(Image { bounds: aabb(1, 1, 2, 2) }));
    let forward = StrokeContent::default().with_strokes(vec![
        Arc::clone(&s1),
        Arc::clone(&s2),
        Arc::clone(&s3),
    ]);
    let backward = StrokeContent::default().with_strokes(vec![s3, s2, s1]);
    assert_eq!(forward.bounds(), backward.bounds());
}

#[test]
fn bounds_override_wins_over_strokes() {
    let red = Color::new(65280, 0, 0, 65280);
    let s1 = brush(aabb(0, 0, 10, 10), red, None);
    let over = aabb(-100, -100, 500, 500);
    let c = StrokeContent::default()
        .with_strokes(vec![Arc::new(s1)])
        .with_bounds(Some(over));
    assert_eq!(c.bounds(), Some(over));
    let empty = StrokeContent::default().with_bounds(Some(over));
    assert_eq!(empty.bounds(), Some(over));
    assert_eq!(empty.size(), Some(Vec2::new(600, 600)));
}

#[test]
fn empty_content_draws_nothing() {
    let c = StrokeContent::default();
    assert_eq!(c.draw_commands(true, true, true, 6), Ok(Vec::new()));
    assert_eq!(c.generate_svg(true, true, true, 6), Ok(None));
}

#[test]
fn inverting_margin_is_an_error() {
    let c = StrokeContent::default().with_bounds(Some(aabb(0, 0, 4, 4)));
    assert_eq!(c.draw_commands(false, false, false, -3), Err(RenderError::InvalidBounds));
    assert_eq!(c.generate_svg(false, false, false, -3), Err(RenderError::InvalidBounds));
    assert_eq!(
        RenderError::InvalidBounds.message(),
        "loosened content bounds are inverted"
    );
}

#[test]
fn draw_is_two_balanced_clipped_passes() {
    let red = Color::new(65280, 0, 0, 65280);
    let s = brush(aabb(0, 0, 10, 10), red, None);
    let bg = Background { color: Color::new(65280, 65280, 65280, 65280) };
    let c = StrokeContent::default()
        .with_strokes(vec![Arc::new(s)])
        .with_background(Some(bg));
    let cmds = c.draw_commands(true, true, false, 2).unwrap();
    assert_eq!(
        cmds,
        vec![
            DrawCommand::PushClip(aabb(-2, -2, 12, 12)),
            DrawCommand::DrawBackground {
                background: bg,
                bounds: aabb(-2, -2, 12, 12),
                draw_pattern: true,
                optimize_printing: false,
            },
            DrawCommand::PopClip,
            DrawCommand::PushClip(aabb(0, 0, 10, 10)),
            DrawCommand::DrawStroke(s),
            DrawCommand::PopClip,
        ]
    );
}

#[test]
fn background_is_skipped_when_not_requested_or_absent() {
    let red = Color::new(65280, 0, 0, 65280);
    let s = brush(aabb(0, 0, 10, 10), red, None);
    let bg = Background { color: Color::new(1, 2, 3, 4) };
    let with_bg = StrokeContent::default()
        .with_strokes(vec![Arc::new(s)])
        .with_background(Some(bg));
    let not_requested = with_bg.draw_commands(false, true, false, 0).unwrap();
    assert!(not_requested
        .iter()
        .all(|c| !matches!(c, DrawCommand::DrawBackground { .. })));
    let without_bg = StrokeContent::default().with_strokes(vec![Arc::new(s)]);
    let absent = without_bg.draw_commands(true, true, false, 0).unwrap();
    assert!(absent
        .iter()
        .all(|c| !matches!(c, DrawCommand::DrawBackground { .. })));
}

#[test]
fn print_optimization_reduces_only_unenclosed_strokes() {
    let image = Stroke::BitmapImage(Image { bounds: aabb(0, 0, 100, 100) });
    let light = Color::new(60000, 60000, 0, 65280);
    let dark = Color::new(0, 0, 10, 65280);
    let inside = brush(aabb(10, 10, 20, 20), light, None);
    let outside = brush(aabb(150, 150, 160, 160), light, Some(dark));
    let c = StrokeContent::default().with_strokes(vec![
        Arc::new(image),
        Arc::new(inside),
        Arc::new(outside),
    ]);
    let cmds = c.draw_commands(false, false, true, 0).unwrap();
    let expected_reduced = brush(aabb(150, 150, 160, 160), dark, Some(dark));
    assert_eq!(
        cmds,
        vec![
            DrawCommand::PushClip(aabb(0, 0, 160, 160)),
            DrawCommand::PopClip,
            DrawCommand::PushClip(aabb(0, 0, 160, 160)),
            DrawCommand::DrawStroke(image),
            DrawCommand::DrawStroke(inside),
            DrawCommand::DrawStroke(expected_reduced),
            DrawCommand::PopClip,
        ]
    );
    // The container's shared entities are untouched; reduction happened on a
    // copy inside the command.
    assert_eq!(*c.strokes[2], outside);
}

#[test]
fn without_optimization_strokes_are_drawn_unmodified() {
    let light = Color::new(60000, 60000, 0, 65280);
    let dark = Color::new(0, 0, 10, 65280);
    let s = brush(aabb(150, 150, 160, 160), light, Some(dark));
    let c = StrokeContent::default().with_strokes(vec![Arc::new(s)]);
    let cmds = c.draw_commands(false, false, false, 0).unwrap();
    assert_eq!(cmds[3], DrawCommand::DrawStroke(s));
}

#[test]
fn generated_svg_starts_at_the_origin() {
    let red = Color::new(65280, 0, 0, 65280);
    let s = brush(aabb(10, 20, 30, 50), red, None);
    let c = StrokeContent::default().with_strokes(vec![Arc::new(s)]);
    let svg = c.generate_svg(false, false, false, 6).unwrap().unwrap();
    assert_eq!(svg.bounds, aabb(0, 0, 32, 42));
    assert_eq!(
        svg.commands,
        vec![
            DrawCommand::PushClip(aabb(0, 0, 32, 42)),
            DrawCommand::PopClip,
            DrawCommand::PushClip(aabb(6, 6, 26, 36)),
            DrawCommand::DrawStroke(brush(aabb(6, 6, 26, 36), red, None)),
            DrawCommand::PopClip,
        ]
    );
}

#[test]
fn extreme_coordinates_render_without_overflow() {
    let c = StrokeContent::default()
        .with_bounds(Some(aabb(-(COORD_LIMIT - 1), -(COORD_LIMIT - 1), COORD_LIMIT - 1, COORD_LIMIT - 1)));
    let cmds = c.draw_commands(false, false, false, COORD_LIMIT).unwrap();
    assert_eq!(
        cmds[0],
        DrawCommand::PushClip(aabb(
            -(2 * COORD_LIMIT - 1),
            -(2 * COORD_LIMIT - 1),
            2 * COORD_LIMIT - 1,
            2 * COORD_LIMIT - 1,
        ))
    );
    let svg = c.generate_svg(false, false, false, COORD_LIMIT).unwrap().unwrap();
    assert_eq!(svg.bounds.mins, Vec2::new(0, 0));
    assert_eq!(
        svg.bounds.maxs,
        Vec2::new(2 * (2 * COORD_LIMIT - 1), 2 * (2 * COORD_LIMIT - 1))
    );
}

#[test]
fn image_strokes_keep_their_colors_under_optimization() {
    let image = Stroke::VectorImage(Image { bounds: aabb(0, 0, 10, 10) });
    let c = StrokeContent::default().with_strokes(vec![Arc::new(image)]);
    let cmds = c.draw_commands(false, false, true, 0).unwrap();
    // The image's own bounding volume contains it, so it is drawn unmodified.
    assert_eq!(cmds[3], DrawCommand::DrawStroke(image));
}
