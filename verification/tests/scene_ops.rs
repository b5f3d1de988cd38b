use zenith_scene::palette::Color;
use zenith_scene::scene_ops::{frame_scene, page_scene, rect_paint, SceneOp};

fn depth_ok(ops: &[SceneOp]) -> bool {
    let mut d: i64 = 0;
    for op in ops {
        match op {
            SceneOp::PushClip => d += 1,
            SceneOp::PopClip => d -= 1,
            _ => {}
        }
        if d < 0 {
            return false;
        }
    }
    d == 0
}

#[test]
fn page_background_first_children_in_order_clip_closed() {
    let bg = Color::srgb(255, 255, 255, 255);
    let red = Color::srgb(255, 0, 0, 255);
    let frame = frame_scene(&vec![vec![SceneOp::FillRect(red)]]);
    let ops = page_scene(Some(bg), &vec![vec![SceneOp::Draw], frame.clone()]);
    assert_eq!(
        ops,
        vec![
            SceneOp::PushClip,
            SceneOp::FillRect(bg),
            SceneOp::Draw,
            SceneOp::PushClip,
            SceneOp::FillRect(red),
            SceneOp::PopClip,
            SceneOp::PopClip,
        ]
    );
    assert!(depth_ok(&ops));
    let bare = page_scene(None, &vec![]);
    assert_eq!(bare, vec![SceneOp::PushClip, SceneOp::PopClip]);
}

#[test]
fn rect_fill_then_stroke() {
    let f = Color::srgb(1, 2, 3, 255);
    let s = Color::srgb(4, 5, 6, 255);
    assert_eq!(rect_paint(Some(f), false, Some(s), true, false), vec![SceneOp::FillRect(f), SceneOp::StrokeRect(s)]);
    assert_eq!(rect_paint(Some(f), true, Some(s), true, true), vec![SceneOp::FillRoundedRect(f), SceneOp::StrokeRoundedRect(s)]);
    assert_eq!(rect_paint(None, false, Some(s), true, false), vec![SceneOp::StrokeRect(s)]);
    // An inside stroke that collapses the box is dropped.
    assert_eq!(rect_paint(Some(f), false, Some(s), false, false), vec![SceneOp::FillRect(f)]);
    assert!(rect_paint(None, false, None, true, false).is_empty());
}
