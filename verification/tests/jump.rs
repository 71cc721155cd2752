use typst_ts_compiler::frame::{Frame, FrameItem, GlyphPosition};
use typst_ts_compiler::jump::{
    find_in_frame, jump_from_leaf, jump_to_span, LeafKind, Nearest, SyntaxLeaf,
};
use typst_ts_compiler::span::{distance, span_id_from_u64, Span, NUMBER_LIMIT};

fn span(file: u16, number: u64) -> Span {
    Span { raw: ((file as u64) << 48) | number }
}

fn text(spans: &[Span]) -> FrameItem {
    FrameItem::Text(spans.to_vec())
}

fn frame(items: Vec<FrameItem>) -> Frame {
    Frame { items }
}

fn text_leaf(span: Span) -> Option<SyntaxLeaf> {
    Some(SyntaxLeaf { kind: LeafKind::Text, span })
}

#[test]
fn span_unpacks_file_and_number() {
    let s = span(5, 10);
    assert_eq!(s.file(), 5);
    assert_eq!(s.number(), 10);
    assert_eq!(s.to_u64(), (5u64 << 48) | 10);
    assert_eq!(NUMBER_LIMIT, 1u64 << 48);
    let top = Span { raw: u64::MAX };
    assert_eq!(top.file(), u16::MAX);
    assert_eq!(top.number(), (1u64 << 48) - 1);
    let detached = Span { raw: 1 };
    assert_eq!(detached.file(), 0);
    assert_eq!(detached.number(), 1);
}

#[test]
fn span_id_from_u64_refuses_zero() {
    assert_eq!(span_id_from_u64(0), None);
    assert_eq!(span_id_from_u64(1), Some(Span { raw: 1 }));
    let packed = (3u64 << 48) | 77;
    assert_eq!(span_id_from_u64(packed), Some(span(3, 77)));
    assert_eq!(span_id_from_u64(packed).unwrap().to_u64(), packed);
}

#[test]
fn span_comparisons() {
    assert!(span(1, 5).same(&span(1, 5)));
    assert!(!span(1, 5).same(&span(1, 6)));
    assert!(!span(1, 5).same(&span(2, 5)));
    assert!(span(1, 5).same_file(&span(1, 900)));
    assert!(!span(1, 5).same_file(&span(2, 5)));
    assert!(Span { raw: 1 }.same_file(&Span { raw: 7 }));
}

#[test]
fn distance_is_absolute() {
    assert_eq!(distance(3, 10), 7);
    assert_eq!(distance(10, 3), 7);
    assert_eq!(distance(4, 4), 0);
    assert_eq!(distance(0, u64::MAX), u64::MAX);
}

#[test]
fn jump_exact() {
    let target = span(1, 10);
    let frames = vec![frame(vec![text(&[span(1, 5), target, span(1, 20)])])];
    let found = jump_to_span(&frames, target);
    assert_eq!(found, Some(GlyphPosition { page: 1, path: vec![0], glyph: 1, exact: true }));
    assert_eq!(jump_from_leaf(&frames, text_leaf(target)), found);
}

#[test]
fn jump_nearest() {
    let target = span(1, 100);
    let frames = vec![
        frame(vec![text(&[span(1, 10), span(1, 60)])]),
        frame(vec![FrameItem::Other, text(&[span(1, 300), span(1, 90), span(1, 150)])]),
    ];
    let found = jump_to_span(&frames, target);
    assert_eq!(found, Some(GlyphPosition { page: 2, path: vec![1], glyph: 1, exact: false }));
}

#[test]
fn empty_frames_give_none() {
    let frames: Vec<Frame> = vec![];
    assert_eq!(jump_to_span(&frames, span(1, 10)), None);
    assert_eq!(jump_from_leaf(&frames, text_leaf(span(1, 10))), None);
    let blank = vec![frame(vec![]), frame(vec![FrameItem::Other, text(&[])])];
    assert_eq!(jump_to_span(&blank, span(1, 10)), None);
}

#[test]
fn cursor_outside_text_gives_none() {
    let target = span(1, 10);
    let frames = vec![frame(vec![text(&[target])])];
    let other = Some(SyntaxLeaf { kind: LeafKind::Other, span: target });
    assert_eq!(jump_from_leaf(&frames, other), None);
    assert_eq!(jump_from_leaf(&frames, None), None);
    assert!(jump_from_leaf(&frames, text_leaf(target)).is_some());
}

#[test]
fn exact_on_a_later_page_beats_nearest_on_an_earlier() {
    let target = span(2, 50);
    let frames = vec![
        frame(vec![text(&[span(2, 49), span(2, 51)])]),
        frame(vec![text(&[span(2, 7)])]),
        frame(vec![text(&[span(2, 1), target, target])]),
    ];
    assert_eq!(
        jump_to_span(&frames, target),
        Some(GlyphPosition { page: 3, path: vec![0], glyph: 1, exact: true })
    );
}

#[test]
fn nearest_tie_goes_to_the_first() {
    let target = span(1, 100);
    let frames = vec![
        frame(vec![text(&[span(1, 200), span(1, 110)])]),
        frame(vec![text(&[span(1, 90), span(1, 110)])]),
    ];
    assert_eq!(
        jump_to_span(&frames, target),
        Some(GlyphPosition { page: 1, path: vec![0], glyph: 1, exact: false })
    );
}

#[test]
fn glyphs_of_other_files_do_not_count() {
    let target = span(1, 100);
    let frames = vec![frame(vec![text(&[span(2, 100), span(3, 99)])])];
    assert_eq!(jump_to_span(&frames, target), None);
    let mixed = vec![frame(vec![text(&[span(2, 100), span(1, 5000), span(3, 101)])])];
    assert_eq!(
        jump_to_span(&mixed, target),
        Some(GlyphPosition { page: 1, path: vec![0], glyph: 1, exact: false })
    );
}

#[test]
fn groups_are_scanned_where_they_stand() {
    let target = span(1, 40);
    let inner = frame(vec![FrameItem::Other, text(&[span(1, 1), target])]);
    let outer = frame(vec![text(&[span(1, 2)]), FrameItem::Group(inner), text(&[target])]);
    let frames = vec![outer];
    assert_eq!(
        jump_to_span(&frames, target),
        Some(GlyphPosition { page: 1, path: vec![1, 1], glyph: 1, exact: true })
    );
}

#[test]
fn nearest_in_a_nested_group_keeps_its_path() {
    let target = span(1, 40);
    let deepest = frame(vec![text(&[span(1, 41)])]);
    let middle = frame(vec![FrameItem::Other, FrameItem::Group(deepest)]);
    let outer = frame(vec![text(&[span(1, 80)]), FrameItem::Group(middle), text(&[span(1, 30)])]);
    assert_eq!(
        jump_to_span(&[outer], target),
        Some(GlyphPosition { page: 1, path: vec![1, 1, 0], glyph: 0, exact: false })
    );
}

#[test]
fn find_in_frame_reports_exact_and_updates_nearest() {
    let target = span(1, 10);
    let page = frame(vec![text(&[span(1, 12), span(1, 9)])]);
    let mut prefix = vec![];
    let mut nearest = Nearest { min_dis: u64::MAX, position: None };
    assert_eq!(find_in_frame(&page, target, 4, &mut prefix, &mut nearest), None);
    assert!(prefix.is_empty());
    assert_eq!(nearest.min_dis, 1);
    assert_eq!(
        nearest.position,
        Some(GlyphPosition { page: 4, path: vec![0], glyph: 1, exact: false })
    );

    // A frame that holds nothing nearer leaves the nearest as it is.
    let far = frame(vec![text(&[span(1, 500), span(2, 10)])]);
    assert_eq!(find_in_frame(&far, target, 5, &mut prefix, &mut nearest), None);
    assert_eq!(nearest.min_dis, 1);
    assert_eq!(nearest.position.as_ref().unwrap().page, 4);

    let hit = frame(vec![FrameItem::Other, text(&[target])]);
    let mut lead = vec![3];
    assert_eq!(
        find_in_frame(&hit, target, 6, &mut lead, &mut nearest),
        Some(GlyphPosition { page: 6, path: vec![3, 1], glyph: 0, exact: true })
    );
    assert_eq!(lead, vec![3]);
}
