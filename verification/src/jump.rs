//! The span locator: from a span of the source to the glyph of the document
//! that shows it.
//!
//! A jump lands on the first glyph, in the order of the scan, that carries
//! the span; where no glyph does, on the first of the glyphs of the same file
//! whose number is nearest to the span's.

use vstd::prelude::*;

use crate::frame::{
    document_glyphs,
    frame_glyphs,
    glyph_span,
    item_glyphs,
    items_glyphs,
    lemma_document_glyphs_are_glyphs,
    lemma_document_glyphs_split,
    lemma_items_glyphs_split,
    place_of,
    text_glyphs,
    Frame,
    FrameItem,
    GlyphPlace,
    GlyphPosition,
    Occurrence,
};
use crate::span::{distance, spec_distance, Span};

verus! {

/// Whether a glyph with `span` can stand for `target`: it is in the same
/// file, and its number is less than the greatest distance away.
pub open spec fn is_candidate(span: Span, target: Span) -> bool {
    span.file() == target.file() && spec_distance(span.number(), target.number()) < u64::MAX
}

/// Whether no glyph of `occs` carries `target`.
pub open spec fn no_exact(occs: Seq<Occurrence>, target: Span) -> bool {
    forall|j: int| 0 <= j < occs.len() ==> (#[trigger] occs[j]).span != target
}

/// Whether no glyph of `occs` can stand for `target`.
pub open spec fn no_candidate(occs: Seq<Occurrence>, target: Span) -> bool {
    forall|j: int| 0 <= j < occs.len() ==> !is_candidate((#[trigger] occs[j]).span, target)
}

/// Whether the glyph at `k` is the first of `occs` that carries `target`.
pub open spec fn is_first_exact(occs: Seq<Occurrence>, target: Span, k: int) -> bool {
    &&& 0 <= k < occs.len()
    &&& occs[k].span == target
    &&& forall|j: int| 0 <= j < k ==> (#[trigger] occs[j]).span != target
}

/// Whether the glyph at `k` is the first of `occs` among those that can
/// stand for `target` and are nearest to it by number.
pub open spec fn is_first_nearest(occs: Seq<Occurrence>, target: Span, k: int) -> bool {
    &&& 0 <= k < occs.len()
    &&& is_candidate(occs[k].span, target)
    &&& forall|j: int|
        0 <= j < occs.len() && is_candidate((#[trigger] occs[j]).span, target) ==> spec_distance(
            occs[k].span.number(),
            target.number(),
        ) <= spec_distance(occs[j].span.number(), target.number())
    &&& forall|j: int|
        0 <= j < k && is_candidate((#[trigger] occs[j]).span, target) ==> spec_distance(
            occs[k].span.number(),
            target.number(),
        ) < spec_distance(occs[j].span.number(), target.number())
}

/// Where a jump to `target` lands among the glyphs `occs`: on the first glyph
/// that carries `target`; where there is none, on the first of the nearest
/// glyphs of the same file; where there is none of these either, nowhere.
pub open spec fn jump_target(occs: Seq<Occurrence>, target: Span) -> Option<GlyphPlace> {
    if exists|k: int| is_first_exact(occs, target, k) {
        Some(occs[choose|k: int| is_first_exact(occs, target, k)].place(true))
    } else if exists|k: int| is_first_nearest(occs, target, k) {
        Some(occs[choose|k: int| is_first_nearest(occs, target, k)].place(false))
    } else {
        None
    }
}

/// The nearest glyph that a scan has met so far.
#[derive(Debug)]
pub struct Nearest {
    /// The distance of that glyph, or the greatest distance where there is
    /// none yet.
    pub min_dis: u64,
    /// The place of that glyph.
    pub position: Option<GlyphPosition>,
}

/// The nearest glyph so far, as the contracts see it.
pub struct NearestView {
    /// The distance of that glyph, or the greatest distance.
    pub min_dis: u64,
    /// The place of that glyph.
    pub place: Option<GlyphPlace>,
}

impl View for Nearest {
    type V = NearestView;

    open spec fn view(&self) -> NearestView {
        NearestView {
            min_dis: self.min_dis,
            place: match self.position {
                Some(position) => Some(position@),
                None => None,
            },
        }
    }
}

/// The state of a scan that has met no glyph.
pub open spec fn scan_start() -> NearestView {
    NearestView { min_dis: u64::MAX, place: None }
}

/// The state of a scan after it has met one more glyph: the glyph replaces
/// the nearest so far where it is in the target's file and strictly nearer.
pub open spec fn scan_step(state: NearestView, glyph: Occurrence, target: Span) -> NearestView {
    if glyph.span.file() == target.file() && spec_distance(glyph.span.number(), target.number())
        < state.min_dis {
        NearestView {
            min_dis: spec_distance(glyph.span.number(), target.number()),
            place: Some(glyph.place(false)),
        }
    } else {
        state
    }
}

/// The state of a scan after it has met the glyphs `occs` in order.
pub open spec fn scan(state: NearestView, occs: Seq<Occurrence>, target: Span) -> NearestView
    decreases occs.len(),
{
    if occs.len() == 0 {
        state
    } else {
        scan_step(scan(state, occs.drop_last(), target), occs.last(), target)
    }
}

/// Scanning `first + second` is scanning `first`, then `second`.
pub proof fn lemma_scan_append(
    state: NearestView,
    first: Seq<Occurrence>,
    second: Seq<Occurrence>,
    target: Span,
)
    ensures
        scan(state, first + second, target) == scan(scan(state, first, target), second, target),
    decreases second.len(),
{
    if second.len() == 0 {
        assert(first + second =~= first);
    } else {
        assert((first + second).drop_last() =~= first + second.drop_last());
        assert((first + second).last() == second.last());
        lemma_scan_append(state, first, second.drop_last(), target);
    }
}

/// A scan from the start ends without a glyph exactly where none can stand
/// for the target, and else with the first of the nearest glyphs.
pub proof fn lemma_scan_finds_first_nearest(occs: Seq<Occurrence>, target: Span)
    ensures
        ({
            let end = scan(scan_start(), occs, target);
            if no_candidate(occs, target) {
                end == scan_start()
            } else {
                exists|k: int|
                    is_first_nearest(occs, target, k) && end.min_dis == spec_distance(
                        occs[k].span.number(),
                        target.number(),
                    ) && end.place == Some(occs[k].place(false))
            }
        }),
    decreases occs.len(),
{
    if occs.len() > 0 {
        let front = occs.drop_last();
        let last = occs.last();
        let before = scan(scan_start(), front, target);
        lemma_scan_finds_first_nearest(front, target);
        assert forall|j: int| 0 <= j < front.len() implies front[j] == occs[j] by {}
        if no_candidate(front, target) {
            if is_candidate(last.span, target) {
                assert(is_first_nearest(occs, target, occs.len() - 1)) by {
                    assert forall|j: int|
                        0 <= j < occs.len() - 1 implies !is_candidate(
                        (#[trigger] occs[j]).span,
                        target,
                    ) by {
                        assert(front[j] == occs[j]);
                    }
                }
                assert(!no_candidate(occs, target)) by {
                    assert(is_candidate(occs[occs.len() - 1].span, target));
                }
            } else {
                assert(no_candidate(occs, target)) by {
                    assert forall|j: int| 0 <= j < occs.len() implies !is_candidate(
                        (#[trigger] occs[j]).span,
                        target,
                    ) by {
                        if j < front.len() {
                            assert(front[j] == occs[j]);
                        }
                    }
                }
            }
        } else {
            let k = choose|k: int|
                is_first_nearest(front, target, k) && before.min_dis == spec_distance(
                    front[k].span.number(),
                    target.number(),
                ) && before.place == Some(front[k].place(false));
            assert(front[k] == occs[k]);
            assert(!no_candidate(occs, target)) by {
                assert(is_candidate(occs[k].span, target));
            }
            let nearer = last.span.file() == target.file() && spec_distance(
                last.span.number(),
                target.number(),
            ) < before.min_dis;
            let pick = if nearer { occs.len() - 1 } else { k };
            assert(is_first_nearest(occs, target, pick)) by {
                assert forall|j: int|
                    0 <= j < occs.len() && is_candidate(
                        (#[trigger] occs[j]).span,
                        target,
                    ) implies spec_distance(occs[pick].span.number(), target.number())
                    <= spec_distance(occs[j].span.number(), target.number()) by {
                    if j < front.len() {
                        assert(front[j] == occs[j]);
                    }
                }
                assert forall|j: int|
                    0 <= j < pick && is_candidate(
                        (#[trigger] occs[j]).span,
                        target,
                    ) implies spec_distance(occs[pick].span.number(), target.number())
                    < spec_distance(occs[j].span.number(), target.number()) by {
                    assert(front[j] == occs[j]);
                }
            }
        }
    }
}

/// The first glyph that carries the target stays the first when more glyphs
/// follow.
pub proof fn lemma_first_exact_append(
    first: Seq<Occurrence>,
    second: Seq<Occurrence>,
    target: Span,
    k: int,
)
    requires
        is_first_exact(first, target, k),
    ensures
        is_first_exact(first + second, target, k),
{
    let all = first + second;
    assert(all[k] == first[k]);
    assert forall|j: int| 0 <= j < k implies (#[trigger] all[j]).span != target by {
        assert(all[j] == first[j]);
    }
}

/// The first glyph of `second` that carries the target is the first of
/// `first + second`, where `first` has none.
pub proof fn lemma_first_exact_shift(
    first: Seq<Occurrence>,
    second: Seq<Occurrence>,
    target: Span,
    k: int,
)
    requires
        no_exact(first, target),
        is_first_exact(second, target, k),
    ensures
        is_first_exact(first + second, target, first.len() + k),
{
    let all = first + second;
    assert(all[first.len() + k] == second[k]);
    assert forall|j: int| 0 <= j < first.len() + k implies (#[trigger] all[j]).span != target by {
        if j < first.len() {
            assert(all[j] == first[j]);
        } else {
            assert(all[j] == second[j - first.len()]);
        }
    }
}

/// Where neither part holds the target, the whole does not.
pub proof fn lemma_no_exact_append(first: Seq<Occurrence>, second: Seq<Occurrence>, target: Span)
    requires
        no_exact(first, target),
        no_exact(second, target),
    ensures
        no_exact(first + second, target),
{
    let all = first + second;
    assert forall|j: int| 0 <= j < all.len() implies (#[trigger] all[j]).span != target by {
        if j < first.len() {
            assert(all[j] == first[j]);
        } else {
            assert(all[j] == second[j - first.len()]);
        }
    }
}

/// The first glyph that carries the target is where the jump lands.
pub proof fn lemma_jump_target_exact(occs: Seq<Occurrence>, target: Span, k: int)
    requires
        is_first_exact(occs, target, k),
    ensures
        jump_target(occs, target) == Some(occs[k].place(true)),
{
    let chosen = choose|k: int| is_first_exact(occs, target, k);
    assert(is_first_exact(occs, target, chosen));
    if chosen < k {
        assert(occs[chosen].span != target);
    }
    if k < chosen {
        assert(occs[k].span != target);
    }
}

/// Where no glyph carries the target, the jump lands where a scan from the
/// start ends.
pub proof fn lemma_jump_target_nearest(occs: Seq<Occurrence>, target: Span)
    requires
        no_exact(occs, target),
    ensures
        jump_target(occs, target) == scan(scan_start(), occs, target).place,
{
    lemma_scan_finds_first_nearest(occs, target);
    let end = scan(scan_start(), occs, target);
    assert(!exists|k: int| is_first_exact(occs, target, k)) by {
        if exists|k: int| is_first_exact(occs, target, k) {
            let k = choose|k: int| is_first_exact(occs, target, k);
            assert(occs[k].span != target);
        }
    }
    if no_candidate(occs, target) {
        assert(!exists|k: int| is_first_nearest(occs, target, k)) by {
            if exists|k: int| is_first_nearest(occs, target, k) {
                let k = choose|k: int| is_first_nearest(occs, target, k);
                assert(!is_candidate(occs[k].span, target));
            }
        }
    } else {
        let k = choose|k: int|
            is_first_nearest(occs, target, k) && end.min_dis == spec_distance(
                occs[k].span.number(),
                target.number(),
            ) && end.place == Some(occs[k].place(false));
        let chosen = choose|k: int| is_first_nearest(occs, target, k);
        assert(is_first_nearest(occs, target, chosen));
        if chosen < k {
            assert(is_candidate(occs[chosen].span, target));
        }
        if k < chosen {
            assert(is_candidate(occs[k].span, target));
        }
    }
}

/// Scans the glyphs of `frame`, which is reached by `prefix` on `page`.
///
/// Returns the place of the first glyph that carries `target`. Where there is
/// none, returns `None` and leaves in `nearest` the nearest glyph of the
/// target's file that the scan has met, before this frame or in it.
#[verifier::loop_isolation(false)]
pub fn find_in_frame(
    frame: &Frame,
    target: Span,
    page: usize,
    prefix: &mut Vec<usize>,
    nearest: &mut Nearest,
) -> (found: Option<GlyphPosition>)
    ensures
        final(prefix)@ == old(prefix)@,
        ({
            let occs = frame_glyphs(*frame, page, old(prefix)@);
            match found {
                Some(position) => exists|k: int|
                    is_first_exact(occs, target, k) && position@ == occs[k].place(true),
                None => no_exact(occs, target) && final(nearest)@ == scan(
                    old(nearest)@,
                    occs,
                    target,
                ),
            }
        }),
    decreases frame,
{
    let ghost path = prefix@;
    let ghost all = frame_glyphs(*frame, page, path);
    let mut i: usize = 0;
    while i < frame.items.len()
        invariant
            i <= frame.items.len(),
            prefix@ == path,
            no_exact(items_glyphs(*frame, i as nat, page, path), target),
            nearest@ == scan(old(nearest)@, items_glyphs(*frame, i as nat, page, path), target),
        decreases frame.items.len() - i,
    {
        let ghost before = items_glyphs(*frame, i as nat, page, path);
        let ghost here = item_glyphs(frame.items@[i as int], page, path.push(i));
        let ghost rest = lemma_items_glyphs_split(
            *frame,
            (i + 1) as nat,
            frame.items@.len(),
            page,
            path,
        );
        assert(all == (before + here) + rest);
        let ghost entered = nearest@;
        prefix.push(i);
        match &frame.items[i] {
            FrameItem::Group(inner) => {
                if let Some(position) = find_in_frame(inner, target, page, prefix, nearest) {
                    prefix.pop();
                    proof {
                        let k = choose|k: int|
                            is_first_exact(here, target, k) && position@ == here[k].place(true);
                        lemma_first_exact_shift(before, here, target, k);
                        lemma_first_exact_append(before + here, rest, target, before.len() + k);
                        assert(all[before.len() + k] == here[k]);
                    }
                    return Some(position);
                }
            },
            FrameItem::Text(spans) => {
                let mut g: usize = 0;
                assert(here.take(0) =~= Seq::<Occurrence>::empty());
                while g < spans.len()
                    invariant
                        g <= spans.len(),
                        prefix@ == path.push(i),
                        here == text_glyphs(spans@, page, path.push(i)),
                        no_exact(here.take(g as int), target),
                        nearest@ == scan(entered, here.take(g as int), target),
                    decreases spans.len() - g,
                {
                    let span = spans[g];
                    let ghost glyph = here[g as int];
                    assert(here.take(g + 1).drop_last() =~= here.take(g as int));
                    assert(here.take(g + 1).last() == glyph);
                    if span.same(&target) {
                        let position = GlyphPosition {
                            page,
                            path: prefix.clone(),
                            glyph: g,
                            exact: true,
                        };
                        prefix.pop();
                        proof {
                            assert(position.path@ =~= path.push(i));
                            assert(is_first_exact(here, target, g as int)) by {
                                assert forall|j: int| 0 <= j < g implies (#[trigger] here[j]).span
                                    != target by {
                                    assert(here.take(g as int)[j] == here[j]);
                                }
                            }
                            lemma_first_exact_shift(before, here, target, g as int);
                            lemma_first_exact_append(
                                before + here,
                                rest,
                                target,
                                before.len() + g,
                            );
                            assert(all[before.len() + g] == here[g as int]);
                        }
                        return Some(position);
                    }
                    if span.same_file(&target) {
                        let dis = distance(span.number(), target.number());
                        if dis < nearest.min_dis {
                            nearest.min_dis = dis;
                            nearest.position = Some(
                                GlyphPosition { page, path: prefix.clone(), glyph: g, exact: false },
                            );
                            assert(nearest.position.unwrap().path@ =~= path.push(i));
                        }
                    }
                    proof {
                        assert forall|j: int| 0 <= j < g + 1 implies (#[trigger] here.take(
                            g + 1,
                        )[j]).span != target by {
                            if j < g {
                                assert(here.take(g as int)[j] == here.take(g + 1)[j]);
                            }
                        }
                    }
                    g += 1;
                }
                assert(here.take(spans.len() as int) =~= here);
            },
            FrameItem::Other => {},
        }
        prefix.pop();
        proof {
            assert(prefix@ =~= path);
            lemma_no_exact_append(before, here, target);
            lemma_scan_append(old(nearest)@, before, here, target);
        }
        i += 1;
    }
    None
}

/// Finds the glyph of the document `frames` for the span `target`.
///
/// The result is the first glyph in the order of the scan that carries
/// `target`; where there is none, the first of the glyphs of the target's
/// file whose number is nearest to the target's; where there is none of
/// these either, `None`. The page of the result is counted from one.
#[verifier::loop_isolation(false)]
pub fn jump_to_span(frames: &[Frame], target: Span) -> (found: Option<GlyphPosition>)
    ensures
        place_of(found) == jump_target(document_glyphs(frames@, frames@.len()), target),
{
    let ghost all = document_glyphs(frames@, frames@.len());
    let mut nearest = Nearest { min_dis: u64::MAX, position: None };
    let mut i: usize = 0;
    while i < frames.len()
        invariant
            i <= frames.len(),
            no_exact(document_glyphs(frames@, i as nat), target),
            nearest@ == scan(scan_start(), document_glyphs(frames@, i as nat), target),
        decreases frames.len() - i,
    {
        let ghost before = document_glyphs(frames@, i as nat);
        let ghost here = frame_glyphs(frames@[i as int], (i + 1) as usize, Seq::empty());
        let ghost rest = lemma_document_glyphs_split(frames@, (i + 1) as nat, frames@.len());
        assert(all == (before + here) + rest);
        let mut prefix: Vec<usize> = Vec::new();
        if let Some(position) = find_in_frame(&frames[i], target, i + 1, &mut prefix, &mut nearest) {
            proof {
                let k = choose|k: int|
                    is_first_exact(here, target, k) && position@ == here[k].place(true);
                lemma_first_exact_shift(before, here, target, k);
                lemma_first_exact_append(before + here, rest, target, before.len() + k);
                assert(all[before.len() + k] == here[k]);
                lemma_jump_target_exact(all, target, before.len() + k);
            }
            return Some(position);
        }
        proof {
            lemma_no_exact_append(before, here, target);
            lemma_scan_append(scan_start(), before, here, target);
        }
        i += 1;
    }
    proof {
        lemma_jump_target_nearest(all, target);
    }
    nearest.position
}

/// The kind of a leaf of the syntax tree, as far as the locator tells kinds
/// apart.
#[derive(Debug, Clone, Copy, PartialEq, Eq, Structural)]
pub enum LeafKind {
    /// Plain text.
    Text,
    /// Anything else: markup, code, trivia.
    Other,
}

/// The leaf of the syntax tree that a cursor is in.
#[derive(Debug, Clone, Copy, PartialEq, Eq)]
pub struct SyntaxLeaf {
    /// The kind of the leaf.
    pub kind: LeafKind,
    /// The span of the leaf.
    pub span: Span,
}

/// Where a jump from `leaf` lands in the document `frames`: nowhere unless
/// the cursor is in a leaf of text, and else where the jump to the leaf's
/// span lands.
pub open spec fn leaf_target(frames: Seq<Frame>, leaf: Option<SyntaxLeaf>) -> Option<GlyphPlace> {
    match leaf {
        Some(leaf) => if leaf.kind == LeafKind::Text {
            jump_target(document_glyphs(frames, frames.len()), leaf.span)
        } else {
            None
        },
        None => None,
    }
}

/// Finds the glyph of the document `frames` for the leaf that the cursor is
/// in.
pub fn jump_from_leaf(frames: &[Frame], leaf: Option<SyntaxLeaf>) -> (found: Option<GlyphPosition>)
    ensures
        place_of(found) == leaf_target(frames@, leaf),
{
    match leaf {
        Some(leaf) => match leaf.kind {
            LeafKind::Text => jump_to_span(frames, leaf.span),
            LeafKind::Other => None,
        },
        None => None,
    }
}

/// A jump lands only on a glyph of the document: on one that carries the
/// target, or on one of the target's file.
pub proof fn lemma_jump_lands_on_glyph(occs: Seq<Occurrence>, target: Span)
    ensures
        jump_target(occs, target) matches Some(place) ==> exists|k: int|
            0 <= k < occs.len() && place == (#[trigger] occs[k]).place(place.exact) && (if place.exact {
                occs[k].span == target
            } else {
                is_candidate(occs[k].span, target)
            }),
{
    if exists|k: int| is_first_exact(occs, target, k) {
        let k = choose|k: int| is_first_exact(occs, target, k);
        assert(occs[k].place(true) == occs[k].place(true));
    } else if exists|k: int| is_first_nearest(occs, target, k) {
        let k = choose|k: int| is_first_nearest(occs, target, k);
        assert(occs[k].place(false) == occs[k].place(false));
    }
}

/// Whether a glyph with `span` is one that a jump to `target` can land on:
/// as an exact match it carries the target, as a nearest match it is of the
/// target's file.
pub open spec fn is_candidate_or_exact(span: Span, target: Span, exact: bool) -> bool {
    if exact {
        span == target
    } else {
        is_candidate(span, target)
    }
}

/// A document without glyphs, such as one without pages, has no place to
/// jump to.
pub proof fn lemma_no_glyph_no_jump(occs: Seq<Occurrence>, target: Span)
    requires
        occs.len() == 0,
    ensures
        jump_target(occs, target) == None::<GlyphPlace>,
{
}

/// A cursor that is not in a leaf of text jumps nowhere.
pub proof fn lemma_no_text_no_jump(frames: Seq<Frame>, leaf: Option<SyntaxLeaf>)
    requires
        leaf matches Some(at) ==> at.kind != LeafKind::Text,
    ensures
        leaf_target(frames, leaf) == None::<GlyphPlace>,
{
}

/// Where a jump lands, there is a glyph: the page is one of the document, the
/// path leads to a glyph in the frame of that page, and the glyph carries the
/// target or, for a nearest match, a span of the target's file.
pub proof fn lemma_jump_points_at_glyph(frames: Seq<Frame>, target: Span)
    requires
        frames.len() <= usize::MAX,
    ensures
        jump_target(document_glyphs(frames, frames.len()), target) matches Some(place) ==> {
            &&& 1 <= place.page <= frames.len()
            &&& glyph_span(frames[place.page - 1], place.path, place.glyph) matches Some(span)
            &&& is_candidate_or_exact(span, target, place.exact)
        },
{
    let occs = document_glyphs(frames, frames.len());
    lemma_document_glyphs_are_glyphs(frames, frames.len());
    lemma_jump_lands_on_glyph(occs, target);
}

/// A jump from a cursor lands only where the cursor is in a leaf of text,
/// and then only on a glyph of the document that carries the leaf's span or,
/// for a nearest match, a span of the same file.
pub proof fn lemma_jump_needs_text_and_glyph(frames: Seq<Frame>, leaf: Option<SyntaxLeaf>)
    requires
        frames.len() <= usize::MAX,
    ensures
        leaf_target(frames, leaf) matches Some(place) ==> {
            &&& leaf matches Some(at)
            &&& at.kind == LeafKind::Text
            &&& 1 <= place.page <= frames.len()
            &&& glyph_span(frames[place.page - 1], place.path, place.glyph) matches Some(span)
            &&& is_candidate_or_exact(span, at.span, place.exact)
        },
{
    if let Some(at) = leaf {
        if at.kind == LeafKind::Text {
            lemma_jump_points_at_glyph(frames, at.span);
        }
    }
}

} // verus!
