//! The shape of a document, as far as the locator reads it.
//!
//! A document is a list of page frames. A frame holds items; an item is a
//! group with a frame of its own, a run of text with one span for each glyph,
//! or something else. The glyphs are scanned page by page, each frame from
//! its first item to its last and each group where it stands.

use vstd::prelude::*;

use crate::span::Span;

verus! {

/// An item of a frame.
#[derive(Debug, PartialEq, Eq)]
pub enum FrameItem {
    /// A group of items with a frame of its own.
    Group(Frame),
    /// A run of text: the span of each glyph, from left to right.
    Text(Vec<Span>),
    /// An item without glyphs.
    Other,
}

/// A page, or the content of a group.
#[derive(Debug, PartialEq, Eq)]
pub struct Frame {
    /// The items of the frame, in the order in which they are scanned.
    pub items: Vec<FrameItem>,
}

/// Whether two items have the same shape: both are groups whose items have
/// the same shapes, both are runs of text with the same spans, or both are
/// of another kind.
pub open spec fn alike(a: FrameItem, b: FrameItem) -> bool
    decreases a,
{
    match a {
        FrameItem::Group(first) => b matches FrameItem::Group(second) && alike_items(
            first.items@,
            second.items@,
        ),
        FrameItem::Text(first) => b matches FrameItem::Text(second) && first@ == second@,
        FrameItem::Other => b is Other,
    }
}

/// Whether two lists of items are as long as each other and hold items of
/// the same shapes, place by place.
pub open spec fn alike_items(a: Seq<FrameItem>, b: Seq<FrameItem>) -> bool
    decreases a,
{
    &&& a.len() == b.len()
    &&& forall|i: int| 0 <= i < a.len() ==> alike(#[trigger] a[i], b[i])
}

/// The place of a glyph in a document.
#[derive(Debug, Clone, PartialEq, Eq)]
pub struct GlyphPosition {
    /// The page, starting at one.
    pub page: usize,
    /// From the page's frame down to the run of text: at each level the
    /// index of the item that is entered. The last index is that of the run.
    pub path: Vec<usize>,
    /// The index of the glyph in its run.
    pub glyph: usize,
    /// Whether the glyph carries the span that was looked for, rather than
    /// the nearest one.
    pub exact: bool,
}

/// The place of a glyph, as the contracts see it.
pub struct GlyphPlace {
    /// The page, starting at one.
    pub page: usize,
    /// The indices of the items that lead to the run of text.
    pub path: Seq<usize>,
    /// The index of the glyph in its run.
    pub glyph: usize,
    /// Whether the glyph carries the span that was looked for.
    pub exact: bool,
}

impl View for GlyphPosition {
    type V = GlyphPlace;

    open spec fn view(&self) -> GlyphPlace {
        GlyphPlace { page: self.page, path: self.path@, glyph: self.glyph, exact: self.exact }
    }
}

/// The place that was found, if any, as the contracts see it.
pub open spec fn place_of(found: Option<GlyphPosition>) -> Option<GlyphPlace> {
    match found {
        Some(position) => Some(position@),
        None => None,
    }
}

/// A glyph of a document where the scan meets it.
pub struct Occurrence {
    /// The page, starting at one.
    pub page: usize,
    /// The indices of the items that lead to the run of text.
    pub path: Seq<usize>,
    /// The index of the glyph in its run.
    pub glyph: usize,
    /// The span that the glyph carries.
    pub span: Span,
}

impl Occurrence {
    /// The place of the glyph.
    pub open spec fn place(self, exact: bool) -> GlyphPlace {
        GlyphPlace { page: self.page, path: self.path, glyph: self.glyph, exact }
    }
}

/// The glyphs of a run of text that is reached by `path` on `page`.
pub open spec fn text_glyphs(spans: Seq<Span>, page: usize, path: Seq<usize>) -> Seq<Occurrence> {
    Seq::new(spans.len(), |g: int| Occurrence { page, path, glyph: g as usize, span: spans[g] })
}

/// The glyphs of an item that is reached by `path` on `page`, in the order of
/// the scan.
pub open spec fn item_glyphs(item: FrameItem, page: usize, path: Seq<usize>) -> Seq<Occurrence>
    decreases item, 0nat,
{
    match item {
        FrameItem::Group(inner) => items_glyphs(inner, inner.items@.len(), page, path),
        FrameItem::Text(spans) => text_glyphs(spans@, page, path),
        FrameItem::Other => Seq::empty(),
    }
}

/// The glyphs of the first `n` items of a frame that is reached by `path` on
/// `page`, in the order of the scan.
pub open spec fn items_glyphs(frame: Frame, n: nat, page: usize, path: Seq<usize>) -> Seq<
    Occurrence,
>
    decreases frame, n,
{
    if n == 0 || n > frame.items@.len() {
        Seq::empty()
    } else {
        items_glyphs(frame, (n - 1) as nat, page, path) + item_glyphs(
            frame.items@[n - 1],
            page,
            path.push((n - 1) as usize),
        )
    }
}

/// The glyphs of a frame that is reached by `path` on `page`, in the order of
/// the scan.
pub open spec fn frame_glyphs(frame: Frame, page: usize, path: Seq<usize>) -> Seq<Occurrence> {
    items_glyphs(frame, frame.items@.len(), page, path)
}

/// The glyphs of the first `n` pages of a document, in the order of the scan.
pub open spec fn document_glyphs(frames: Seq<Frame>, n: nat) -> Seq<Occurrence>
    decreases n,
{
    if n == 0 || n > frames.len() {
        Seq::empty()
    } else {
        document_glyphs(frames, (n - 1) as nat) + frame_glyphs(
            frames[n - 1],
            n as usize,
            Seq::empty(),
        )
    }
}

/// The glyphs of the first `n` items begin with those of the first `m`; the
/// lemma returns what follows them.
pub proof fn lemma_items_glyphs_split(
    frame: Frame,
    m: nat,
    n: nat,
    page: usize,
    path: Seq<usize>,
) -> (rest: Seq<Occurrence>)
    requires
        m <= n <= frame.items@.len(),
    ensures
        items_glyphs(frame, n, page, path) == items_glyphs(frame, m, page, path) + rest,
    decreases n - m,
{
    if m == n {
        let rest = Seq::<Occurrence>::empty();
        assert(items_glyphs(frame, m, page, path) + rest =~= items_glyphs(frame, n, page, path));
        rest
    } else {
        let front = lemma_items_glyphs_split(frame, m, (n - 1) as nat, page, path);
        let last = item_glyphs(frame.items@[n - 1], page, path.push((n - 1) as usize));
        let rest = front + last;
        assert(items_glyphs(frame, m, page, path) + rest =~= (items_glyphs(frame, m, page, path)
            + front) + last);
        rest
    }
}

/// The glyphs of the first `n` pages begin with those of the first `m`; the
/// lemma returns what follows them.
pub proof fn lemma_document_glyphs_split(frames: Seq<Frame>, m: nat, n: nat) -> (rest: Seq<
    Occurrence,
>)
    requires
        m <= n <= frames.len(),
    ensures
        document_glyphs(frames, n) == document_glyphs(frames, m) + rest,
    decreases n - m,
{
    if m == n {
        let rest = Seq::<Occurrence>::empty();
        assert(document_glyphs(frames, m) + rest =~= document_glyphs(frames, n));
        rest
    } else {
        let front = lemma_document_glyphs_split(frames, m, (n - 1) as nat);
        let last = frame_glyphs(frames[n - 1], n as usize, Seq::empty());
        let rest = front + last;
        assert(document_glyphs(frames, m) + rest =~= (document_glyphs(frames, m) + front) + last);
        rest
    }
}

/// The span of the glyph that `path` and `glyph` lead to in `frame`: `path`
/// gives at each level the index of the item to enter, the last of them a
/// run of text, and `glyph` the index of the glyph in that run. `None` where
/// they lead to no glyph.
pub open spec fn glyph_span(frame: Frame, path: Seq<usize>, glyph: usize) -> Option<Span>
    decreases path.len(),
{
    if path.len() == 0 || path[0] >= frame.items@.len() {
        None
    } else {
        match frame.items@[path[0] as int] {
            FrameItem::Group(inner) => glyph_span(inner, path.skip(1), glyph),
            FrameItem::Text(spans) => if path.len() == 1 && glyph < spans@.len() {
                Some(spans@[glyph as int])
            } else {
                None
            },
            FrameItem::Other => None,
        }
    }
}

/// Whether `glyph` is a glyph of `frame`, which is reached by `base`: it is
/// on `page`, its path begins with `base`, and the rest of its path leads to
/// it in `frame`.
pub open spec fn is_glyph_of(glyph: Occurrence, frame: Frame, page: usize, base: Seq<usize>) -> bool {
    &&& glyph.page == page
    &&& glyph.path.len() >= base.len()
    &&& glyph.path.take(base.len() as int) == base
    &&& glyph_span(frame, glyph.path.skip(base.len() as int), glyph.glyph) == Some(glyph.span)
}

/// Every glyph that the scan meets in the item at `index` of `frame` is a
/// glyph of `frame`.
pub proof fn lemma_item_glyphs_are_glyphs(frame: Frame, index: usize, page: usize, base: Seq<usize>)
    requires
        index < frame.items@.len(),
    ensures
        forall|k: int|
            0 <= k < item_glyphs(frame.items@[index as int], page, base.push(index)).len()
                ==> is_glyph_of(
                (#[trigger] item_glyphs(frame.items@[index as int], page, base.push(index))[k]),
                frame,
                page,
                base,
            ),
    decreases frame, 0nat,
{
    let item = frame.items@[index as int];
    let path = base.push(index);
    let occs = item_glyphs(item, page, path);
    match item {
        FrameItem::Group(inner) => {
            lemma_items_glyphs_are_glyphs(inner, inner.items@.len(), page, path);
            assert(occs == items_glyphs(inner, inner.items@.len(), page, path));
            assert forall|k: int| 0 <= k < occs.len() implies is_glyph_of(
                #[trigger] occs[k],
                frame,
                page,
                base,
            ) by {
                let o = occs[k];
                assert(is_glyph_of(o, inner, page, path));
                assert(o.path.take(base.len() as int) =~= path.take(base.len() as int));
                assert(path.take(base.len() as int) =~= base);
                let rest = o.path.skip(base.len() as int);
                assert(rest[0] == o.path.take(path.len() as int)[base.len() as int]);
                assert(rest[0] == index);
                assert(rest.skip(1) =~= o.path.skip(path.len() as int));
            }
        },
        FrameItem::Text(spans) => {
            assert(occs == text_glyphs(spans@, page, path));
            assert(spans.len() == spans@.len());
            assert forall|k: int| 0 <= k < occs.len() implies is_glyph_of(
                #[trigger] occs[k],
                frame,
                page,
                base,
            ) by {
                let o = occs[k];
                assert(o.path == path);
                assert(o.glyph == k);
                assert(o.span == spans@[k]);
                assert(path.take(base.len() as int) =~= base);
                let rest = o.path.skip(base.len() as int);
                assert(rest =~= seq![index]);
            }
        },
        FrameItem::Other => {},
    }
}

/// Every glyph that the scan meets in the first `n` items of `frame` is a
/// glyph of `frame`.
pub proof fn lemma_items_glyphs_are_glyphs(frame: Frame, n: nat, page: usize, base: Seq<usize>)
    ensures
        forall|k: int|
            0 <= k < items_glyphs(frame, n, page, base).len() ==> is_glyph_of(
                (#[trigger] items_glyphs(frame, n, page, base)[k]),
                frame,
                page,
                base,
            ),
    decreases frame, n,
{
    if n == 0 || n > frame.items@.len() {
    } else {
        assert(frame.items.len() == frame.items@.len());
        let front = items_glyphs(frame, (n - 1) as nat, page, base);
        let last = item_glyphs(frame.items@[n - 1], page, base.push((n - 1) as usize));
        lemma_items_glyphs_are_glyphs(frame, (n - 1) as nat, page, base);
        lemma_item_glyphs_are_glyphs(frame, (n - 1) as usize, page, base);
        let occs = items_glyphs(frame, n, page, base);
        assert forall|k: int| 0 <= k < occs.len() implies is_glyph_of(
            #[trigger] occs[k],
            frame,
            page,
            base,
        ) by {
            if k < front.len() {
                assert(occs[k] == front[k]);
            } else {
                assert(occs[k] == last[k - front.len()]);
            }
        }
    }
}

/// Every glyph that the scan meets in the first `n` pages is on one of these
/// pages, and its path leads to it in the frame of its page.
pub proof fn lemma_document_glyphs_are_glyphs(frames: Seq<Frame>, n: nat)
    requires
        n <= frames.len(),
        frames.len() <= usize::MAX,
    ensures
        forall|k: int|
            0 <= k < document_glyphs(frames, n).len() ==> {
                let glyph = #[trigger] document_glyphs(frames, n)[k];
                &&& 1 <= glyph.page <= n
                &&& glyph_span(frames[glyph.page - 1], glyph.path, glyph.glyph) == Some(glyph.span)
            },
    decreases n,
{
    if n > 0 {
        let front = document_glyphs(frames, (n - 1) as nat);
        let last = frame_glyphs(frames[n - 1], n as usize, Seq::empty());
        lemma_document_glyphs_are_glyphs(frames, (n - 1) as nat);
        lemma_items_glyphs_are_glyphs(
            frames[n - 1],
            frames[n - 1].items@.len(),
            n as usize,
            Seq::empty(),
        );
        let occs = document_glyphs(frames, n);
        assert forall|k: int| 0 <= k < occs.len() implies {
            let glyph = #[trigger] occs[k];
            &&& 1 <= glyph.page <= n
            &&& glyph_span(frames[glyph.page - 1], glyph.path, glyph.glyph) == Some(glyph.span)
        } by {
            if k < front.len() {
                assert(occs[k] == front[k]);
            } else {
                let glyph = last[k - front.len()];
                assert(occs[k] == glyph);
                assert(is_glyph_of(glyph, frames[n - 1], n as usize, Seq::empty()));
                assert(glyph.path.skip(0) =~= glyph.path);
            }
        }
    }
}


/// Having the same shape goes both ways.
pub proof fn lemma_alike_symmetric(a: FrameItem, b: FrameItem)
    requires
        alike(a, b),
    ensures
        alike(b, a),
    decreases a,
{
    match a {
        FrameItem::Group(first) => {
            let second = b->Group_0;
            lemma_alike_items_symmetric(first.items@, second.items@);
        },
        FrameItem::Text(_) => {},
        FrameItem::Other => {},
    }
}

/// Holding items of the same shapes goes both ways.
pub proof fn lemma_alike_items_symmetric(a: Seq<FrameItem>, b: Seq<FrameItem>)
    requires
        alike_items(a, b),
    ensures
        alike_items(b, a),
    decreases a,
{
    assert forall|i: int| 0 <= i < b.len() implies alike(#[trigger] b[i], a[i]) by {
        lemma_alike_symmetric(a[i], b[i]);
    }
}

/// Two items that have the shape of a third have the same shape.
pub proof fn lemma_alike_transitive(a: FrameItem, b: FrameItem, c: FrameItem)
    requires
        alike(a, b),
        alike(b, c),
    ensures
        alike(a, c),
    decreases a,
{
    match a {
        FrameItem::Group(first) => {
            let second = b->Group_0;
            let third = c->Group_0;
            lemma_alike_items_transitive(first.items@, second.items@, third.items@);
        },
        FrameItem::Text(_) => {},
        FrameItem::Other => {},
    }
}

/// Two lists that hold items of the shapes of a third hold items of the same
/// shapes.
pub proof fn lemma_alike_items_transitive(
    a: Seq<FrameItem>,
    b: Seq<FrameItem>,
    c: Seq<FrameItem>,
)
    requires
        alike_items(a, b),
        alike_items(b, c),
    ensures
        alike_items(a, c),
    decreases a,
{
    assert forall|i: int| 0 <= i < a.len() implies alike(#[trigger] a[i], c[i]) by {
        lemma_alike_transitive(a[i], b[i], c[i]);
    }
}

/// Items of the same shape hold the same glyphs.
pub proof fn lemma_alike_item_glyphs(a: FrameItem, b: FrameItem, page: usize, path: Seq<usize>)
    requires
        alike(a, b),
    ensures
        item_glyphs(a, page, path) == item_glyphs(b, page, path),
    decreases a, 0nat,
{
    match a {
        FrameItem::Group(first) => {
            let second = b->Group_0;
            lemma_alike_items_glyphs(first, second, first.items@.len(), page, path);
        },
        FrameItem::Text(first) => {
            let second = b->Text_0;
            assert(text_glyphs(first@, page, path) =~= text_glyphs(second@, page, path));
        },
        FrameItem::Other => {},
    }
}

/// Frames whose items have the same shapes hold the same glyphs.
pub proof fn lemma_alike_items_glyphs(a: Frame, b: Frame, n: nat, page: usize, path: Seq<usize>)
    requires
        alike_items(a.items@, b.items@),
    ensures
        items_glyphs(a, n, page, path) == items_glyphs(b, n, page, path),
    decreases a, n,
{
    if n == 0 || n > a.items@.len() {
    } else {
        lemma_alike_items_glyphs(a, b, (n - 1) as nat, page, path);
        lemma_alike_item_glyphs(
            a.items@[n - 1],
            b.items@[n - 1],
            page,
            path.push((n - 1) as usize),
        );
    }
}

/// Documents whose pages have the same shapes hold the same glyphs.
pub proof fn lemma_alike_document_glyphs(a: Seq<Frame>, b: Seq<Frame>, n: nat)
    requires
        a.len() == b.len(),
        forall|i: int| 0 <= i < a.len() ==> alike_items((#[trigger] a[i]).items@, b[i].items@),
    ensures
        document_glyphs(a, n) == document_glyphs(b, n),
    decreases n,
{
    if n == 0 || n > a.len() {
    } else {
        lemma_alike_document_glyphs(a, b, (n - 1) as nat);
        lemma_alike_items_glyphs(
            a[n - 1],
            b[n - 1],
            a[n - 1].items@.len(),
            n as usize,
            Seq::empty(),
        );
    }
}

} // verus!
