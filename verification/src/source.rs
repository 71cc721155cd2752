//! Sources and frames of `typst`, and the jumps between a source and the
//! document that was compiled from it.
//!
//! A source and a frame are opaque here. What the locator reads of them comes
//! through the functions below as plain values: the leaf under a cursor, the
//! spans of a frame's glyphs, the range of a span, and the lines of a source.

use typst::layout::Frame as PageFrame;
use typst::syntax::Source;
use vstd::prelude::*;

use crate::frame::{
    alike,
    alike_items,
    document_glyphs,
    lemma_alike_document_glyphs,
    lemma_alike_items_symmetric,
    lemma_alike_items_transitive,
    place_of,
    Frame,
    FrameItem,
    GlyphPosition,
};
use crate::jump::{
    jump_from_leaf,
    leaf_target,
    lemma_jump_needs_text_and_glyph,
    lemma_no_glyph_no_jump,
    LeafKind,
    SyntaxLeaf,
};
use crate::span::Span;

verus! {

/// A source file of `typst`: its text with its syntax tree.
#[verifier::external_type_specification]
#[verifier::external_body]
pub struct ExSource(typst::syntax::Source);

/// A frame of `typst`: a page, or the content of a group, laid out.
#[verifier::external_type_specification]
#[verifier::external_body]
pub struct ExPageFrame(PageFrame);

/// A run of shaped text of `typst`, carried through as an opaque value.
#[verifier::external_type_specification]
#[verifier::external_body]
pub struct ExTextItem(typst::text::TextItem);

/// What an item of a frame of `typst` is, as far as the locator tells items
/// apart.
#[derive(Clone, Copy)]
enum ItemShape<'a> {
    /// A group, with its frame.
    Group(&'a PageFrame),
    /// A run of text.
    Text(&'a typst::text::TextItem),
    /// Any other item.
    Other,
}

/// What a frame of `typst` holds: its items in their order, each as the
/// locator reads it. A group stands with the items that its own frame holds,
/// a run of text with the packed spans of its glyphs.
pub uninterp spec fn frame_items(frame: PageFrame) -> Seq<FrameItem>;

/// What a run of text of `typst` holds: the packed span of each glyph, from
/// left to right.
pub uninterp spec fn text_spans(text: typst::text::TextItem) -> Seq<Span>;

/// What a source holds: the bytes that each node of its syntax tree covers,
/// as start and end, by the packed span of the node.
pub uninterp spec fn source_nodes(source: Source) -> Map<u64, (usize, usize)>;

/// Whether `shape` is the item `item` of a frame: a group whose frame holds
/// the items of the group, a run of text that holds the spans of the run,
/// or an item of another kind.
spec fn shape_of(shape: ItemShape<'_>, item: FrameItem) -> bool {
    match shape {
        ItemShape::Group(inner) => item matches FrameItem::Group(group) && group.items@
            == frame_items(*inner),
        ItemShape::Text(text) => item matches FrameItem::Text(spans) && spans@ == text_spans(
            *text,
        ),
        ItemShape::Other => item is Other,
    }
}

/// The bytes that the node with the span `span` covers, where `nodes` holds
/// such a node. A span that packs to zero is none.
pub open spec fn node_range(nodes: Map<u64, (usize, usize)>, span: Span) -> Option<(usize, usize)> {
    if span.raw != 0 && nodes.contains_key(span.raw) {
        Some(nodes[span.raw])
    } else {
        None
    }
}

/// What `LinkedNode::leaf_at` of `typst` gives on the root of a source for a
/// byte offset, with the side before the cursor: the leaf of the syntax tree
/// that the cursor is in, by its kind and its packed span.
pub uninterp spec fn leaf_under(source: Source, cursor: usize) -> Option<SyntaxLeaf>;

/// Calls `LinkedNode::leaf_at` of `typst` on the root of `source`, with the
/// side before the cursor, and hands out the kind and the packed span of the
/// leaf. The leaf depends on the source and the cursor alone.
#[verifier::external_body]
fn leaf_at(source: &Source, cursor: usize) -> (leaf: Option<SyntaxLeaf>)
    ensures
        leaf == leaf_under(*source, cursor),
{
    let root = typst::syntax::LinkedNode::new(source.root());
    let node = root.leaf_at(cursor, typst::syntax::Side::Before)?;
    let kind = match node.kind() {
        typst::syntax::SyntaxKind::Text => LeafKind::Text,
        _ => LeafKind::Other,
    };
    Some(SyntaxLeaf { kind, span: Span { raw: node.span().into_raw().get() } })
}

/// Calls `Frame::items` of `typst` and tells the items apart: a group with
/// its frame, a run of text, or anything else. The result has one shape for
/// each item that the frame holds, in the order of the frame, and each shape
/// is that of its item: that is what the contract claims.
#[verifier::external_body]
fn item_shapes<'a>(frame: &'a PageFrame) -> (shapes: Vec<ItemShape<'a>>)
    ensures
        shapes@.len() == frame_items(*frame).len(),
        forall|i: int|
            0 <= i < shapes@.len() ==> shape_of(#[trigger] shapes@[i], frame_items(*frame)[i]),
{
    let shapes = frame.items().map(|(_, item)| match item {
        typst::layout::FrameItem::Group(group) => ItemShape::Group(&group.frame),
        typst::layout::FrameItem::Text(text) => ItemShape::Text(text),
        _ => ItemShape::Other,
    });
    shapes.collect()
}

/// Reads the field `glyphs` of a run of text of `typst` and hands out the
/// packed span of each glyph, from left to right: the spans that the run
/// holds.
#[verifier::external_body]
fn glyph_spans(text: &typst::text::TextItem) -> (spans: Vec<Span>)
    ensures
        spans@ == text_spans(*text),
{
    text.glyphs.iter().map(|glyph| Span { raw: glyph.span.0.into_raw().get() }).collect()
}

/// Calls `Source::range` of `typst` with the span that `span` packs, which
/// looks for the node with that span and gives the bytes that it covers, as
/// start and end. The result is that of the nodes that the source holds.
/// Zero packs no span and is left out.
#[verifier::external_body]
fn span_range(source: &Source, span: Span) -> (range: Option<(usize, usize)>)
    requires
        span.raw != 0,
    ensures
        range == node_range(source_nodes(*source), span),
{
    let raw = std::num::NonZeroU64::new(span.raw)?;
    source.range(typst::syntax::Span::from_raw(raw)).map(|range| (range.start, range.end))
}

/// What `Source::byte_to_line` of `typst` gives for a source and a byte
/// offset: the index of the line that holds the byte, counted from zero, by
/// the source's table of lines.
pub uninterp spec fn line_of_byte(source: Source, byte: usize) -> Option<usize>;

/// What `Source::line_to_range` of `typst` gives for a source and the index
/// of a line: the bytes of the line, as start and end, by the source's table
/// of lines.
pub uninterp spec fn bytes_of_line(source: Source, line: usize) -> Option<(usize, usize)>;

/// What `Source::byte_to_utf16` of `typst` gives for a source and a byte
/// offset: the number of UTF-16 code units before the byte.
pub uninterp spec fn utf16_of_byte(source: Source, byte: usize) -> Option<usize>;

/// What `Source::utf16_to_byte` of `typst` gives for a source and a count of
/// UTF-16 code units: the byte offset that so many code units lie before.
pub uninterp spec fn byte_of_utf16(source: Source, units: usize) -> Option<usize>;

/// Calls `Source::byte_to_line` of `typst`. The result is a function of the
/// source and the byte.
#[verifier::external_body]
fn byte_to_line(source: &Source, byte: usize) -> (line: Option<usize>)
    ensures
        line == line_of_byte(*source, byte),
{
    source.byte_to_line(byte)
}

/// Calls `Source::line_to_range` of `typst`. The result is a function of the
/// source and the line.
#[verifier::external_body]
fn line_to_range(source: &Source, line: usize) -> (range: Option<(usize, usize)>)
    ensures
        range == bytes_of_line(*source, line),
{
    source.line_to_range(line).map(|range| (range.start, range.end))
}

/// Calls `Source::byte_to_utf16` of `typst`. The result is a function of the
/// source and the byte.
#[verifier::external_body]
fn byte_to_utf16(source: &Source, byte: usize) -> (units: Option<usize>)
    ensures
        units == utf16_of_byte(*source, byte),
{
    source.byte_to_utf16(byte)
}

/// Calls `Source::utf16_to_byte` of `typst`. The result is a function of the
/// source and the count of code units.
#[verifier::external_body]
fn utf16_to_byte(source: &Source, units: usize) -> (byte: Option<usize>)
    ensures
        byte == byte_of_utf16(*source, units),
{
    source.utf16_to_byte(units)
}

/// The column of a position, in UTF-16 code units: how many code units the
/// position is past the start of its line. `None` where the position is
/// before the start.
pub open spec fn column_between(line_start: usize, position: usize) -> Option<usize> {
    if line_start <= position {
        Some((position - line_start) as usize)
    } else {
        None
    }
}

/// The column of a position, in UTF-16 code units, from the count of code
/// units before the position and before the start of its line.
pub fn utf16_column(line_start: usize, position: usize) -> (column: Option<usize>)
    ensures
        column == column_between(line_start, position),
{
    if line_start <= position {
        Some(position - line_start)
    } else {
        None
    }
}

/// The byte that a cursor stands at, from the byte that its column asks for
/// and the bytes of its line: the byte asked for where it lies in the line,
/// and else the end of the line.
pub open spec fn clamped_cursor(line: (usize, usize), asked: Option<usize>) -> usize {
    match asked {
        Some(byte) => if line.0 <= byte <= line.1 {
            byte
        } else {
            line.1
        },
        None => line.1,
    }
}

/// The byte that a cursor stands at, kept within its line.
pub fn clamp_cursor(line: (usize, usize), asked: Option<usize>) -> (cursor: usize)
    ensures
        cursor == clamped_cursor(line, asked),
{
    match asked {
        Some(byte) => if line.0 <= byte && byte <= line.1 {
            byte
        } else {
            line.1
        },
        None => line.1,
    }
}

/// The line and the column of the byte at `offset` in `source`, both counted
/// from zero, the column in UTF-16 code units: the line that holds the byte,
/// and the code units between the start of that line and the byte.
pub open spec fn utf16_position(source: Source, offset: usize) -> Option<(usize, usize)> {
    match line_of_byte(source, offset) {
        Some(line) => match bytes_of_line(source, line) {
            Some(range) => match (utf16_of_byte(source, offset), utf16_of_byte(source, range.0)) {
                (Some(before_offset), Some(before_line)) => match column_between(
                    before_line,
                    before_offset,
                ) {
                    Some(column) => Some((line, column)),
                    None => None,
                },
                _ => None,
            },
            None => None,
        },
        None => None,
    }
}

/// The byte at `line` and `character` in `source`, both counted from zero, the
/// character in UTF-16 code units: the byte that lies `character` code units
/// past the start of the line, or the end of the line where the line is
/// shorter.
pub open spec fn utf16_cursor(source: Source, line: usize, character: usize) -> Option<usize> {
    match bytes_of_line(source, line) {
        Some(range) => match utf16_of_byte(source, range.0) {
            Some(before_line) => Some(
                clamped_cursor(
                    range,
                    if before_line + character <= usize::MAX {
                        byte_of_utf16(source, (before_line + character) as usize)
                    } else {
                        None
                    },
                ),
            ),
            None => None,
        },
        None => None,
    }
}

/// The line and the column of the byte at `offset`, both counted from zero,
/// the column in UTF-16 code units. `None` where the source has no line for
/// the offset, as when the offset is past its end.
pub fn resolve_offset(source: &Source, offset: usize) -> (position: Option<(usize, usize)>)
    ensures
        position == utf16_position(*source, offset),
{
    let line = match byte_to_line(source, offset) {
        Some(line) => line,
        None => return None,
    };
    let start = match line_to_range(source, line) {
        Some(range) => range.0,
        None => return None,
    };
    let before_offset = match byte_to_utf16(source, offset) {
        Some(units) => units,
        None => return None,
    };
    let before_line = match byte_to_utf16(source, start) {
        Some(units) => units,
        None => return None,
    };
    match utf16_column(before_line, before_offset) {
        Some(column) => Some((line, column)),
        None => None,
    }
}

/// The byte at `line` and `character`, both counted from zero, the character
/// in UTF-16 code units. A character past the end of the line stands for the
/// end of the line. `None` where the source has no such line.
pub fn line_column_to_byte(source: &Source, line: usize, character: usize) -> (cursor: Option<
    usize,
>)
    ensures
        cursor == utf16_cursor(*source, line, character),
{
    let range = match line_to_range(source, line) {
        Some(range) => range,
        None => return None,
    };
    let before_line = match byte_to_utf16(source, range.0) {
        Some(units) => units,
        None => return None,
    };
    let asked = match before_line.checked_add(character) {
        Some(units) => utf16_to_byte(source, units),
        None => None,
    };
    Some(clamp_cursor(range, asked))
}

/// Where a place of the document comes from in the sources.
#[derive(Debug, Clone, PartialEq, Eq)]
pub struct DocToSrcJumpInfo {
    /// The path of the source file.
    pub filepath: String,
    /// Line and column at which the node starts, where they can be told.
    pub start: Option<(usize, usize)>,
    /// Line and column at which the node ends, where they can be told.
    pub end: Option<(usize, usize)>,
}

/// Where the node that covers the bytes `range` of `source` starts and ends.
pub open spec fn jump_info_of(
    source: Source,
    range: (usize, usize),
    filepath: String,
) -> DocToSrcJumpInfo {
    DocToSrcJumpInfo {
        filepath,
        start: utf16_position(source, range.0),
        end: utf16_position(source, range.1),
    }
}

/// Says where a node of `source` starts and ends, given the bytes that it
/// covers as start and end.
pub fn jump_info(source: &Source, range: (usize, usize), filepath: String) -> (info:
    DocToSrcJumpInfo)
    ensures
        info == jump_info_of(*source, range, filepath),
{
    DocToSrcJumpInfo {
        filepath,
        start: resolve_offset(source, range.0),
        end: resolve_offset(source, range.1),
    }
}

/// Where the node with the span `span` starts and ends in `source`; `None`
/// where the source holds no node with that span.
pub open spec fn doc_to_src_jump_of(
    source: Source,
    span: Span,
    filepath: String,
) -> Option<DocToSrcJumpInfo> {
    match node_range(source_nodes(source), span) {
        Some(range) => Some(jump_info_of(source, range, filepath)),
        None => None,
    }
}

/// Finds the node of `source` with the given span and says where it starts
/// and ends. `None` where the source has no node with that span; a span that
/// packs to zero is none.
pub fn doc_to_src_jump(source: &Source, span: Span, filepath: String) -> (info: Option<
    DocToSrcJumpInfo,
>)
    ensures
        info == doc_to_src_jump_of(*source, span, filepath),
{
    if span.raw == 0 {
        return None;
    }
    match span_range(source, span) {
        Some(range) => Some(jump_info(source, range, filepath)),
        None => None,
    }
}

/// The spans of the glyphs of a run of text, packed.
fn text_model(text: &typst::text::TextItem) -> (spans: Vec<Span>)
    ensures
        spans@ == text_spans(*text),
{
    glyph_spans(text)
}

/// The shape of a frame of `typst`: its groups with their frames, its runs of
/// text with the span of each glyph, and a mark for every other item.
fn frame_model(frame: &PageFrame) -> (model: Frame)
    ensures
        alike_items(model.items@, frame_items(*frame)),
    decreases frame_items(*frame),
{
    let shapes = item_shapes(frame);
    let mut items: Vec<FrameItem> = Vec::new();
    let mut i: usize = 0;
    while i < shapes.len()
        invariant
            i <= shapes.len(),
            items@.len() == i,
            shapes@.len() == frame_items(*frame).len(),
            forall|k: int|
                0 <= k < shapes@.len() ==> shape_of(#[trigger] shapes@[k], frame_items(*frame)[k]),
            forall|k: int| 0 <= k < i ==> alike(#[trigger] items@[k], frame_items(*frame)[k]),
        decreases shapes.len() - i,
    {
        let ghost held = frame_items(*frame)[i as int];
        assert(shape_of(shapes@[i as int], held));
        let item = match shapes[i] {
            ItemShape::Group(inner) => {
                proof {
                    let group = held->Group_0;
                    assert(decreases_to!(frame_items(*frame) => held));
                    assert(decreases_to!(held => group));
                    assert(decreases_to!(group => group.items));
                    assert(decreases_to!(group.items => group.items@));
                    assert(group.items@ == frame_items(*inner));
                }
                FrameItem::Group(frame_model(inner))
            },
            ItemShape::Text(text) => FrameItem::Text(text_model(text)),
            ItemShape::Other => FrameItem::Other,
        };
        assert(alike(item, held));
        items.push(item);
        i += 1;
    }
    Frame { items }
}

/// Whether the frames `pages` have the shapes of the frames `frames`.
pub open spec fn models(pages: Seq<Frame>, frames: Seq<PageFrame>) -> bool {
    &&& pages.len() == frames.len()
    &&& forall|i: int|
        0 <= i < pages.len() ==> alike_items((#[trigger] pages[i]).items@, frame_items(frames[i]))
}

/// Whatever frames have the shapes of the frames `frames`, a jump from a
/// leaf lands at the same place in them: the place depends on the shapes
/// alone.
pub proof fn lemma_models_agree(
    first: Seq<Frame>,
    second: Seq<Frame>,
    frames: Seq<PageFrame>,
    leaf: Option<SyntaxLeaf>,
)
    requires
        models(first, frames),
        models(second, frames),
    ensures
        leaf_target(first, leaf) == leaf_target(second, leaf),
{
    assert forall|i: int| 0 <= i < first.len() implies alike_items(
        (#[trigger] first[i]).items@,
        second[i].items@,
    ) by {
        let held = frame_items(frames[i]);
        assert(alike_items(second[i].items@, held));
        lemma_alike_items_symmetric(second[i].items@, held);
        lemma_alike_items_transitive(first[i].items@, held, second[i].items@);
    }
    lemma_alike_document_glyphs(first, second, first.len());
}

/// Finds the place in the document `frames` for a cursor in `source`, given
/// as a byte offset.
///
/// The cursor has to be in a leaf of text. The place is that of the first
/// glyph that carries the leaf's span, or else that of the nearest glyph of
/// the same file. A document without pages has no place.
///
/// The leaf under the cursor and the shape of the frames are read from
/// `typst`; the result is what [`jump_from_leaf`] gives for them.
pub fn jump_from_cursor(frames: &[PageFrame], source: &Source, cursor: usize) -> (found: Option<
    GlyphPosition,
>)
    ensures
        exists|pages: Seq<Frame>|
            models(pages, frames@) && place_of(found) == #[trigger] leaf_target(
                pages,
                leaf_under(*source, cursor),
            ),
        frames@.len() == 0 ==> found is None,
        found matches Some(position) ==> 1 <= position.page <= frames@.len(),
{
    let leaf = leaf_at(source, cursor);
    let mut pages: Vec<Frame> = Vec::new();
    let mut i: usize = 0;
    while i < frames.len()
        invariant
            i <= frames.len(),
            pages@.len() == i,
            forall|k: int|
                0 <= k < i ==> alike_items((#[trigger] pages@[k]).items@, frame_items(frames@[k])),
        decreases frames.len() - i,
    {
        pages.push(frame_model(&frames[i]));
        i += 1;
    }
    proof {
        assert(pages.len() == pages@.len());
        assert(models(pages@, frames@));
        lemma_jump_needs_text_and_glyph(pages@, leaf);
        if let Some(at) = leaf {
            if frames@.len() == 0 {
                lemma_no_glyph_no_jump(document_glyphs(pages@, pages@.len()), at.span);
            }
        }
    }
    jump_from_leaf(pages.as_slice(), leaf)
}

} // verus!
