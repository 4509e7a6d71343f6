use vstd::prelude::*;
use vstd::string::StringExecFns;
use colored::Colorize;
use crate::report::{span_views, Span, SpanView, Tint};
use crate::text::text_views;

verus! {

/// The escape sequence that switches a terminal to the given colour.
pub open spec fn sgr_start(tint: Tint) -> Seq<char> {
    match tint {
        Tint::Red => seq!['\u{1b}', '[', '3', '1', 'm'],
        Tint::Green => seq!['\u{1b}', '[', '3', '2', 'm'],
        Tint::Cyan => seq!['\u{1b}', '[', '3', '6', 'm'],
    }
}

/// The escape sequence that switches a terminal back to its defaults.
pub open spec fn sgr_reset() -> Seq<char> {
    seq!['\u{1b}', '[', '0', 'm']
}

/// What is known of `painted` when it is `text` shown in `tint`: a text
/// that holds no escape character comes back either untouched, where
/// colours are switched off, or between the escape sequence of the colour
/// and the reset sequence.
pub open spec fn may_paint(text: Seq<char>, tint: Tint, painted: Seq<char>) -> bool {
    !text.contains('\u{1b}') ==> painted == text || painted == sgr_start(tint) + text
        + sgr_reset()
}

/// Formats `text` through `colored::Colorize::color` with the colour that
/// `tint` stands for. Whether `colored` emits escape sequences at all
/// depends on the environment of the process, so the contract only says
/// what holds either way, and only of a text without escape characters.
#[verifier::external_body]
pub(crate) fn colorize(text: &str, tint: Tint) -> (r: String)
    ensures
        may_paint(text@, tint, r@),
{
    let color = match tint {
        Tint::Cyan => colored::Color::Cyan,
        Tint::Red => colored::Color::Red,
        Tint::Green => colored::Color::Green,
    };
    format!("{}", text.color(color))
}

/// Whether `piece` can be what a terminal is sent for `span`.
pub open spec fn paints(span: SpanView, piece: Seq<char>) -> bool {
    match span.tint {
        None => piece == span.text,
        Some(tint) => may_paint(span.text, tint, piece),
    }
}

/// Whether `pieces` can be what a terminal is sent for `spans`, piece by
/// piece.
pub open spec fn is_painting(spans: Seq<SpanView>, pieces: Seq<Seq<char>>) -> bool {
    &&& pieces.len() == spans.len()
    &&& forall|i: int| 0 <= i < spans.len() ==> paints(spans[i], #[trigger] pieces[i])
}

/// The text to send to a terminal for one span.
pub fn paint_span(span: &Span) -> (r: String)
    ensures
        paints(span@, r@),
{
    match span.tint {
        None => span.text.clone(),
        Some(tint) => colorize(span.text.as_str(), tint),
    }
}

/// The texts to send to a terminal for the spans, one for each.
pub fn paint_spans(spans: &Vec<Span>) -> (pieces: Vec<String>)
    ensures
        is_painting(span_views(spans@), text_views(pieces@)),
{
    let mut pieces: Vec<String> = Vec::new();
    let mut i: usize = 0;
    while i < spans.len()
        invariant
            i <= spans.len(),
            pieces.len() == i,
            forall|j: int|
                0 <= j < i ==> paints(span_views(spans@)[j], #[trigger] text_views(pieces@)[j]),
        decreases spans.len() - i,
    {
        let ghost painted = text_views(pieces@);
        let piece = paint_span(&spans[i]);
        assert(span_views(spans@)[i as int] == spans@[i as int]@);
        pieces.push(piece);
        assert(text_views(pieces@) =~= painted.push(piece@));
        i += 1;
    }
    pieces
}

/// The pieces, one after the other, as one text.
pub fn join_pieces(pieces: &Vec<String>) -> (r: String)
    ensures
        r@ == text_views(pieces@).flatten(),
{
    let ghost all = text_views(pieces@);
    let mut text = String::new();
    let mut i: usize = 0;
    assert(all.take(0) =~= Seq::<Seq<char>>::empty());
    while i < pieces.len()
        invariant
            i <= pieces.len(),
            all == text_views(pieces@),
            text@ == all.take(i as int).flatten(),
        decreases pieces.len() - i,
    {
        proof {
            assert(all.take(i + 1) =~= all.take(i as int).push(all[i as int]));
            all.take(i as int).lemma_flatten_push(all[i as int]);
        }
        text.append(pieces[i].as_str());
        i += 1;
    }
    assert(all.take(pieces.len() as int) =~= all);
    text
}

/// The report as one text for a terminal: the pieces that the spans are
/// painted to, one after the other.
pub fn report_text(spans: &Vec<Span>) -> (r: String)
    ensures
        exists|pieces: Seq<Seq<char>>|
            is_painting(span_views(spans@), pieces) && r@ == #[trigger] pieces.flatten(),
{
    let pieces = paint_spans(spans);
    join_pieces(&pieces)
}

} // verus!
