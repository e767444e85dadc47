//! Text with figures in it.
//!
//! A document is a list of pieces. A piece is either text or a figure with the
//! way it is to be written; writing the figures out is left to whoever prints
//! the document.
use crate::queues::Average;
use crate::time::Duration;
use crate::workload::Fraction;
use vstd::prelude::*;

verus! {

/// A part of a document, with text of type `S`.
#[derive(Debug, PartialEq, Eq)]
pub enum Piece<S> {
    /// Text as it is.
    Text(S),
    /// A whole number, padded on the left to `width`.
    Count { value: u128, width: usize },
    /// A span in milliseconds with `places` decimals, padded to `width`.
    Millis { span: Duration, places: usize, width: usize },
    /// `part` in percent of `times` spans of `whole`, which are not empty, with
    /// `places` decimals, padded to `width`.
    Percent { part: Duration, whole: Duration, times: usize, places: usize, width: usize },
    /// A mean over at least one value, with `places` decimals.
    Mean { average: Average, places: usize },
    /// A number in percent of another, which is not zero, with `places` decimals.
    Ratio { numerator: u64, denominator: u64, places: usize },
    /// A fraction, or what it leaves of 1 if `rest`, in percent: rounded to the
    /// nearest whole number if `rounded`, else cut off.
    Share { fraction: Fraction, rest: bool, rounded: bool },
    /// The number with this IEEE 754 binary64 encoding, with `places` decimals.
    Binary64 { bits: u64, places: usize },
}

/// A piece with its text as a sequence of characters.
pub type PieceModel = Piece<Seq<char>>;

impl View for Piece<String> {
    type V = PieceModel;

    open spec fn view(&self) -> PieceModel {
        match *self {
            Piece::Text(text) => Piece::Text(text@),
            Piece::Count { value, width } => Piece::Count { value, width },
            Piece::Millis { span, places, width } => Piece::Millis { span, places, width },
            Piece::Percent { part, whole, times, places, width } => Piece::Percent {
                part,
                whole,
                times,
                places,
                width,
            },
            Piece::Mean { average, places } => Piece::Mean { average, places },
            Piece::Ratio { numerator, denominator, places } => Piece::Ratio {
                numerator,
                denominator,
                places,
            },
            Piece::Share { fraction, rest, rounded } => Piece::Share { fraction, rest, rounded },
            Piece::Binary64 { bits, places } => Piece::Binary64 { bits, places },
        }
    }
}

/// Text with figures in it.
pub struct Document {
    pub pieces: Vec<Piece<String>>,
}

impl View for Document {
    type V = Seq<PieceModel>;

    open spec fn view(&self) -> Seq<PieceModel> {
        self.pieces@.map_values(|piece: Piece<String>| piece@)
    }
}

/// A whole number without padding.
pub open spec fn plain(value: u128) -> PieceModel {
    Piece::Count { value, width: 0 }
}

/// A span in milliseconds without padding.
pub open spec fn millis(span: Duration, places: usize) -> PieceModel {
    Piece::Millis { span, places, width: 0 }
}

/// A mean with two decimals; 0 if nothing was counted.
pub open spec fn mean(average: Average) -> PieceModel {
    if average.count == 0 {
        Piece::Text("0.00"@)
    } else {
        Piece::Mean { average, places: 2 }
    }
}

/// The figure is a number: it divides by nothing that is zero.
pub open spec fn defined(piece: PieceModel) -> bool {
    match piece {
        Piece::Percent { whole, times, .. } => whole.nanos > 0 && times > 0,
        Piece::Mean { average, .. } => average.count > 0,
        Piece::Ratio { denominator, .. } => denominator > 0,
        _ => true,
    }
}

/// All figures are numbers.
pub open spec fn all_defined(pieces: Seq<PieceModel>) -> bool {
    forall|i: int| 0 <= i < pieces.len() ==> defined(#[trigger] pieces[i])
}

/// A figure between two texts.
pub open spec fn framed(before: Seq<char>, figure: PieceModel, after: Seq<char>) -> Seq<PieceModel> {
    seq![Piece::Text(before), figure, Piece::Text(after)]
}

impl Document {
    /// A document without content.
    pub fn empty() -> (doc: Document)
        ensures
            doc@ == Seq::<PieceModel>::empty(),
    {
        let doc = Document { pieces: Vec::new() };
        assert(doc@ =~= Seq::<PieceModel>::empty());
        doc
    }

    /// Appends a piece.
    pub fn put(&mut self, piece: Piece<String>)
        ensures
            final(self)@ == old(self)@.push(piece@),
            final(self).pieces@ == old(self).pieces@.push(piece),
    {
        self.pieces.push(piece);
        assert(self@ =~= old(self)@.push(piece@));
    }

    /// Appends text.
    pub fn text(&mut self, text: &str)
        ensures
            final(self)@ == old(self)@.push(Piece::Text(text@)),
    {
        self.put(Piece::Text(text.to_owned()));
    }

    /// Appends a figure between two texts.
    pub fn frame(&mut self, before: &str, figure: Piece<String>, after: &str)
        ensures
            final(self)@ == old(self)@ + framed(before@, figure@, after@),
    {
        self.text(before);
        self.put(figure);
        self.text(after);
        assert(self@ =~= old(self)@ + framed(before@, figure@, after@));
    }
}

/// The view of a document keeps every piece in its place, and the view of a piece
/// keeps everything about it: the characters of a text, and each part of a figure.
pub proof fn law_view_keeps_every_piece(doc: Document, i: int)
    requires
        0 <= i < doc.pieces@.len(),
    ensures
        doc@.len() == doc.pieces@.len(),
        match doc.pieces@[i] {
            Piece::Text(text) => doc@[i] == Piece::Text(text@),
            Piece::Count { value: v, width: w } => doc@[i] matches Piece::Count { value, width }
                && (value, width) == (v, w),
            Piece::Millis { span: s, places: p, width: w } => doc@[i] matches Piece::Millis {
                span,
                places,
                width,
            } && (span, places, width) == (s, p, w),
            Piece::Percent { part: a, whole: b, times: t, places: p, width: w } =>
            doc@[i] matches Piece::Percent { part, whole, times, places, width } && (
                part,
                whole,
                times,
                places,
                width,
            ) == (a, b, t, p, w),
            Piece::Mean { average: a, places: p } => doc@[i] matches Piece::Mean {
                average,
                places,
            } && (average, places) == (a, p),
            Piece::Ratio { numerator: n, denominator: d, places: p } =>
            doc@[i] matches Piece::Ratio { numerator, denominator, places } && (
                numerator,
                denominator,
                places,
            ) == (n, d, p),
            Piece::Share { fraction: f, rest: r, rounded: o } => doc@[i] matches Piece::Share {
                fraction,
                rest,
                rounded,
            } && (fraction, rest, rounded) == (f, r, o),
            Piece::Binary64 { bits: b, places: p } => doc@[i] matches Piece::Binary64 {
                bits,
                places,
            } && (bits, places) == (b, p),
        },
{
}

} // verus!
