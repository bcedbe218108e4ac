//! The geometry of a read pair: which stretches of each read are barcode,
//! UMI, biological sequence, discarded filler or a literal anchor.
use vstd::prelude::*;

verus! {

/// The length model of one piece of geometry.
#[derive(Clone, Copy, Debug, PartialEq, Eq, Structural)]
pub enum GeomLen {
    /// Exactly this many bases.
    FixedLen(u32),
    /// Between a lower and an upper bound of bases, both inclusive.
    LenRange(u32, u32),
    /// Any number of bases, none included.
    Unbounded,
}

/// One typed, length-tagged segment of a read.
#[derive(Clone, Debug)]
pub enum GeomPiece {
    /// A cellular barcode.
    Barcode(GeomLen),
    /// A unique molecular identifier.
    Umi(GeomLen),
    /// Sequence that is matched but not kept.
    Discard(GeomLen),
    /// Biological read sequence.
    ReadSeq(GeomLen),
    /// A literal anchor: its nucleotide text.
    Fixed(String),
}

/// The geometry of both reads of a fragment, each in left-to-right order.
#[derive(Clone, Debug)]
pub struct FragmentGeomDesc {
    pub read1_desc: Vec<GeomPiece>,
    pub read2_desc: Vec<GeomPiece>,
}

/// The widest span `high - low` that a bounded range may have.
pub const BOUNDED_RANGE_LIMIT: u32 = 4;

impl GeomPiece {
    /// Pieces whose text is extracted into the output.
    pub open spec fn is_capture(self) -> bool {
        self is Barcode || self is Umi || self is ReadSeq
    }

    /// The length model of a piece that has one (every piece but an anchor).
    pub open spec fn len_of(self) -> Option<GeomLen> {
        match self {
            GeomPiece::Barcode(l) => Some(l),
            GeomPiece::Umi(l) => Some(l),
            GeomPiece::Discard(l) => Some(l),
            GeomPiece::ReadSeq(l) => Some(l),
            GeomPiece::Fixed(_) => None,
        }
    }

    pub open spec fn spec_is_fixed_len(&self) -> bool {
        match self.len_of() {
            Some(GeomLen::FixedLen(_)) => true,
            Some(_) => false,
            None => true,
        }
    }

    /// True for a piece of one known width: an exact length or a literal anchor.
    #[verifier::when_used_as_spec(spec_is_fixed_len)]
    pub fn is_fixed_len(&self) -> (r: bool)
        ensures
            r == self.spec_is_fixed_len(),
    {
        match self {
            GeomPiece::Barcode(GeomLen::FixedLen(_)) => true,
            GeomPiece::Umi(GeomLen::FixedLen(_)) => true,
            GeomPiece::Discard(GeomLen::FixedLen(_)) => true,
            GeomPiece::ReadSeq(GeomLen::FixedLen(_)) => true,
            GeomPiece::Fixed(_) => true,
            _ => false,
        }
    }

    /// A copy of the piece, equal to it.
    pub fn copied(&self) -> (r: GeomPiece)
        ensures
            r == *self,
    {
        match self {
            GeomPiece::Barcode(l) => GeomPiece::Barcode(*l),
            GeomPiece::Umi(l) => GeomPiece::Umi(*l),
            GeomPiece::Discard(l) => GeomPiece::Discard(*l),
            GeomPiece::ReadSeq(l) => GeomPiece::ReadSeq(*l),
            GeomPiece::Fixed(s) => GeomPiece::Fixed(s.clone()),
        }
    }

    /// A bounded range whose span the padding scheme cannot cover
    /// (or whose bounds are out of order).
    pub open spec fn range_too_wide(self) -> bool {
        match self.len_of() {
            Some(GeomLen::LenRange(l, h)) => !(l <= h && h - l <= BOUNDED_RANGE_LIMIT),
            _ => false,
        }
    }
}

/// The pieces that are extracted, in their order.
pub open spec fn captured_pieces(ps: Seq<GeomPiece>) -> Seq<GeomPiece>
    decreases ps.len(),
{
    if ps.len() == 0 {
        Seq::empty()
    } else {
        let rest = captured_pieces(ps.drop_last());
        if ps.last().is_capture() {
            rest.push(ps.last())
        } else {
            rest
        }
    }
}

/// The first bounded range that is too wide, if there is one.
pub open spec fn first_too_wide(ps: Seq<GeomPiece>) -> Option<GeomPiece>
    decreases ps.len(),
{
    if ps.len() == 0 {
        None
    } else {
        match first_too_wide(ps.drop_last()) {
            Some(p) => Some(p),
            None => if ps.last().range_too_wide() {
                Some(ps.last())
            } else {
                None
            },
        }
    }
}

/// A captured piece as a compiled matcher holds it: an extracted kind whose
/// bounded range, if any, is ordered, at most `BOUNDED_RANGE_LIMIT` wide, and
/// whose upper bound leaves room for the one extra padded base.
pub open spec fn captured_piece_wf(p: GeomPiece) -> bool {
    &&& p.is_capture()
    &&& match p.len_of() {
        Some(GeomLen::LenRange(l, h)) => l <= h && h - l <= BOUNDED_RANGE_LIMIT && h < u32::MAX,
        _ => true,
    }
}

pub open spec fn captured_pieces_wf(ps: Seq<GeomPiece>) -> bool {
    forall|i: int| 0 <= i < ps.len() ==> #[trigger] captured_piece_wf(ps[i])
}

} // verus!
