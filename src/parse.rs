//! Matching a read pair and rebuilding its two output sequences, with
//! variable-length pieces padded to a fixed width.
use crate::compile::FragmentRegexDesc;
use crate::geom::{captured_pieces_wf, captured_piece_wf, GeomLen, GeomPiece, BOUNDED_RANGE_LIMIT};
use crate::matcher::{capture_slots, captures_read, regex_search};
use crate::text::{bytes_chars, push_bytes};
use regex::bytes::CaptureLocations;
use vstd::prelude::*;
use vstd::string::*;

verus! {

/// The two output sequences of a parsed read pair; reused from one parse to
/// the next.
#[derive(Debug)]
pub struct SeqPair {
    pub s1: String,
    pub s2: String,
}

/// Relies on String::clear: the string is left empty.
#[verifier::external_body]
fn clear_string(s: &mut String)
    ensures
        final(s)@ == Seq::<char>::empty(),
{
    s.clear()
}

impl SeqPair {
    /// A pair of empty sequences.
    pub fn new() -> (r: Self)
        ensures
            r.s1@ == Seq::<char>::empty(),
            r.s2@ == Seq::<char>::empty(),
    {
        SeqPair { s1: String::new(), s2: String::new() }
    }

    /// Empties both sequences.
    pub fn clear(&mut self)
        ensures
            final(self).s1@ == Seq::<char>::empty(),
            final(self).s2@ == Seq::<char>::empty(),
    {
        clear_string(&mut self.s1);
        clear_string(&mut self.s2);
    }
}

impl Default for SeqPair {
    fn default() -> (r: Self)
        ensures
            r.s1@ == Seq::<char>::empty(),
            r.s2@ == Seq::<char>::empty(),
    {
        Self::new()
    }
}

/// The filler appended to a bounded-range piece that came out `k` bases
/// short of its upper bound: `k + 1` bases, so that the piece always comes
/// out one base longer than the bound. The fillers for shortfalls 0 to 3
/// are the customary ones; the filler for the widest shortfall, 4, is this
/// library's own choice: four `A`s then an `N`, which keeps the last base of
/// each filler different from that of every other.
pub open spec fn padding(k: int) -> Seq<char> {
    if k == 0 {
        seq!['A']
    } else if k == 1 {
        seq!['A', 'C']
    } else if k == 2 {
        seq!['A', 'A', 'G']
    } else if k == 3 {
        seq!['A', 'A', 'A', 'T']
    } else {
        seq!['A', 'A', 'A', 'A', 'N']
    }
}

/// The filler for a shortfall of `k` bases, `0 <= k <= 4`.
pub fn var_len_bc_padding(k: usize) -> (r: &'static str)
    requires
        k <= 4,
    ensures
        r@ == padding(k as int),
{
    proof {
        reveal_strlit("A");
        reveal_strlit("AC");
        reveal_strlit("AAG");
        reveal_strlit("AAAT");
        reveal_strlit("AAAAN");
    }
    if k == 0 {
        "A"
    } else if k == 1 {
        "AC"
    } else if k == 2 {
        "AAG"
    } else if k == 3 {
        "AAAT"
    } else {
        "AAAAN"
    }
}

/// The length model of an extracted piece.
pub open spec fn capture_len(p: Option<GeomPiece>) -> Option<GeomLen> {
    match p {
        Some(GeomPiece::Barcode(len)) => Some(len),
        Some(GeomPiece::Umi(len)) => Some(len),
        Some(GeomPiece::ReadSeq(len)) => Some(len),
        _ => None,
    }
}

/// The piece that capture group `g` (from 1) stands for, if there is one.
pub open spec fn group_piece(ps: Seq<GeomPiece>, g: int) -> Option<GeomPiece> {
    if 1 <= g <= ps.len() {
        Some(ps[g - 1])
    } else {
        None
    }
}

/// Whether a captured width fits the length model of the piece.
pub open spec fn width_fits(p: Option<GeomPiece>, w: int) -> bool {
    match capture_len(p) {
        Some(GeomLen::FixedLen(n)) => w == n,
        Some(GeomLen::LenRange(l, h)) => l <= w <= h,
        _ => true,
    }
}

/// A group resolves when it took part in the match, lies within the read,
/// and has a width that fits its piece.
pub open spec fn group_resolves(slot: Option<(usize, usize)>, p: Option<GeomPiece>, n: nat) -> bool {
    match slot {
        Some((s, e)) => s <= e <= n && width_fits(p, e - s),
        None => false,
    }
}

/// A read parses when its whole match was found and every group resolves.
pub open spec fn read_resolves(slots: Seq<Option<(usize, usize)>>, ps: Seq<GeomPiece>, r: Seq<u8>) -> bool {
    &&& slots.len() >= 1
    &&& slots[0] is Some
    &&& forall|g: int| 1 <= g < slots.len() ==> group_resolves(#[trigger] slots[g], group_piece(ps, g), r.len())
}

/// The padding of a piece captured `w` bases wide: the filler for its
/// shortfall where it is a bounded range, nothing otherwise.
pub open spec fn piece_padding(p: Option<GeomPiece>, w: int) -> Seq<char> {
    match capture_len(p) {
        Some(GeomLen::LenRange(_, h)) => padding(h - w),
        _ => Seq::empty(),
    }
}

/// The output of one group: the captured bases, then the padding.
pub open spec fn group_output(slot: Option<(usize, usize)>, p: Option<GeomPiece>, r: Seq<u8>) -> Seq<char> {
    let (s, e) = slot->0;
    bytes_chars(r.subrange(s as int, e as int)) + piece_padding(p, e - s)
}

/// The outputs of groups `1 .. n`, concatenated in order.
pub open spec fn groups_output(slots: Seq<Option<(usize, usize)>>, ps: Seq<GeomPiece>, r: Seq<u8>, n: int) -> Seq<char>
    decreases n,
{
    if n <= 1 {
        Seq::empty()
    } else {
        groups_output(slots, ps, r, n - 1) + group_output(slots[n - 1], group_piece(ps, n - 1), r)
    }
}

/// The output of a parsed read: the whole read where exactly one piece is
/// captured, otherwise the outputs of all its groups.
pub open spec fn read_output(slots: Seq<Option<(usize, usize)>>, ps: Seq<GeomPiece>, r: Seq<u8>) -> Seq<char> {
    if ps.len() == 1 {
        bytes_chars(r)
    } else {
        groups_output(slots, ps, r, slots.len() as int)
    }
}

/// Builds the output of one read from the capture locations of its search,
/// appending it to `outstr`; returns whether the read parsed.
pub fn parse_single_read(
    clocs: &CaptureLocations,
    gpieces: &Vec<GeomPiece>,
    r: &[u8],
    outstr: &mut String,
) -> (ok: bool)
    requires
        captured_pieces_wf(gpieces@),
    ensures
        ok == read_resolves(capture_slots(*clocs), gpieces@, r@),
        ok ==> final(outstr)@ == old(outstr)@ + read_output(capture_slots(*clocs), gpieces@, r@),
        old(outstr)@.is_prefix_of(final(outstr)@),
{
    let ghost slots = capture_slots(*clocs);
    let n = clocs.len();
    if clocs.get(0).is_none() {
        return false;
    }
    let single = gpieces.len() == 1;
    assert(old(outstr)@ =~= outstr@.subrange(0, old(outstr)@.len() as int));
    let mut cl: usize = 1;
    while cl < n
        invariant
            n == slots.len(),
            1 <= cl <= n,
            slots == capture_slots(*clocs),
            captured_pieces_wf(gpieces@),
            single == (gpieces@.len() == 1),
            forall|g: int| 1 <= g < cl ==> group_resolves(#[trigger] slots[g], group_piece(gpieces@, g), r@.len()),
            !single ==> outstr@ == old(outstr)@ + groups_output(slots, gpieces@, r@, cl as int),
            single ==> outstr@ == old(outstr)@,
            old(outstr)@.is_prefix_of(outstr@),
        decreases n - cl,
    {
        let ghost p = group_piece(gpieces@, cl as int);
        match clocs.get(cl) {
            Some((s, e)) => {
                if s > e || e > r.len() {
                    return false;
                }
                let w = e - s;
                let mut high: usize = 0;
                let mut ranged = false;
                if cl - 1 < gpieces.len() {
                    let len: Option<GeomLen> = match &gpieces[cl - 1] {
                        GeomPiece::Barcode(len) => Some(*len),
                        GeomPiece::Umi(len) => Some(*len),
                        GeomPiece::ReadSeq(len) => Some(*len),
                        _ => None,
                    };
                    match len {
                        Some(GeomLen::FixedLen(x)) => {
                            if w != x as usize {
                                return false;
                            }
                        },
                        Some(GeomLen::LenRange(l, h)) => {
                            if w < l as usize || w > h as usize {
                                return false;
                            }
                            high = h as usize;
                            ranged = true;
                        },
                        _ => {},
                    }
                }
                assert(capture_len(p) matches Some(GeomLen::LenRange(_, _)) <==> ranged);
                if !single {
                    push_bytes(outstr, r, s, e);
                    if ranged {
                        assert(captured_piece_wf(gpieces@[cl - 1]));
                        outstr.append(var_len_bc_padding(high - w));
                    }
                    assert(outstr@ =~= old(outstr)@ + groups_output(slots, gpieces@, r@, cl + 1));
                    assert(old(outstr)@ =~= outstr@.subrange(0, old(outstr)@.len() as int));
                }
            },
            None => {
                return false;
            },
        }
        cl = cl + 1;
    }
    if single {
        push_bytes(outstr, r, 0, r.len());
        assert(r@.subrange(0, r@.len() as int) =~= r@);
        assert(old(outstr)@ =~= outstr@.subrange(0, old(outstr)@.len() as int));
    }
    true
}

/// Whether every piece is a well-formed captured piece.
fn pieces_are_captured(ps: &Vec<GeomPiece>) -> (r: bool)
    ensures
        r == captured_pieces_wf(ps@),
{
    let mut i: usize = 0;
    while i < ps.len()
        invariant
            0 <= i <= ps@.len(),
            forall|j: int| 0 <= j < i ==> #[trigger] captured_piece_wf(ps@[j]),
        decreases ps@.len() - i,
    {
        let ok = match &ps[i] {
            GeomPiece::Barcode(len) | GeomPiece::Umi(len) | GeomPiece::ReadSeq(len) => match len {
                GeomLen::LenRange(l, h) => *l <= *h && *h - *l <= BOUNDED_RANGE_LIMIT && *h < u32::MAX,
                _ => true,
            },
            _ => false,
        };
        if !ok {
            assert(!captured_piece_wf(ps@[i as int]));
            return false;
        }
        i = i + 1;
    }
    true
}

impl FragmentRegexDesc {
    /// Tests the well-formedness that parsing relies on.
    pub fn is_wf(&self) -> (r: bool)
        ensures
            r == self.wf(),
    {
        let n1 = self.r1_re.captures_len();
        let n2 = self.r2_re.captures_len();
        pieces_are_captured(&self.r1_cginfo) && pieces_are_captured(&self.r2_cginfo) && n1 >= 1
            && n1 - 1 == self.r1_cginfo.len() && n2 >= 1 && n2 - 1 == self.r2_cginfo.len()
    }

    /// Whether the last search of read 1 parsed.
    pub open spec fn read1_parsed(&self, r1: Seq<u8>) -> bool {
        read_resolves(capture_slots(self.r1_clocs), self.r1_cginfo@, r1)
    }

    /// Whether the last search of read 2 parsed.
    pub open spec fn read2_parsed(&self, r2: Seq<u8>) -> bool {
        read_resolves(capture_slots(self.r2_clocs), self.r2_cginfo@, r2)
    }

    /// The output of read 1 after its last search.
    pub open spec fn read1_output(&self, r1: Seq<u8>) -> Seq<char> {
        read_output(capture_slots(self.r1_clocs), self.r1_cginfo@, r1)
    }

    /// The output of read 2 after its last search.
    pub open spec fn read2_output(&self, r2: Seq<u8>) -> Seq<char> {
        read_output(capture_slots(self.r2_clocs), self.r2_cginfo@, r2)
    }

    /// Matches both reads and, where both parse, writes their outputs into
    /// `sp`; where the pair does not parse, `sp` is left empty.
    pub fn parse_into(&mut self, r1: &[u8], r2: &[u8], sp: &mut SeqPair) -> (ok: bool)
        requires
            old(self).wf(),
        ensures
            final(self).wf(),
            final(self).r1_cginfo == old(self).r1_cginfo,
            final(self).r2_cginfo == old(self).r2_cginfo,
            final(self).r1_re == old(self).r1_re,
            final(self).r2_re == old(self).r2_re,
            capture_slots(final(self).r1_clocs) == regex_search(old(self).r1_re, r1@),
            capture_slots(final(self).r1_clocs).len() == old(self).r1_cginfo@.len() + 1,
            capture_slots(final(self).r2_clocs).len() == old(self).r2_cginfo@.len() + 1,
            capture_slots(final(self).r2_clocs) == regex_search(old(self).r2_re, r2@),
            ok == (final(self).read1_parsed(r1@) && final(self).read2_parsed(r2@)),
            ok ==> final(sp).s1@ == final(self).read1_output(r1@) && final(sp).s2@
                == final(self).read2_output(r2@),
            !ok ==> final(sp).s1@ == Seq::<char>::empty() && final(sp).s2@ == Seq::<char>::empty(),
    {
        sp.clear();
        // Slots made for another regex are replaced by fresh ones.
        if self.r1_clocs.len() != self.r1_re.captures_len() {
            self.r1_clocs = self.r1_re.capture_locations();
        }
        if self.r2_clocs.len() != self.r2_re.captures_len() {
            self.r2_clocs = self.r2_re.capture_locations();
        }
        let m1 = captures_read(&self.r1_re, &mut self.r1_clocs, r1);
        let m2 = captures_read(&self.r2_re, &mut self.r2_clocs, r2);
        if !m1 && !m2 {
            return false;
        }
        let ok1 = parse_single_read(&self.r1_clocs, &self.r1_cginfo, r1, &mut sp.s1);
        let ok = if ok1 {
            parse_single_read(&self.r2_clocs, &self.r2_cginfo, r2, &mut sp.s2)
        } else {
            false
        };
        if !ok {
            sp.clear();
        }
        proof {
            assert(Seq::<char>::empty() + self.read1_output(r1@) =~= self.read1_output(r1@));
            assert(Seq::<char>::empty() + self.read2_output(r2@) =~= self.read2_output(r2@));
        }
        ok
    }
}

} // verus!
