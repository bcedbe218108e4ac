//! Compiling a geometry description into one anchored matcher per read.
use crate::geom::{
    captured_piece_wf, captured_pieces, captured_pieces_wf, first_too_wide, FragmentGeomDesc,
    GeomLen, GeomPiece, BOUNDED_RANGE_LIMIT,
};
use crate::text::{decimal, push_char, push_decimal};
use crate::matcher::{
    capture_slots, pattern_compiles, pattern_groups, pattern_search, regex_groups, regex_pattern,
    regex_search,
};
use regex::bytes::{CaptureLocations, Regex};
use vstd::prelude::*;
use vstd::string::*;

verus! {

/// Why a geometry description could not be compiled.
#[derive(Clone, Debug)]
pub enum CompileError {
    /// A bounded-range piece spans more than `BOUNDED_RANGE_LIMIT` bases
    /// (or has its bounds out of order); the piece is attached.
    RangeTooWide(GeomPiece),
    /// The assembled pattern of a read did not compile; the pattern is attached.
    InvalidPattern(String),
}

/// The compiled form of a geometry description: one anchored matcher per
/// read, and for each the pieces that its capture groups stand for, in order.
#[derive(Debug)]
pub struct FragmentRegexDesc {
    /// The pieces captured by the groups of `r1_re`, group 1 first.
    pub r1_cginfo: Vec<GeomPiece>,
    /// The pieces captured by the groups of `r2_re`, group 1 first.
    pub r2_cginfo: Vec<GeomPiece>,
    /// The matcher of read 1.
    pub r1_re: Regex,
    /// The matcher of read 2.
    pub r2_re: Regex,
    /// Capture locations of read 1, reused from one search to the next;
    /// they hold what the last search of read 1 found.
    pub r1_clocs: CaptureLocations,
    /// Capture locations of read 2, reused from one search to the next;
    /// they hold what the last search of read 2 found.
    pub r2_clocs: CaptureLocations,
}

impl FragmentRegexDesc {
    /// Both captured-piece lists hold well-formed captured pieces, and each
    /// matcher has one capture group per captured piece besides the whole
    /// match.
    pub open spec fn wf(&self) -> bool {
        &&& captured_pieces_wf(self.r1_cginfo@)
        &&& captured_pieces_wf(self.r2_cginfo@)
        &&& regex_groups(self.r1_re) == self.r1_cginfo@.len() + 1
        &&& regex_groups(self.r2_re) == self.r2_cginfo@.len() + 1
    }
}

/// The pattern text of the alphabet that pieces other than anchors match.
pub open spec fn alphabet_class() -> Seq<char> {
    seq!['[', 'A', 'C', 'G', 'T', 'N', ']']
}

/// The pattern of a length model: the alphabet repeated as the model says.
pub open spec fn len_pattern(len: GeomLen) -> Seq<char> {
    match len {
        GeomLen::FixedLen(n) => alphabet_class() + seq!['{'] + decimal(n as nat) + seq!['}'],
        GeomLen::LenRange(l, h) => alphabet_class() + seq!['{'] + decimal(l as nat) + seq![',']
            + decimal(h as nat) + seq!['}'],
        GeomLen::Unbounded => alphabet_class() + seq!['*'],
    }
}

/// The pattern of one piece: a group around the extracted kinds, the anchor
/// text verbatim.
pub open spec fn piece_pattern(p: GeomPiece) -> Seq<char> {
    match p {
        GeomPiece::Discard(len) => len_pattern(len),
        GeomPiece::Barcode(len) => seq!['('] + len_pattern(len) + seq![')'],
        GeomPiece::Umi(len) => seq!['('] + len_pattern(len) + seq![')'],
        GeomPiece::ReadSeq(len) => seq!['('] + len_pattern(len) + seq![')'],
        GeomPiece::Fixed(s) => s@,
    }
}

/// The patterns of the pieces, concatenated in order.
pub open spec fn pieces_pattern(ps: Seq<GeomPiece>) -> Seq<char>
    decreases ps.len(),
{
    if ps.len() == 0 {
        Seq::empty()
    } else {
        pieces_pattern(ps.drop_last()) + piece_pattern(ps.last())
    }
}

/// The unbounded discard appended after a last piece of fixed width.
pub open spec fn tail_pattern(ps: Seq<GeomPiece>) -> Seq<char> {
    if ps.len() > 0 && ps.last().spec_is_fixed_len() {
        piece_pattern(GeomPiece::Discard(GeomLen::Unbounded))
    } else {
        Seq::empty()
    }
}

/// The whole anchored pattern of a read.
pub open spec fn read_pattern(ps: Seq<GeomPiece>) -> Seq<char> {
    seq!['^'] + pieces_pattern(ps) + tail_pattern(ps) + seq!['$']
}

/// Appends the pattern of a length model.
fn push_len_pattern(s: &mut String, len: GeomLen)
    ensures
        final(s)@ == old(s)@ + len_pattern(len),
{
    push_char(s, '[');
    push_char(s, 'A');
    push_char(s, 'C');
    push_char(s, 'G');
    push_char(s, 'T');
    push_char(s, 'N');
    push_char(s, ']');
    match len {
        GeomLen::FixedLen(n) => {
            push_char(s, '{');
            push_decimal(s, n as u64);
            push_char(s, '}');
        },
        GeomLen::LenRange(l, h) => {
            push_char(s, '{');
            push_decimal(s, l as u64);
            push_char(s, ',');
            push_decimal(s, h as u64);
            push_char(s, '}');
        },
        GeomLen::Unbounded => {
            push_char(s, '*');
        },
    }
    assert(final(s)@ =~= old(s)@ + len_pattern(len));
}

/// Appends the pattern of an extracted piece: its length pattern in a group.
fn push_group_pattern(s: &mut String, len: GeomLen)
    ensures
        final(s)@ == old(s)@ + seq!['('] + len_pattern(len) + seq![')'],
{
    push_char(s, '(');
    push_len_pattern(s, len);
    push_char(s, ')');
    assert(final(s)@ =~= old(s)@ + seq!['('] + len_pattern(len) + seq![')']);
}

/// Checks a bounded range against the padding limit.
fn check_range(gp: &GeomPiece, len: GeomLen) -> (r: Result<(), CompileError>)
    requires
        gp.len_of() == Some(len),
    ensures
        r is Err <==> gp.range_too_wide(),
        r matches Err(e) ==> e == CompileError::RangeTooWide(*gp),
{
    match len {
        GeomLen::LenRange(l, h) => {
            if l > h || h - l > BOUNDED_RANGE_LIMIT {
                Err(CompileError::RangeTooWide(gp.copied()))
            } else {
                Ok(())
            }
        },
        _ => Ok(()),
    }
}

/// The pattern fragment of one piece, and the piece itself where it is
/// captured; fails on a bounded range that is too wide.
pub fn geom_piece_as_regex_string(gp: &GeomPiece) -> (r: Result<(String, Option<GeomPiece>), CompileError>)
    ensures
        r is Err <==> gp.range_too_wide(),
        r matches Err(e) ==> e == CompileError::RangeTooWide(*gp),
        r matches Ok((s, g)) ==> s@ == piece_pattern(*gp) && g == (if gp.is_capture() {
            Some(*gp)
        } else {
            None
        }),
{
    let mut rep = String::new();
    match gp {
        GeomPiece::Discard(len) => {
            check_range(gp, *len)?;
            push_len_pattern(&mut rep, *len);
            Ok((rep, None))
        },
        GeomPiece::Barcode(len) => {
            check_range(gp, *len)?;
            push_group_pattern(&mut rep, *len);
            Ok((rep, Some(GeomPiece::Barcode(*len))))
        },
        GeomPiece::Umi(len) => {
            check_range(gp, *len)?;
            push_group_pattern(&mut rep, *len);
            Ok((rep, Some(GeomPiece::Umi(*len))))
        },
        GeomPiece::ReadSeq(len) => {
            check_range(gp, *len)?;
            push_group_pattern(&mut rep, *len);
            Ok((rep, Some(GeomPiece::ReadSeq(*len))))
        },
        GeomPiece::Fixed(s) => {
            rep.append(s.as_str());
            Ok((rep, None))
        },
    }
}

} // verus!

verus! {

proof fn lemma_first_too_wide_prefix(ps: Seq<GeomPiece>, k: int)
    requires
        0 <= k <= ps.len(),
        first_too_wide(ps.subrange(0, k)) is Some,
    ensures
        first_too_wide(ps) == first_too_wide(ps.subrange(0, k)),
    decreases ps.len() - k,
{
    if k < ps.len() {
        assert(ps.drop_last().subrange(0, k) =~= ps.subrange(0, k));
        lemma_first_too_wide_prefix(ps.drop_last(), k);
    } else {
        assert(ps.subrange(0, k) =~= ps);
    }
}

proof fn lemma_captured_not_too_wide(ps: Seq<GeomPiece>)
    requires
        first_too_wide(ps) is None,
    ensures
        forall|j: int|
            0 <= j < captured_pieces(ps).len() ==> (#[trigger] captured_pieces(ps)[j]).is_capture()
                && !captured_pieces(ps)[j].range_too_wide(),
    decreases ps.len(),
{
    if ps.len() > 0 {
        assert(first_too_wide(ps.drop_last()) is None);
        lemma_captured_not_too_wide(ps.drop_last());
        let rest = captured_pieces(ps.drop_last());
        if ps.last().is_capture() {
            assert forall|j: int| 0 <= j < rest.len() + 1 implies (#[trigger] rest.push(
                ps.last(),
            )[j]).is_capture() && !rest.push(ps.last())[j].range_too_wide() by {
                if j < rest.len() {
                    assert(rest.push(ps.last())[j] == rest[j]);
                }
            }
        }
    }
}

/// The anchored pattern of one read and the pieces that its groups capture;
/// fails on the first bounded range that is too wide.
pub fn read_regex_string(pieces: &Vec<GeomPiece>) -> (r: Result<(String, Vec<GeomPiece>), CompileError>)
    ensures
        r is Ok <==> first_too_wide(pieces@) is None,
        r matches Err(e) ==> e == CompileError::RangeTooWide(first_too_wide(pieces@)->0),
        r matches Ok((s, caps)) ==> s@ == read_pattern(pieces@) && caps@ == captured_pieces(
            pieces@,
        ),
{
    let mut re_str = String::new();
    push_char(&mut re_str, '^');
    let mut cginfo: Vec<GeomPiece> = Vec::new();
    let mut i: usize = 0;
    while i < pieces.len()
        invariant
            0 <= i <= pieces@.len(),
            re_str@ == seq!['^'] + pieces_pattern(pieces@.subrange(0, i as int)),
            cginfo@ == captured_pieces(pieces@.subrange(0, i as int)),
            first_too_wide(pieces@.subrange(0, i as int)) is None,
        decreases pieces@.len() - i,
    {
        proof {
            assert(pieces@.subrange(0, i + 1).drop_last() =~= pieces@.subrange(0, i as int));
        }
        match geom_piece_as_regex_string(&pieces[i]) {
            Ok((piece_str, geo)) => {
                re_str.append(piece_str.as_str());
                match geo {
                    Some(elem) => cginfo.push(elem),
                    None => {},
                }
            },
            Err(e) => {
                proof {
                    lemma_first_too_wide_prefix(pieces@, i + 1);
                }
                return Err(e);
            },
        }
        i = i + 1;
        assert(re_str@ =~= seq!['^'] + pieces_pattern(pieces@.subrange(0, i as int)));
    }
    assert(pieces@.subrange(0, i as int) =~= pieces@);
    if pieces.len() > 0 && pieces[pieces.len() - 1].is_fixed_len() {
        if let Ok((tail, _)) = geom_piece_as_regex_string(&GeomPiece::Discard(GeomLen::Unbounded)) {
            re_str.append(tail.as_str());
        }
    }
    push_char(&mut re_str, '$');
    assert(re_str@ =~= read_pattern(pieces@));
    Ok((re_str, cginfo))
}

/// A bounded range whose upper bound is `u32::MAX`.
pub open spec fn upper_at_max(p: GeomPiece) -> bool {
    match p.len_of() {
        Some(GeomLen::LenRange(_, h)) => h == u32::MAX,
        _ => false,
    }
}

/// No bounded range among the pieces has an upper bound of `u32::MAX`.
pub open spec fn bounds_fit(ps: Seq<GeomPiece>) -> bool {
    forall|j: int| 0 <= j < ps.len() ==> !upper_at_max(#[trigger] ps[j])
}

/// Whether every bounded range among the pieces has an upper bound below
/// `u32::MAX`.
fn upper_bounds_fit(ps: &Vec<GeomPiece>) -> (r: bool)
    ensures
        r == bounds_fit(ps@),
{
    let mut i: usize = 0;
    while i < ps.len()
        invariant
            0 <= i <= ps@.len(),
            forall|j: int| 0 <= j < i ==> !upper_at_max(#[trigger] ps@[j]),
        decreases ps@.len() - i,
    {
        let h: u32 = match &ps[i] {
            GeomPiece::Barcode(GeomLen::LenRange(_, h)) => *h,
            GeomPiece::Umi(GeomLen::LenRange(_, h)) => *h,
            GeomPiece::Discard(GeomLen::LenRange(_, h)) => *h,
            GeomPiece::ReadSeq(GeomLen::LenRange(_, h)) => *h,
            _ => 0,
        };
        if h == u32::MAX {
            assert(upper_at_max(ps@[i as int]));
            return false;
        }
        i = i + 1;
    }
    true
}

/// Whether the matcher of a read can be built from its pieces: no captured
/// range has an upper bound of `u32::MAX` (far beyond what the regex crate
/// compiles, and leaving no room for the padded width `high + 1`), the regex
/// crate compiles the read's pattern, and the pattern has one capture group
/// per captured piece besides the whole match.
pub open spec fn read_compiles(ps: Seq<GeomPiece>) -> bool {
    &&& bounds_fit(captured_pieces(ps))
    &&& pattern_compiles(read_pattern(ps))
    &&& pattern_groups(read_pattern(ps)) == captured_pieces(ps).len() + 1
}

/// What compiling a description gives. The first too-wide range of read 1,
/// else of read 2, is reported; else the pattern of read 1, else of read 2,
/// where that read's matcher cannot be built; else the two matchers, each
/// compiled from its read's pattern, with the pieces its groups capture.
pub open spec fn compiled_from(desc: FragmentGeomDesc, r: Result<FragmentRegexDesc, CompileError>) -> bool {
    let (pieces1, pieces2) = (desc.read1_desc@, desc.read2_desc@);
    if first_too_wide(pieces1) is Some {
        r == Err::<FragmentRegexDesc, CompileError>(CompileError::RangeTooWide(first_too_wide(pieces1)->0))
    } else if first_too_wide(pieces2) is Some {
        r == Err::<FragmentRegexDesc, CompileError>(CompileError::RangeTooWide(first_too_wide(pieces2)->0))
    } else if !read_compiles(pieces1) {
        r matches Err(CompileError::InvalidPattern(s)) && s@ == read_pattern(pieces1)
    } else if !read_compiles(pieces2) {
        r matches Err(CompileError::InvalidPattern(s)) && s@ == read_pattern(pieces2)
    } else {
        &&& r matches Ok(d)
        &&& d.wf()
        &&& d.r1_cginfo@ == captured_pieces(pieces1)
        &&& d.r2_cginfo@ == captured_pieces(pieces2)
        &&& regex_pattern(d.r1_re) == read_pattern(pieces1)
        &&& regex_pattern(d.r2_re) == read_pattern(pieces2)
        &&& forall|t: Seq<u8>| #[trigger] regex_search(d.r1_re, t) == pattern_search(read_pattern(pieces1), t)
        &&& forall|t: Seq<u8>| #[trigger] regex_search(d.r2_re, t) == pattern_search(read_pattern(pieces2), t)
        &&& capture_slots(d.r1_clocs).len() == d.r1_cginfo@.len() + 1
        &&& capture_slots(d.r2_clocs).len() == d.r2_cginfo@.len() + 1
    }
}

/// Builds the matcher of one read from its pattern and captured pieces, with
/// capture locations for it.
fn compile_read(re_str: String, cginfo: &Vec<GeomPiece>) -> (r: Result<(Regex, CaptureLocations), CompileError>)
    ensures
        r is Ok <==> (bounds_fit(cginfo@) && pattern_compiles(re_str@) && pattern_groups(re_str@)
            == cginfo@.len() + 1),
        r matches Ok((re, locs)) ==> regex_pattern(re) == re_str@ && regex_groups(re) == cginfo@.len()
            + 1 && capture_slots(locs).len() == cginfo@.len() + 1 && forall|t: Seq<u8>|
            #[trigger] regex_search(re, t) == pattern_search(re_str@, t),
        r matches Err(e) ==> e == CompileError::InvalidPattern(re_str),
{
    if !upper_bounds_fit(cginfo) {
        return Err(CompileError::InvalidPattern(re_str));
    }
    let re = match Regex::new(re_str.as_str()) {
        Ok(re) => re,
        Err(_) => {
            return Err(CompileError::InvalidPattern(re_str));
        },
    };
    // Each captured piece must have its own group, in order.
    let n = re.captures_len();
    if n == 0 || n - 1 != cginfo.len() {
        return Err(CompileError::InvalidPattern(re_str));
    }
    let locs = re.capture_locations();
    Ok((re, locs))
}

/// Compiling a geometry description into matchers.
pub trait FragmentGeomDescExt {
    /// What a compilation of `self` may give.
    spec fn regex_outcome(&self, r: Result<FragmentRegexDesc, CompileError>) -> bool;

    /// Compiles both reads of the description into a `FragmentRegexDesc`.
    fn as_regex(&self) -> (r: Result<FragmentRegexDesc, CompileError>)
        ensures
            self.regex_outcome(r),
    ;
}

impl FragmentGeomDescExt for FragmentGeomDesc {
    open spec fn regex_outcome(&self, r: Result<FragmentRegexDesc, CompileError>) -> bool {
        compiled_from(*self, r)
    }

    fn as_regex(&self) -> (r: Result<FragmentRegexDesc, CompileError>) {
        let (r1_re_str, r1_cginfo) = read_regex_string(&self.read1_desc)?;
        let (r2_re_str, r2_cginfo) = read_regex_string(&self.read2_desc)?;
        proof {
            lemma_captured_not_too_wide(self.read1_desc@);
            lemma_captured_not_too_wide(self.read2_desc@);
        }
        let (r1_re, r1_clocs) = compile_read(r1_re_str, &r1_cginfo)?;
        let (r2_re, r2_clocs) = compile_read(r2_re_str, &r2_cginfo)?;
        let d = FragmentRegexDesc { r1_cginfo, r2_cginfo, r1_re, r2_re, r1_clocs, r2_clocs };
        assert(captured_pieces_wf(d.r1_cginfo@));
        assert(captured_pieces_wf(d.r2_cginfo@));
        Ok(d)
    }
}

} // verus!
