//! Properties that tie the compiler, the parser and the simplifier together.
use crate::compile::{
    compiled_from, pieces_pattern, read_pattern, tail_pattern, CompileError, FragmentRegexDesc,
};
use crate::geom::{
    captured_piece_wf, captured_pieces_wf, first_too_wide, FragmentGeomDesc, GeomLen, GeomPiece,
};
use crate::matcher::regex_pattern;
use crate::parse::{
    capture_len, group_output, group_piece, group_resolves, groups_output, padding, read_output,
    read_resolves,
};
use crate::simplify::{description_tag, kind_letter, piece_tag, pieces_tag, simplify_piece};
use crate::stats::{percent_text, success_hundredths};
use crate::text::{bytes_chars, decimal};
use vstd::prelude::*;

verus! {

/// A bounded-range piece `(low, high)` captured at any width `w` within its
/// range, as the span `start .. end` of a read, comes out exactly `high + 1`
/// bases wide: the captured bases followed by the filler for the shortfall
/// `high - w`.
pub proof fn lemma_padded_width(p: GeomPiece, low: u32, high: u32, start: usize, end: usize, r: Seq<u8>)
    requires
        captured_piece_wf(p),
        capture_len(Some(p)) == Some(GeomLen::LenRange(low, high)),
        group_resolves(Some((start, end)), Some(p), r.len()),
    ensures
        low <= end - start <= high,
        group_output(Some((start, end)), Some(p), r) == bytes_chars(r.subrange(start as int, end as int))
            + padding(high - (end - start)),
        group_output(Some((start, end)), Some(p), r).len() == high + 1,
{
}

/// The matcher compiled for a read whose last piece has one known width has
/// as its pattern: the start anchor, the patterns of the pieces, then an
/// unbounded run of the alphabet before the end anchor, which takes whatever
/// follows the pieces.
pub proof fn lemma_fixed_tail_anchoring(desc: FragmentGeomDesc, r: Result<FragmentRegexDesc, CompileError>)
    requires
        compiled_from(desc, r),
        r is Ok,
    ensures
        desc.read1_desc@.len() > 0 && desc.read1_desc@.last().spec_is_fixed_len() ==> regex_pattern(
            r->Ok_0.r1_re,
        ) == seq!['^'] + pieces_pattern(desc.read1_desc@) + seq!['[', 'A', 'C', 'G', 'T', 'N', ']', '*']
            + seq!['$'],
        desc.read2_desc@.len() > 0 && desc.read2_desc@.last().spec_is_fixed_len() ==> regex_pattern(
            r->Ok_0.r2_re,
        ) == seq!['^'] + pieces_pattern(desc.read2_desc@) + seq!['[', 'A', 'C', 'G', 'T', 'N', ']', '*']
            + seq!['$'],
{
    assert(read_pattern(desc.read1_desc@) =~= seq!['^'] + pieces_pattern(desc.read1_desc@) + tail_pattern(
        desc.read1_desc@,
    ) + seq!['$']);
    assert(read_pattern(desc.read2_desc@) =~= seq!['^'] + pieces_pattern(desc.read2_desc@) + tail_pattern(
        desc.read2_desc@,
    ) + seq!['$']);
    if desc.read1_desc@.len() > 0 && desc.read1_desc@.last().spec_is_fixed_len() {
        assert(tail_pattern(desc.read1_desc@) =~= seq!['[', 'A', 'C', 'G', 'T', 'N', ']', '*']);
    }
    if desc.read2_desc@.len() > 0 && desc.read2_desc@.last().spec_is_fixed_len() {
        assert(tail_pattern(desc.read2_desc@) =~= seq!['[', 'A', 'C', 'G', 'T', 'N', ']', '*']);
    }
}

proof fn lemma_too_wide_found(ps: Seq<GeomPiece>, i: int)
    requires
        0 <= i < ps.len(),
        ps[i].range_too_wide(),
    ensures
        first_too_wide(ps) is Some,
    decreases ps.len(),
{
    if i < ps.len() - 1 {
        assert(ps.drop_last()[i] == ps[i]);
        lemma_too_wide_found(ps.drop_last(), i);
    }
}

proof fn lemma_first_too_wide_is_too_wide(ps: Seq<GeomPiece>)
    requires
        first_too_wide(ps) is Some,
    ensures
        first_too_wide(ps)->0.range_too_wide(),
    decreases ps.len(),
{
    if first_too_wide(ps.drop_last()) is Some {
        lemma_first_too_wide_is_too_wide(ps.drop_last());
    }
}

/// A description with a bounded range wider than the limit, in either read,
/// compiles to no matcher: it fails with `RangeTooWide`, naming a piece that
/// is too wide.
pub proof fn lemma_range_limit(desc: FragmentGeomDesc, r: Result<FragmentRegexDesc, CompileError>, read: int, i: int)
    requires
        read == 1 ==> 0 <= i < desc.read1_desc@.len() && desc.read1_desc@[i].range_too_wide(),
        read == 2 ==> 0 <= i < desc.read2_desc@.len() && desc.read2_desc@[i].range_too_wide(),
        read == 1 || read == 2,
        compiled_from(desc, r),
    ensures
        r matches Err(CompileError::RangeTooWide(p)) && p.range_too_wide(),
{
    if read == 1 {
        lemma_too_wide_found(desc.read1_desc@, i);
    } else {
        lemma_too_wide_found(desc.read2_desc@, i);
    }
    if first_too_wide(desc.read1_desc@) is Some {
        lemma_first_too_wide_is_too_wide(desc.read1_desc@);
    } else {
        lemma_first_too_wide_is_too_wide(desc.read2_desc@);
    }
}

/// For a captured piece of bounded width, the width that the simplified
/// description gives it, and that its simplified tag spells out, is the
/// width that the parser writes for it.
pub proof fn lemma_simplified_width(p: GeomPiece, slot: Option<(usize, usize)>, r: Seq<u8>)
    requires
        captured_piece_wf(p),
        p.len_of() != Some(GeomLen::Unbounded),
        group_resolves(slot, Some(p), r.len()),
    ensures
        simplify_piece(p).len_of() == Some(GeomLen::FixedLen(group_output(slot, Some(p), r).len() as u32)),
        piece_tag(p) == seq![kind_letter(p), '['] + decimal(group_output(slot, Some(p), r).len()) + seq![']'],
{
    assert(piece_tag(p) =~= seq![kind_letter(p), '['] + decimal(group_output(slot, Some(p), r).len()) + seq![']']);
}

} // verus!

verus! {

proof fn lemma_groups_output_prefix(slots: Seq<Option<(usize, usize)>>, ps: Seq<GeomPiece>, r: Seq<u8>, g: int, n: int)
    requires
        g <= n,
    ensures
        groups_output(slots, ps, r, g).is_prefix_of(groups_output(slots, ps, r, n)),
    decreases n - g,
{
    if g < n {
        lemma_groups_output_prefix(slots, ps, r, g, n - 1);
        if n > 1 {
            assert(groups_output(slots, ps, r, n - 1) =~= groups_output(slots, ps, r, n).subrange(
                0,
                groups_output(slots, ps, r, n - 1).len() as int,
            ));
        }
    }
}

proof fn lemma_pieces_tag_prefix(ps: Seq<GeomPiece>, j: int)
    requires
        0 <= j <= ps.len(),
    ensures
        pieces_tag(ps.subrange(0, j)).is_prefix_of(pieces_tag(ps)),
    decreases ps.len() - j,
{
    if j < ps.len() {
        lemma_pieces_tag_prefix(ps.drop_last(), j);
        assert(ps.drop_last().subrange(0, j) =~= ps.subrange(0, j));
        assert(pieces_tag(ps.drop_last()) =~= pieces_tag(ps).subrange(0, pieces_tag(ps.drop_last()).len() as int));
    } else {
        assert(ps.subrange(0, j) =~= ps);
    }
}

/// Where output starts for the piece behind group `k + 1` of a read.
pub open spec fn segment_start(slots: Seq<Option<(usize, usize)>>, ps: Seq<GeomPiece>, r: Seq<u8>, k: int) -> int {
    groups_output(slots, ps, r, k + 1).len() as int
}

/// What the parser writes for the piece behind group `k + 1` of a read.
pub open spec fn piece_segment(slots: Seq<Option<(usize, usize)>>, ps: Seq<GeomPiece>, r: Seq<u8>, k: int) -> Seq<char> {
    group_output(slots[k + 1], Some(ps[k]), r)
}

/// Where the simplified tag of piece `k` starts among the tags of a read.
pub open spec fn tag_start(ps: Seq<GeomPiece>, k: int) -> int {
    pieces_tag(ps.subrange(0, k)).len() as int
}

/// In a parsed read with other than one captured piece, the output holds, at
/// its place, the segment of each piece `k`: for a bounded range `(low,
/// high)` exactly `high + 1` characters, the captured bases followed by the
/// filler for their shortfall; and the simplified tags of the read hold, at
/// the place of piece `k`, a tag whose width is the length of that segment
/// (for every piece that is not unbounded).
pub proof fn lemma_piece_segment(slots: Seq<Option<(usize, usize)>>, ps: Seq<GeomPiece>, r: Seq<u8>, k: int)
    requires
        captured_pieces_wf(ps),
        ps.len() != 1,
        slots.len() == ps.len() + 1,
        read_resolves(slots, ps, r),
        0 <= k < ps.len(),
    ensures
        read_output(slots, ps, r).subrange(
            segment_start(slots, ps, r, k),
            segment_start(slots, ps, r, k) + piece_segment(slots, ps, r, k).len(),
        ) == piece_segment(slots, ps, r, k),
        capture_len(Some(ps[k])) matches Some(GeomLen::LenRange(low, high)) ==> {
            let (start, end) = slots[k + 1]->0;
            &&& low <= end - start <= high
            &&& piece_segment(slots, ps, r, k).len() == high + 1
            &&& piece_segment(slots, ps, r, k) == bytes_chars(r.subrange(start as int, end as int))
                + padding(high - (end - start))
        },
        ps[k].len_of() != Some(GeomLen::Unbounded) ==> {
            &&& pieces_tag(ps).subrange(tag_start(ps, k), tag_start(ps, k) + piece_tag(ps[k]).len())
                == piece_tag(ps[k])
            &&& piece_tag(ps[k]) == seq![kind_letter(ps[k]), '['] + decimal(
                piece_segment(slots, ps, r, k).len(),
            ) + seq![']']
        },
{
    assert(group_resolves(slots[k + 1], group_piece(ps, k + 1), r.len()));
    assert(group_piece(ps, k + 1) == Some(ps[k]));
    assert(captured_piece_wf(ps[k]));
    lemma_groups_output_prefix(slots, ps, r, k + 2, slots.len() as int);
    let before = groups_output(slots, ps, r, k + 1);
    let upto = groups_output(slots, ps, r, k + 2);
    assert(upto == before + piece_segment(slots, ps, r, k));
    assert(read_output(slots, ps, r) == groups_output(slots, ps, r, slots.len() as int));
    let whole = read_output(slots, ps, r);
    assert(whole.subrange(0, upto.len() as int) =~= upto);
    assert(whole.subrange(before.len() as int, upto.len() as int) =~= whole.subrange(0, upto.len() as int).subrange(
        before.len() as int,
        upto.len() as int,
    ));
    assert(upto.subrange(before.len() as int, upto.len() as int) =~= piece_segment(slots, ps, r, k));
    if ps[k].len_of() != Some(GeomLen::Unbounded) {
        lemma_simplified_width(ps[k], slots[k + 1], r);
        lemma_pieces_tag_prefix(ps, k + 1);
        assert(ps.subrange(0, k + 1).drop_last() =~= ps.subrange(0, k));
        let tags_upto = pieces_tag(ps.subrange(0, k + 1));
        let tags = pieces_tag(ps);
        assert(tags_upto == pieces_tag(ps.subrange(0, k)) + piece_tag(ps[k]));
        assert(tags.subrange(0, tags_upto.len() as int) =~= tags_upto);
        assert(tags.subrange(tag_start(ps, k), tags_upto.len() as int) =~= tags.subrange(
            0,
            tags_upto.len() as int,
        ).subrange(tag_start(ps, k), tags_upto.len() as int));
        assert(tags_upto.subrange(tag_start(ps, k), tags_upto.len() as int) =~= piece_tag(ps[k]));
    }
}

/// The simplified description holds the tags of read 1 right after `1{`,
/// and those of read 2 right after `2{`, itself after the block of read 1
/// where read 1 captures anything.
pub proof fn lemma_description_blocks(pieces1: Seq<GeomPiece>, pieces2: Seq<GeomPiece>)
    ensures
        pieces1.len() > 0 ==> description_tag(pieces1, pieces2).subrange(2, 2 + pieces_tag(pieces1).len() as int)
            == pieces_tag(pieces1),
        pieces2.len() > 0 ==> {
            let start: int = if pieces1.len() > 0 {
                pieces_tag(pieces1).len() + 5int
            } else {
                2
            };
            description_tag(pieces1, pieces2).subrange(start, start + pieces_tag(pieces2).len() as int)
                == pieces_tag(pieces2)
        },
{
    assert(pieces1.len() > 0 ==> description_tag(pieces1, pieces2).subrange(2, 2 + pieces_tag(pieces1).len() as int)
        =~= pieces_tag(pieces1));
    let start: int = if pieces1.len() > 0 {
        pieces_tag(pieces1).len() + 5int
    } else {
        2
    };
    assert(pieces2.len() > 0 ==> description_tag(pieces1, pieces2).subrange(start, start + pieces_tag(pieces2).len() as int)
        =~= pieces_tag(pieces2));
}

/// The counts after each pair of a run, starting from none.
pub open spec fn run_counts(outcomes: Seq<bool>) -> (nat, nat)
    decreases outcomes.len(),
{
    if outcomes.len() == 0 {
        (0, 0)
    } else {
        let (t, f) = run_counts(outcomes.drop_last());
        (t + 1, if outcomes.last() {
            f
        } else {
            f + 1
        })
    }
}

/// Over a whole run, counting each pair as `count_pair` does gives as total
/// the number of pairs and as failures the number of pairs that did not
/// parse.
pub proof fn lemma_run_counts(outcomes: Seq<bool>)
    ensures
        run_counts(outcomes).0 == outcomes.len(),
        run_counts(outcomes).1 == outcomes.filter(|o: bool| !o).len(),
        run_counts(outcomes).1 <= run_counts(outcomes).0,
    decreases outcomes.len(),
{
    reveal(Seq::filter);
    if outcomes.len() > 0 {
        lemma_run_counts(outcomes.drop_last());
    }
}

/// Two failures among twenty-five pairs report 92.00 percent.
pub proof fn lemma_two_of_twenty_five()
    ensures
        success_hundredths(25, 2) == 9200,
        percent_text(9200) == seq!['9', '2', '.', '0', '0'],
{
    assert(20000 * (25 - 2) + 25 == 460025);
    assert(460025int / 50 == 9200);
    reveal_with_fuel(decimal, 2);
    assert(percent_text(9200) =~= seq!['9', '2', '.', '0', '0']);
}

} // verus!
