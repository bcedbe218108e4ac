//! The fixed-width geometry that a compiled description reduces to.
use crate::compile::{upper_at_max, FragmentRegexDesc};
use crate::geom::{captured_pieces_wf, captured_piece_wf, FragmentGeomDesc, GeomLen, GeomPiece};
use crate::text::{decimal, push_char, push_decimal};
use vstd::prelude::*;
use vstd::string::*;

verus! {

/// The fixed-width equivalent of a length model: a bounded range becomes one
/// base longer than its upper bound, as the padding makes it.
pub open spec fn simplify_len(len: GeomLen) -> GeomLen {
    match len {
        GeomLen::LenRange(_, h) => GeomLen::FixedLen((h + 1) as u32),
        _ => len,
    }
}

/// The fixed-width equivalent of a piece.
pub open spec fn simplify_piece(p: GeomPiece) -> GeomPiece {
    match p {
        GeomPiece::Discard(len) => GeomPiece::Discard(simplify_len(len)),
        GeomPiece::Barcode(len) => GeomPiece::Barcode(simplify_len(len)),
        GeomPiece::Umi(len) => GeomPiece::Umi(simplify_len(len)),
        GeomPiece::ReadSeq(len) => GeomPiece::ReadSeq(simplify_len(len)),
        GeomPiece::Fixed(_) => p,
    }
}

/// The fixed-width equivalents of the pieces, in order.
pub open spec fn simplify_pieces(ps: Seq<GeomPiece>) -> Seq<GeomPiece> {
    ps.map_values(|p: GeomPiece| simplify_piece(p))
}

fn simplified_len(len: GeomLen) -> (r: GeomLen)
    requires
        !(len matches GeomLen::LenRange(_, h) && h == u32::MAX),
    ensures
        r == simplify_len(len),
{
    match len {
        GeomLen::LenRange(_l, h) => GeomLen::FixedLen(h + 1),
        _ => len,
    }
}

/// The fixed-width equivalent of a piece.
fn get_simplified_geo(gp: &GeomPiece) -> (r: GeomPiece)
    requires
        !upper_at_max(*gp),
    ensures
        r == simplify_piece(*gp),
{
    match gp {
        GeomPiece::Discard(len) => GeomPiece::Discard(simplified_len(*len)),
        GeomPiece::Barcode(len) => GeomPiece::Barcode(simplified_len(*len)),
        GeomPiece::Umi(len) => GeomPiece::Umi(simplified_len(*len)),
        GeomPiece::ReadSeq(len) => GeomPiece::ReadSeq(simplified_len(*len)),
        GeomPiece::Fixed(_) => gp.copied(),
    }
}

fn simplified_pieces(ps: &Vec<GeomPiece>) -> (r: Vec<GeomPiece>)
    requires
        forall|i: int| 0 <= i < ps@.len() ==> !upper_at_max(#[trigger] ps@[i]),
    ensures
        r@ == simplify_pieces(ps@),
{
    let mut out: Vec<GeomPiece> = Vec::new();
    let mut i: usize = 0;
    while i < ps.len()
        invariant
            0 <= i <= ps@.len(),
            forall|j: int| 0 <= j < ps@.len() ==> !upper_at_max(#[trigger] ps@[j]),
            out@ == simplify_pieces(ps@.subrange(0, i as int)),
        decreases ps@.len() - i,
    {
        out.push(get_simplified_geo(&ps[i]));
        i = i + 1;
        assert(out@ =~= simplify_pieces(ps@.subrange(0, i as int)));
    }
    assert(ps@.subrange(0, i as int) =~= ps@);
    out
}

/// The tag letter of a piece kind.
pub open spec fn kind_letter(p: GeomPiece) -> char {
    match p {
        GeomPiece::Discard(_) => 'x',
        GeomPiece::Barcode(_) => 'b',
        GeomPiece::Umi(_) => 'u',
        _ => 'r',
    }
}

/// The tag of a length model once simplified: `[n]` or `:`.
pub open spec fn len_tag(len: GeomLen) -> Seq<char> {
    match simplify_len(len) {
        GeomLen::FixedLen(n) => seq!['['] + decimal(n as nat) + seq![']'],
        _ => seq![':'],
    }
}

/// A piece that has a simplified tag: not an anchor, and with room for the
/// extra padded base.
pub open spec fn taggable(p: GeomPiece) -> bool {
    !(p is Fixed) && !upper_at_max(p)
}

/// The simplified tag of a piece, as `b[16]` or `r:`.
pub open spec fn piece_tag(p: GeomPiece) -> Seq<char> {
    seq![kind_letter(p)] + len_tag(p.len_of()->0)
}

/// The simplified tags of the pieces, concatenated in order.
pub open spec fn pieces_tag(ps: Seq<GeomPiece>) -> Seq<char>
    decreases ps.len(),
{
    if ps.len() == 0 {
        Seq::empty()
    } else {
        pieces_tag(ps.drop_last()) + piece_tag(ps.last())
    }
}

/// The simplified description of both reads: `1{...}2{...}`, leaving out the
/// block of a read that captures nothing.
pub open spec fn description_tag(pieces1: Seq<GeomPiece>, pieces2: Seq<GeomPiece>) -> Seq<char> {
    (if pieces1.len() > 0 {
        seq!['1', '{'] + pieces_tag(pieces1) + seq!['}']
    } else {
        Seq::empty()
    }) + (if pieces2.len() > 0 {
        seq!['2', '{'] + pieces_tag(pieces2) + seq!['}']
    } else {
        Seq::empty()
    })
}

/// The simplified tags of the pieces, concatenated.
fn get_simplified_piscem_string(geo_pieces: &Vec<GeomPiece>) -> (r: String)
    requires
        forall|i: int| 0 <= i < geo_pieces@.len() ==> taggable(#[trigger] geo_pieces@[i]),
    ensures
        r@ == pieces_tag(geo_pieces@),
{
    let mut rep = String::new();
    let mut i: usize = 0;
    while i < geo_pieces.len()
        invariant
            0 <= i <= geo_pieces@.len(),
            forall|j: int| 0 <= j < geo_pieces@.len() ==> taggable(#[trigger] geo_pieces@[j]),
            rep@ == pieces_tag(geo_pieces@.subrange(0, i as int)),
        decreases geo_pieces@.len() - i,
    {
        let gp = &geo_pieces[i];
        assert(taggable(geo_pieces@[i as int]));
        let len: GeomLen = match gp {
            GeomPiece::Discard(len) => {
                push_char(&mut rep, 'x');
                *len
            },
            GeomPiece::Barcode(len) => {
                push_char(&mut rep, 'b');
                *len
            },
            GeomPiece::Umi(len) => {
                push_char(&mut rep, 'u');
                *len
            },
            GeomPiece::ReadSeq(len) => {
                push_char(&mut rep, 'r');
                *len
            },
            GeomPiece::Fixed(_) => {
                GeomLen::Unbounded
            },
        };
        match simplified_len(len) {
            GeomLen::FixedLen(x) => {
                push_char(&mut rep, '[');
                push_decimal(&mut rep, x as u64);
                push_char(&mut rep, ']');
            },
            _ => {
                push_char(&mut rep, ':');
            },
        }
        i = i + 1;
        assert(geo_pieces@.subrange(0, i as int).drop_last() =~= geo_pieces@.subrange(0, i - 1 as int));
        assert(rep@ =~= pieces_tag(geo_pieces@.subrange(0, i as int)));
    }
    assert(geo_pieces@.subrange(0, i as int) =~= geo_pieces@);
    rep
}

proof fn lemma_wf_taggable(ps: Seq<GeomPiece>)
    requires
        captured_pieces_wf(ps),
    ensures
        forall|i: int| 0 <= i < ps.len() ==> taggable(#[trigger] ps[i]),
{
    assert forall|i: int| 0 <= i < ps.len() implies taggable(#[trigger] ps[i]) by {
        assert(captured_piece_wf(ps[i]));
    }
}

impl FragmentRegexDesc {
    /// The fixed-width description that the padded output follows: each
    /// captured piece, with a bounded range turned into a fixed length one
    /// base longer than its upper bound.
    pub fn get_simplified_geo_desc(&self) -> (r: FragmentGeomDesc)
        requires
            self.wf(),
        ensures
            r.read1_desc@ == simplify_pieces(self.r1_cginfo@),
            r.read2_desc@ == simplify_pieces(self.r2_cginfo@),
    {
        proof {
            lemma_wf_taggable(self.r1_cginfo@);
            lemma_wf_taggable(self.r2_cginfo@);
        }
        FragmentGeomDesc {
            read1_desc: simplified_pieces(&self.r1_cginfo),
            read2_desc: simplified_pieces(&self.r2_cginfo),
        }
    }

    /// The simplified description as text, e.g. `1{b[11]u[8]b[10]}2{r:}`.
    pub fn get_simplified_description_string(&self) -> (r: String)
        requires
            self.wf(),
        ensures
            r@ == description_tag(self.r1_cginfo@, self.r2_cginfo@),
    {
        proof {
            lemma_wf_taggable(self.r1_cginfo@);
            lemma_wf_taggable(self.r2_cginfo@);
        }
        let mut rep = String::new();
        if self.r1_cginfo.len() > 0 {
            push_char(&mut rep, '1');
            push_char(&mut rep, '{');
            let d = get_simplified_piscem_string(&self.r1_cginfo);
            rep.append(d.as_str());
            push_char(&mut rep, '}');
        }
        let ghost first = rep@;
        if self.r2_cginfo.len() > 0 {
            push_char(&mut rep, '2');
            push_char(&mut rep, '{');
            let d = get_simplified_piscem_string(&self.r2_cginfo);
            rep.append(d.as_str());
            push_char(&mut rep, '}');
        }
        assert(rep@ =~= description_tag(self.r1_cginfo@, self.r2_cginfo@));
        rep
    }
}

} // verus!
