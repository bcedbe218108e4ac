//! One step of a transformation run over a stream of read pairs.
use crate::compile::FragmentRegexDesc;
use crate::parse::SeqPair;
use crate::stats::XformStats;
use crate::text::{bytes_chars, push_bytes, push_char};
use vstd::prelude::*;
use vstd::string::*;

verus! {

/// A two-line FASTA record: `>` and the identifier, then the sequence.
pub open spec fn fasta_record(id: Seq<u8>, seq: Seq<char>) -> Seq<char> {
    seq!['>'] + bytes_chars(id) + seq!['\n'] + seq + seq!['\n']
}

/// Whether every byte is ASCII.
pub open spec fn ascii_bytes(s: Seq<u8>) -> bool {
    forall|i: int| 0 <= i < s.len() ==> #[trigger] s[i] < 128
}

/// Appends the FASTA record of one read. The identifier is ASCII text, so
/// that each of its bytes is one character of the record.
pub fn push_fasta_record(out: &mut String, id: &[u8], seq: &String)
    requires
        ascii_bytes(id@),
    ensures
        final(out)@ == old(out)@ + fasta_record(id@, seq@),
{
    push_char(out, '>');
    push_bytes(out, id, 0, id.len());
    push_char(out, '\n');
    out.append(seq.as_str());
    push_char(out, '\n');
    assert(id@.subrange(0, id@.len() as int) =~= id@);
    assert(final(out)@ =~= old(out)@ + fasta_record(id@, seq@));
}

/// Handles one read pair of a run: parses it into `sp`, counts it in
/// `stats`, and where it parses appends the FASTA record of read 1 to `out1`
/// and of read 2 to `out2`; returns whether it parsed. Read identifiers are
/// ASCII text; one that is not must be refused before this step.
pub fn xform_read_pair(
    geo_re: &mut FragmentRegexDesc,
    id1: &[u8],
    seq1: &[u8],
    id2: &[u8],
    seq2: &[u8],
    sp: &mut SeqPair,
    stats: &mut XformStats,
    out1: &mut String,
    out2: &mut String,
) -> (parsed: bool)
    requires
        old(geo_re).wf(),
        old(stats).wf(),
        old(stats).total_fragments < u64::MAX,
        ascii_bytes(id1@),
        ascii_bytes(id2@),
    ensures
        final(geo_re).wf(),
        final(geo_re).r1_cginfo == old(geo_re).r1_cginfo,
        final(geo_re).r2_cginfo == old(geo_re).r2_cginfo,
        final(geo_re).r1_re == old(geo_re).r1_re,
        final(geo_re).r2_re == old(geo_re).r2_re,
        parsed == (final(geo_re).read1_parsed(seq1@) && final(geo_re).read2_parsed(seq2@)),
        final(stats).wf(),
        final(stats).total_fragments == old(stats).total_fragments + 1,
        final(stats).failed_parsing == old(stats).failed_parsing + (if parsed {
            0int
        } else {
            1int
        }),
        parsed ==> final(out1)@ == old(out1)@ + fasta_record(id1@, final(geo_re).read1_output(seq1@))
            && final(out2)@ == old(out2)@ + fasta_record(id2@, final(geo_re).read2_output(seq2@)),
        !parsed ==> final(out1)@ == old(out1)@ && final(out2)@ == old(out2)@,
{
    let parsed = geo_re.parse_into(seq1, seq2, sp);
    stats.count_pair(parsed);
    if parsed {
        push_fasta_record(out1, id1, &sp.s1);
        push_fasta_record(out2, id2, &sp.s2);
    }
    parsed
}

} // verus!
