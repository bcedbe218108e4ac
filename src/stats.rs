//! Pass/fail accounting of a run over many read pairs, and its report.
use crate::text::{decimal, digit_char, push_char, push_decimal};
use thousands::Separable;
use vstd::prelude::*;
use vstd::string::*;

verus! {

/// Counts of a transformation run.
#[derive(Debug)]
pub struct XformStats {
    /// Read pairs seen.
    pub total_fragments: u64,
    /// Read pairs that did not parse.
    pub failed_parsing: u64,
}

/// Decimal digits with a comma between groups of three, counted from the right.
pub open spec fn comma_grouped(d: Seq<char>) -> Seq<char>
    decreases d.len(),
{
    if d.len() <= 3 {
        d
    } else {
        comma_grouped(d.subrange(0, d.len() - 3)) + seq![','] + d.subrange(d.len() - 3, d.len() as int)
    }
}

/// Relies on thousands::Separable::separate_with_commas on a `u64`: its
/// decimal digits with a comma inserted every three digits from the right.
#[verifier::external_body]
fn with_commas(n: u64) -> (r: String)
    ensures
        r@ == comma_grouped(decimal(n as nat)),
{
    n.separate_with_commas()
}

/// The share of read pairs that parsed, in hundredths of a percent, rounded
/// half up; a run without pairs counts as complete.
pub open spec fn success_hundredths(total: nat, failed: nat) -> nat {
    if total == 0 {
        10000
    } else {
        ((20000 * (total - failed) + total) / (2 * total as int)) as nat
    }
}

/// Hundredths of a percent written with two decimals, as `92.00`.
pub open spec fn percent_text(p: nat) -> Seq<char> {
    decimal(p / 100) + seq!['.', digit_char((p % 100) / 10), digit_char(p % 10)]
}

/// The report of a run.
pub open spec fn report_text(total: nat, failed: nat) -> Seq<char> {
    "XformStats { \n    total fragments: "@ + comma_grouped(decimal(total))
        + ",\n    fragments failing parsing: "@ + comma_grouped(decimal(failed))
        + ",\n    percentage successfully transformed fragments: "@ + percent_text(
        success_hundredths(total, failed),
    ) + ",\n}"@
}

impl XformStats {
    /// Failed pairs are among the pairs seen.
    pub open spec fn wf(&self) -> bool {
        self.failed_parsing <= self.total_fragments
    }

    /// Counts of a run that has seen nothing yet.
    pub fn new() -> (r: Self)
        ensures
            r.total_fragments == 0,
            r.failed_parsing == 0,
    {
        Self { total_fragments: 0u64, failed_parsing: 0u64 }
    }

    /// Counts one more read pair, which parsed or did not.
    pub fn count_pair(&mut self, parsed: bool)
        requires
            old(self).wf(),
            old(self).total_fragments < u64::MAX,
        ensures
            final(self).wf(),
            final(self).total_fragments == old(self).total_fragments + 1,
            final(self).failed_parsing == old(self).failed_parsing + (if parsed {
                0int
            } else {
                1int
            }),
    {
        self.total_fragments = self.total_fragments + 1;
        if !parsed {
            self.failed_parsing = self.failed_parsing + 1;
        }
    }

    /// The share of pairs that parsed, in hundredths of a percent.
    pub fn success_percentage_hundredths(&self) -> (r: u64)
        requires
            self.wf(),
        ensures
            r == success_hundredths(self.total_fragments as nat, self.failed_parsing as nat),
    {
        if self.total_fragments == 0 {
            10000
        } else {
            let t = self.total_fragments as u128;
            let f = self.failed_parsing as u128;
            assert(20000 * (t - f) + t <= 20001 * t) by (nonlinear_arith)
                requires
                    f <= t,
            ;
            let q = (20000 * (t - f) + t) / (2 * t);
            assert(q <= 10000) by (nonlinear_arith)
                requires
                    q == (20000 * (t - f) + t) / (2 * t),
                    f <= t,
                    t > 0,
            ;
            q as u64
        }
    }

    /// The report of the run: both counts with thousands separators, and the
    /// share of pairs that parsed as a percentage with two decimals.
    pub fn to_string(&self) -> (r: String)
        requires
            self.wf(),
        ensures
            r@ == report_text(self.total_fragments as nat, self.failed_parsing as nat),
    {
        let p = self.success_percentage_hundredths();
        let mut rep = String::new();
        rep.append("XformStats { \n    total fragments: ");
        rep.append(with_commas(self.total_fragments).as_str());
        rep.append(",\n    fragments failing parsing: ");
        rep.append(with_commas(self.failed_parsing).as_str());
        rep.append(",\n    percentage successfully transformed fragments: ");
        push_decimal(&mut rep, p / 100);
        push_char(&mut rep, '.');
        push_char(&mut rep, (((p % 100) / 10) as u8 + 48) as char);
        push_char(&mut rep, ((p % 10) as u8 + 48) as char);
        rep.append(",\n}");
        assert(rep@ =~= report_text(self.total_fragments as nat, self.failed_parsing as nat));
        rep
    }
}

impl Default for XformStats {
    fn default() -> (r: Self)
        ensures
            r.total_fragments == 0,
            r.failed_parsing == 0,
    {
        Self::new()
    }
}

} // verus!
