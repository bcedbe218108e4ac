//! The byte-pattern matcher of the regex crate, as far as the library uses it.
use regex::bytes::{CaptureLocations, Regex};
use vstd::prelude::*;

verus! {

#[verifier::external_type_specification]
#[verifier::external_body]
pub struct ExRegex(Regex);

#[verifier::external_type_specification]
#[verifier::external_body]
pub struct ExCaptureLocations(CaptureLocations);

#[verifier::external_type_specification]
#[verifier::external_body]
pub struct ExRegexError(regex::Error);

/// The pattern text that a `Regex` was compiled from, as `Regex::as_str`
/// returns it.
pub uninterp spec fn regex_pattern(re: Regex) -> Seq<char>;

/// Whether the regex crate compiles a pattern with its default options.
pub uninterp spec fn pattern_compiles(p: Seq<char>) -> bool;

/// The number of capture groups of a pattern compiled with the default
/// options, group 0 included.
pub uninterp spec fn pattern_groups(p: Seq<char>) -> nat;

/// The capture-group locations that a search of `text` with the regex of
/// pattern `p` finds, one slot per group.
pub uninterp spec fn pattern_search(p: Seq<char>, text: Seq<u8>) -> Seq<Option<(usize, usize)>>;

/// The number of capture groups of a regex, group 0 included.
pub uninterp spec fn regex_groups(re: Regex) -> nat;

/// The capture-group locations that a search of `text` with a regex finds,
/// one slot per group.
pub uninterp spec fn regex_search(re: Regex, text: Seq<u8>) -> Seq<Option<(usize, usize)>>;

/// The slots that a `CaptureLocations` holds, one per capture group of the
/// regex it was made for (group 0 being the whole match): the start and end
/// offset of the group in the last searched text, or `None` where the group
/// took no part in a match.
pub uninterp spec fn capture_slots(locs: CaptureLocations) -> Seq<Option<(usize, usize)>>;

/// Relies on regex::bytes::Regex::new: compiles a pattern with the default
/// options, or fails on one that is not valid or too large; the regex keeps
/// the pattern text, and has the groups and finds what that pattern has and
/// finds under the default options.
pub assume_specification[ Regex::new ](re: &str) -> (r: Result<Regex, regex::Error>)
    ensures
        r is Ok <==> pattern_compiles(re@),
        r matches Ok(x) ==> regex_pattern(x) == re@,
        r matches Ok(x) ==> regex_groups(x) == pattern_groups(re@),
        r matches Ok(x) ==> forall|t: Seq<u8>| #[trigger] regex_search(x, t) == pattern_search(re@, t),
;

/// Relies on regex::bytes::Regex::captures_len: the number of capture groups,
/// group 0 included.
pub assume_specification[ Regex::captures_len ](re: &Regex) -> (r: usize)
    ensures
        r == regex_groups(*re),
;

/// Relies on regex::bytes::Regex::capture_locations: one slot per capture
/// group of this regex.
pub assume_specification[ Regex::capture_locations ](re: &Regex) -> (r: CaptureLocations)
    ensures
        capture_slots(r).len() == regex_groups(*re),
;

/// Relies on regex::bytes::CaptureLocations::len: the number of groups,
/// always at least one.
pub assume_specification[ CaptureLocations::len ](locs: &CaptureLocations) -> (r: usize)
    ensures
        r == capture_slots(*locs).len(),
        r >= 1,
;

/// Relies on regex::bytes::CaptureLocations::get: the slot of group `i`, or
/// `None` for an index that is not a group.
pub assume_specification[ CaptureLocations::get ](locs: &CaptureLocations, i: usize) -> (r:
    Option<(usize, usize)>)
    ensures
        r == (if i < capture_slots(*locs).len() {
            capture_slots(*locs)[i as int]
        } else {
            None
        }),
;

/// Relies on regex::bytes::Regex::captures_read, given slots made for this
/// regex: searches `text`, rewrites every slot with what the search found,
/// and reports whether there was a match. Group 0 holds the match when there
/// is one; without a match no group is set; every set group is a span
/// `start <= end` within `text`.
#[verifier::external_body]
pub(crate) fn captures_read(re: &Regex, locs: &mut CaptureLocations, text: &[u8]) -> (found: bool)
    requires
        capture_slots(*old(locs)).len() == regex_groups(*re),
    ensures
        capture_slots(*final(locs)) == regex_search(*re, text@),
        capture_slots(*final(locs)).len() == capture_slots(*old(locs)).len(),
        found == (capture_slots(*final(locs))[0] is Some),
        !found ==> forall|i: int|
            0 <= i < capture_slots(*final(locs)).len() ==> capture_slots(*final(locs))[i] is None,
        forall|i: int|
            0 <= i < capture_slots(*final(locs)).len() && (capture_slots(*final(locs))[i] is Some)
                ==> {
                let (s, e) = capture_slots(*final(locs))[i]->0;
                s <= e <= text@.len()
            },
{
    re.captures_read(locs, text).is_some()
}

} // verus!
