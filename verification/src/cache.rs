//! The local cache of the address that was applied last: one line of text.

use vstd::prelude::*;
use crate::address::{is_dotted_quad, lemma_quad_is_trimmed, ResolvedAddress};
use crate::text::{is_space, lemma_trim_padded, trim, trimmed};

verus! {

/// What reading the cache file gave.
#[derive(Debug)]
pub enum CacheRead {
    /// No file stands at the configured path.
    Missing,
    /// The file's whole contents.
    Contents(String),
    /// The file is there and could not be read.
    Unreadable,
}

/// Whether cached `contents` make an update of `candidate` redundant: the
/// trimmed contents are the candidate's text and no update is forced.
pub open spec fn cache_agrees(contents: Seq<char>, candidate: Seq<char>, force_update: bool) -> bool {
    trim(contents) == candidate && !force_update
}

/// The line that the cache file holds for `candidate`.
pub open spec fn cache_line_of(candidate: Seq<char>) -> Seq<char> {
    candidate.push('\n')
}

/// Tells whether the run may stop because the cache already holds
/// `candidate`. Without cached contents it never may.
pub fn should_skip(cached: Option<&str>, candidate: &ResolvedAddress, force_update: bool) -> (skip:
    bool)
    ensures
        skip == match cached {
            Some(contents) => cache_agrees(contents@, candidate@, force_update),
            None => false,
        },
{
    match cached {
        Some(contents) => {
            let seen = String::from_str(trimmed(contents));
            let wanted = candidate.to_text();
            seen == wanted && !force_update
        },
        None => false,
    }
}

/// The text to store for `candidate`: its dotted quad and one line feed.
pub fn cache_line(candidate: &ResolvedAddress) -> (line: String)
    ensures
        line@ == cache_line_of(candidate@),
{
    let mut line = candidate.to_text();
    proof {
        reveal_strlit("\n");
        assert("\n"@ =~= seq!['\n']);
        assert(candidate@ + seq!['\n'] =~= candidate@.push('\n'));
    }
    line.append("\n");
    line
}

/// A stored line reads back, trimmed, as the address it was written for,
/// so an unforced run with the same address is skipped.
pub proof fn lemma_cache_round_trip(candidate: Seq<char>)
    requires
        is_dotted_quad(candidate),
    ensures
        trim(cache_line_of(candidate)) == candidate,
        cache_agrees(cache_line_of(candidate), candidate, false),
{
    lemma_quad_is_trimmed(candidate);
    let nl = seq!['\n'];
    assert(is_space('\n'));
    lemma_trim_padded(Seq::<char>::empty(), candidate, nl);
    assert(Seq::<char>::empty() + candidate + nl =~= cache_line_of(candidate));
}

} // verus!
