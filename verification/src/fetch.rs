//! The decision logic of the resolver.
//!
//! The network round trip itself happens outside the library; it hands in
//! the decoded response as plain values. [`resolve_entries`] turns the
//! response of one identifier lookup into a sequence or a failure, and
//! [`sample_step`] is the transition function of the rejection-sampling
//! loop: it decides, for one lookup outcome, whether to accept, redraw, or
//! stop with a fatal error.

use vstd::prelude::*;

use crate::error::FetchError;
use crate::keyword::Keyword;
use crate::oeis::decode_error_for;
use crate::oeis::decodes_to;
use crate::oeis::entry_ok;
use crate::oeis::OeisEntry;
use crate::oeis::OeisSequence;

verus! {

/// Upper bound on known sequence identifiers; random draws come from
/// `1..=MAX_SEQUENCE_ID`.
pub const MAX_SEQUENCE_ID: u64 = 380000;

/// The keyword tags whose presence has a randomly drawn sequence discarded.
pub fn rejected_keywords() -> (r: Vec<Keyword>)
    ensures
        r@ == seq![
            Keyword::Dead,
            Keyword::Dumb,
            Keyword::Dupe,
            Keyword::Less,
            Keyword::Obsc,
            Keyword::Probation,
            Keyword::Uned,
        ],
{
    let mut r: Vec<Keyword> = Vec::new();
    r.push(Keyword::Dead);
    r.push(Keyword::Dumb);
    r.push(Keyword::Dupe);
    r.push(Keyword::Less);
    r.push(Keyword::Obsc);
    r.push(Keyword::Probation);
    r.push(Keyword::Uned);
    proof {
        assert(r@ =~= seq![
            Keyword::Dead,
            Keyword::Dumb,
            Keyword::Dupe,
            Keyword::Less,
            Keyword::Obsc,
            Keyword::Probation,
            Keyword::Uned,
        ]);
    }
    r
}

/// Some tag occurs in both sequences.
pub open spec fn intersects(ks: Seq<Keyword>, ex: Seq<Keyword>) -> bool {
    exists|i: int, j: int| 0 <= i < ks.len() && 0 <= j < ex.len() && ks[i] == ex[j]
}

/// Whether some tag of `ks` is among `ex`.
pub fn keywords_intersect(ks: &Vec<Keyword>, ex: &Vec<Keyword>) -> (r: bool)
    ensures
        r == intersects(ks@, ex@),
{
    let mut i: usize = 0;
    while i < ks.len()
        invariant
            i <= ks@.len(),
            forall|a: int, b: int| 0 <= a < i && 0 <= b < ex@.len() ==> ks@[a] != ex@[b],
        decreases ks@.len() - i,
    {
        let mut j: usize = 0;
        while j < ex.len()
            invariant
                i < ks@.len(),
                j <= ex@.len(),
                forall|b: int| 0 <= b < j ==> ks@[i as int] != ex@[b],
            decreases ex@.len() - j,
        {
            if ks[i] == ex[j] {
                return true;
            }
            j += 1;
        }
        i += 1;
    }
    false
}

/// The pure part of one identifier lookup: the service's answer, already
/// decoded from JSON into wire records, becomes a sequence or a failure.
/// An empty answer is [`FetchError::NotFound`]; otherwise the first record
/// is decoded, and a decode failure surfaces as [`FetchError::Parse`].
pub fn resolve_entries(id: u64, entries: Vec<OeisEntry>) -> (r: Result<OeisSequence, FetchError>)
    ensures
        match r {
            Ok(q) => entries@.len() > 0 && entry_ok(entries@[0]) && decodes_to(entries@[0], q)
                && q.well_formed(),
            Err(FetchError::NotFound(i)) => i == id && entries@.len() == 0,
            Err(FetchError::Parse(od)) => entries@.len() > 0 && (od matches Some(d)
                && decode_error_for(entries@[0], d)),
            Err(_) => false,
        },
{
    let mut entries = entries;
    if entries.len() == 0 {
        return Err(FetchError::NotFound(id));
    }
    let e = entries.remove(0);
    match OeisSequence::from_entry(e) {
        Ok(q) => Ok(q),
        Err(d) => Err(FetchError::Parse(Some(d))),
    }
}

/// One step of the rejection-sampling loop.
#[derive(Debug)]
pub enum SampleStep {
    /// The lookup produced a present, non-excluded sequence: done.
    Accept(OeisSequence),
    /// The identifier is absent, or the sequence carries an excluded tag:
    /// draw a fresh identifier and try again.
    Retry,
    /// A transport or parse failure: fatal, never retried.
    Fail(FetchError),
}

/// The decision for one lookup outcome: a missing identifier or an
/// excluded tag means another draw; any other failure is fatal; everything
/// else is accepted.
pub open spec fn sample_decision(
    res: Result<OeisSequence, FetchError>,
    excluded: Seq<Keyword>,
) -> SampleStep {
    match res {
        Ok(q) => if intersects(q.keyword@, excluded) {
            SampleStep::Retry
        } else {
            SampleStep::Accept(q)
        },
        Err(FetchError::NotFound(_)) => SampleStep::Retry,
        Err(e) => SampleStep::Fail(e),
    }
}

/// Decide what the rejection-sampling loop does with one lookup outcome.
pub fn sample_step(res: Result<OeisSequence, FetchError>, excluded: &Vec<Keyword>) -> (r:
    SampleStep)
    ensures
        r == sample_decision(res, excluded@),
{
    match res {
        Ok(q) => {
            if keywords_intersect(&q.keyword, excluded) {
                SampleStep::Retry
            } else {
                SampleStep::Accept(q)
            }
        },
        Err(FetchError::NotFound(_)) => SampleStep::Retry,
        Err(e) => SampleStep::Fail(e),
    }
}

/// The sampling loop never accepts a sequence whose keyword set meets the
/// exclusion set: whatever the lookup outcome, an accepted sequence is free
/// of every excluded tag.
pub proof fn lemma_sample_respects_exclusion(
    res: Result<OeisSequence, FetchError>,
    excluded: Seq<Keyword>,
)
    ensures
        sample_decision(res, excluded) matches SampleStep::Accept(q) ==> !intersects(
            q.keyword@,
            excluded,
        ),
{
}

} // verus!
