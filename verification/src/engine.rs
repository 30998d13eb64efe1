//! The trusted boundary to the CRDT engine and to the monotonic clock.
//!
//! Everything the core needs from outside — loading a snapshot, reading
//! the head frontier, walking change ancestors, checking out a version,
//! reading materialized text, and taking timestamps — crosses through the
//! declarations and wrappers in this module.  Verus believes the contracts
//! stated here; each doc comment names the outside function relied on.

use vstd::prelude::*;
use crate::timeline::{ChangeId, ChangeRun, runs_valid};

verus! {

#[verifier::external_type_specification]
#[verifier::external_body]
pub struct ExLoroDoc(loro::LoroDoc);

#[verifier::external_type_specification]
#[verifier::external_body]
pub struct ExLoroError(loro::LoroError);

#[verifier::external_type_specification]
#[verifier::external_body]
pub struct ExChangeTravelError(loro::ChangeTravelError);

#[verifier::external_type_specification]
#[verifier::external_body]
pub struct ExInstant(std::time::Instant);

/// Relies on std::time::Instant::now: an opaque reading of the monotonic
/// clock.  Nothing can be promised of a clock value.
pub assume_specification[ std::time::Instant::now ]() -> (r: std::time::Instant)
;

/// Relies on std::time::Instant::elapsed: the time passed since the
/// reading was taken.  The result depends on the clock, so nothing is
/// promised of it.
pub assume_specification[ std::time::Instant::elapsed ](this: &std::time::Instant) -> (r:
    std::time::Duration)
;

/// Relies on core::time::Duration::as_millis: the duration in whole
/// milliseconds.
pub assume_specification[ core::time::Duration::as_millis ](this: &core::time::Duration) -> (r:
    u128)
;

/// Relies on loro::LoroDoc::import: parses a serialized snapshot and loads
/// its history into the document, returning Err when the blob is malformed
/// or incompatible.
#[verifier::external_body]
pub(crate) fn doc_import(doc: &loro::LoroDoc, bytes: &[u8]) -> (r: Result<(), loro::LoroError>) {
    doc.import(bytes).map(|_| ())
}

/// Relies on loro::LoroDoc::state_frontiers and loro::Frontiers::to_vec:
/// the engine's head version marker, as the id of the newest operation on
/// each causal branch (empty for a document with no operations).
#[verifier::external_body]
pub(crate) fn doc_head_frontier(doc: &loro::LoroDoc) -> (r: Vec<ChangeId>) {
    doc.state_frontiers().to_vec().iter().map(
        |id| ChangeId { peer: id.peer, counter: id.counter },
    ).collect()
}

/// Relies on loro::LoroDoc::travel_change_ancestors: visits every change
/// reachable from the given ids exactly once, newest first, and returns
/// Err exactly when one of the ids is unknown to the document or lies
/// behind trimmed history.  Each visited change covers `len >= 1`
/// operations whose counters start at a non-negative value and stay within
/// the engine's 32-bit counter type, which is what `runs_valid` states.
#[verifier::external_body]
pub(crate) fn doc_travel_runs(doc: &loro::LoroDoc, head: &Vec<ChangeId>) -> (r: Result<
    Vec<ChangeRun>,
    loro::ChangeTravelError,
>)
    ensures
        r matches Ok(runs) ==> runs_valid(runs@),
        r matches Ok(runs) ==> forall|i: int| 0 <= i < runs@.len() ==> (#[trigger] runs@[i]).len
            >= 1,
{
    let ids: Vec<loro::ID> = head.iter().map(|c| loro::ID::new(c.peer, c.counter)).collect();
    let mut runs: Vec<ChangeRun> = Vec::new();
    let res = doc.travel_change_ancestors(
        &ids,
        &mut |meta: loro::ChangeMeta| {
            runs.push(ChangeRun { peer: meta.id.peer, counter: meta.id.counter, len: meta.len });
            std::ops::ControlFlow::Continue(())
        },
    );
    res.map(|_| runs)
}

/// Relies on loro::LoroDoc::checkout with loro::Frontiers::from_id:
/// materializes the document at the frontier holding exactly the given
/// operation id, returning Err when the engine rejects that frontier.
#[verifier::external_body]
pub(crate) fn doc_checkout_at(doc: &loro::LoroDoc, id: ChangeId) -> (r: Result<
    (),
    loro::LoroError,
>) {
    doc.checkout(&loro::Frontiers::from_id(loro::ID::new(id.peer, id.counter)))
}

/// Relies on loro::LoroDoc::checkout with loro::Frontiers::new: the empty
/// frontier, materializing the state before any operation was applied.
#[verifier::external_body]
pub(crate) fn doc_checkout_empty(doc: &loro::LoroDoc) -> (r: Result<(), loro::LoroError>) {
    doc.checkout(&loro::Frontiers::new())
}

/// Relies on loro::LoroDoc::try_get_text and loro::LoroText::to_string:
/// the materialized content of the named root text container at the
/// currently checked-out state, or None when no container of that name
/// exists (the engine reserves a namespace of special names whose root
/// containers are not created implicitly, so existence is not guaranteed
/// for every string).
#[verifier::external_body]
pub(crate) fn doc_text_content(doc: &loro::LoroDoc, name: &str) -> (r: Option<String>) {
    doc.try_get_text(name).map(|t| t.to_string())
}

/// Relies on the Display impl of loro::LoroError to carry the engine's
/// own error message along unchanged.
#[verifier::external_body]
pub(crate) fn loro_error_text(e: &loro::LoroError) -> (r: String) {
    format!("{}", e)
}

/// Relies on the Display impl of loro::ChangeTravelError to carry the
/// engine's own error message along unchanged.
#[verifier::external_body]
pub(crate) fn travel_error_text(e: &loro::ChangeTravelError) -> (r: String) {
    format!("{}", e)
}

} // verus!
