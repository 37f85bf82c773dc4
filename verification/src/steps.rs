//! Steps that the outside world performs: tried or not, and with which outcome.
use vstd::prelude::*;

verus! {

/// The outcome of a step, once it was tried: its result, or what is told of the failure.
pub type Outcome<T> = Option<Result<T, String>>;

/// Whether a step was tried and succeeded.
pub open spec fn done<T>(outcome: Outcome<T>) -> bool {
    match outcome {
        Some(Ok(_)) => true,
        _ => false,
    }
}

/// What is told of a step that failed.
pub open spec fn failure<T>(outcome: Outcome<T>) -> Option<Seq<char>> {
    match outcome {
        Some(Err(told)) => Some(told@),
        _ => None,
    }
}

/// Whether a question was asked and got this answer.
pub open spec fn said(outcome: Outcome<bool>, answer: bool) -> bool {
    match outcome {
        Some(Ok(given)) => given == answer,
        _ => false,
    }
}

/// A failure with what it is introduced by.
pub open spec fn explained(label: Seq<char>, told: Seq<char>) -> Seq<char> {
    label + ": "@ + told
}

/// A failure with what it is introduced by.
pub fn explain(label: &str, told: &str) -> (full: String)
    ensures
        full@ == explained(label@, told@),
{
    label.to_owned().concat(": ").concat(told)
}

// Laws

/// A step succeeded, failed, or was not tried yet; of a question that was answered, one of the two
/// answers was given.
pub proof fn lemma_outcomes(outcome: Outcome<bool>)
    ensures
        done(outcome) <==> outcome is Some && outcome->0 is Ok,
        failure(outcome) is Some <==> outcome is Some && outcome->0 is Err,
        failure(outcome) is Some ==> failure(outcome)->0 == outcome->0->Err_0@,
        said(outcome, true) <==> outcome is Some && outcome->0 is Ok && outcome->0->Ok_0,
        said(outcome, false) <==> outcome is Some && outcome->0 is Ok && !outcome->0->Ok_0,
{
}

/// A failure that is introduced names what was tried, and ends with what was told.
pub proof fn lemma_explained(label: Seq<char>, told: Seq<char>)
    ensures
        explained(label, told) == label + ": "@ + told,
        explained(label, told).take(label.len() as int) == label,
        explained(label, told).skip(label.len() as int + 2) == told,
{
    reveal_strlit(": ");
    assert(explained(label, told).take(label.len() as int) =~= label);
    assert(explained(label, told).skip(label.len() as int + 2) =~= told);
}

} // verus!
