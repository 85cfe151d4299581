//! The decisions of the lock action: which lock call it makes, what it
//! reports before and after, and what the call's answer makes of the run.

use vstd::prelude::*;

use crate::inputs::ActionInputs;
use crate::number::{decimal, push_decimal};

verus! {

/// How a run of the action ended.
#[derive(Debug, Clone, Copy, PartialEq, Eq, Structural)]
pub enum Outcome {
    Locked,
}

/// The lock call that a run makes.
#[derive(Debug)]
pub struct LockRequest {
    pub owner: String,
    pub repo: String,
    pub issue_number: u64,
    pub lock_reason: &'static str,
}

/// The lock call for the inputs in the repository `owner/repo`: the issue
/// that the inputs number, with the API name of their lock reason.
pub fn lock_request(inputs: &ActionInputs, owner: &str, repo: &str) -> (res: LockRequest)
    ensures
        res.owner@ == owner@,
        res.repo@ == repo@,
        res.issue_number == inputs.number,
        res.lock_reason@ == inputs.lock_reason.name(),
{
    LockRequest {
        owner: String::from_str(owner),
        repo: String::from_str(repo),
        issue_number: inputs.number,
        lock_reason: inputs.lock_reason.as_str(),
    }
}

/// The line reported before the lock call:
/// `Locking issue #{number} with reason '{reason}'`.
pub open spec fn start_message_spec(number: u64, reason: Seq<char>) -> Seq<char> {
    "Locking issue #"@ + decimal(number as nat) + " with reason '"@ + reason + "'"@
}

/// The start line names the issue number right after `Locking issue #` and
/// ends with the reason in single quotes.
pub proof fn lemma_start_message_parts(number: u64, reason: Seq<char>)
    ensures
        ({
            let m = start_message_spec(number, reason);
            let d = decimal(number as nat);
            &&& m.subrange(0, 15) == "Locking issue #"@
            &&& m.subrange(15, 15 + d.len() as int) == d
            &&& m.subrange(m.len() - reason.len() - 2, m.len() as int) == "'"@ + reason + "'"@
        }),
{
    reveal_strlit("Locking issue #");
    reveal_strlit(" with reason '");
    reveal_strlit("'");
    assert("Locking issue #"@.len() == 15);
    assert(" with reason '"@.len() == 14);
    assert("'"@.len() == 1);
    let m = start_message_spec(number, reason);
    let d = decimal(number as nat);
    assert(m.subrange(0, 15) =~= "Locking issue #"@);
    assert(m.subrange(15, 15 + d.len() as int) =~= d);
    assert(" with reason '"@[13] == '\'');
    assert(m.subrange(m.len() - reason.len() - 2, m.len() as int) =~= "'"@ + reason + "'"@);
}

/// The line reported before the lock call.
pub fn start_message(inputs: &ActionInputs) -> (res: String)
    ensures
        res@ == start_message_spec(inputs.number, inputs.lock_reason.name()),
{
    let mut msg = String::from_str("Locking issue #");
    push_decimal(&mut msg, inputs.number);
    msg.append(" with reason '");
    msg.append(inputs.lock_reason.as_str());
    msg.append("'");
    msg
}

/// The line reported once the issue is locked.
pub fn success_message() -> (res: &'static str)
    ensures
        res@ == "Issue locked successfully."@,
{
    "Issue locked successfully."
}

/// What the answer to the lock call makes of the run: locked when the call
/// succeeded, else the call's error, unchanged.
pub fn lock_outcome<E>(answer: Result<(), E>) -> (res: Result<Outcome, E>)
    ensures
        match answer {
            Ok(()) => res == Ok::<Outcome, E>(Outcome::Locked),
            Err(e) => res == Err::<Outcome, E>(e),
        },
{
    match answer {
        Ok(()) => Ok(Outcome::Locked),
        Err(e) => Err(e),
    }
}

} // verus!
