//! The lock call as GitHub and Gitea take it: the route it is sent to, how
//! its answer is judged, and how a failure is reported.

use vstd::prelude::*;

use crate::number::{
    decimal, lemma_parse_decimal_round_trip, push_decimal, spec_parse_u64, ParseNumberError,
};
use crate::text::same_chars;

verus! {

/// The service that hosts the repository.
#[derive(Debug, Clone, Copy, PartialEq, Eq, Structural)]
pub enum Forge {
    GitHub,
    Gitea,
}

/// Whether `s` ends with `suffix`.
pub open spec fn ends_with(s: Seq<char>, suffix: Seq<char>) -> bool {
    suffix.len() <= s.len() && s.subrange(s.len() - suffix.len(), s.len() as int) == suffix
}

/// Whether the string `s` ends with `suffix`.
pub fn str_ends_with(s: &str, suffix: &str) -> (res: bool)
    ensures
        res == ends_with(s@, suffix@),
{
    let n = s.unicode_len();
    let m = suffix.unicode_len();
    if m > n {
        return false;
    }
    same_chars(s.substring_char(n - m, n), suffix)
}

/// The forge the action talks to: Gitea when the runner says it is Gitea
/// Actions (`GITEA_ACTIONS` is `true`) or the API address ends in `/api/v1`,
/// GitHub otherwise.
pub open spec fn forge_spec(gitea_actions: Option<Seq<char>>, api_url: Seq<char>) -> Forge {
    if (gitea_actions matches Some(v) && v == "true"@) || ends_with(api_url, "/api/v1"@) {
        Forge::Gitea
    } else {
        Forge::GitHub
    }
}

/// Picks the forge from the runner's `GITEA_ACTIONS` setting, if any, and
/// the API address.
pub fn pick_forge(gitea_actions: Option<&str>, api_url: &str) -> (res: Forge)
    ensures
        (gitea_actions is Some && gitea_actions->0@ == "true"@) ==> res == Forge::Gitea,
        ends_with(api_url@, "/api/v1"@) ==> res == Forge::Gitea,
        (!(gitea_actions is Some && gitea_actions->0@ == "true"@) && !ends_with(
            api_url@,
            "/api/v1"@,
        )) ==> res == Forge::GitHub,
        res == forge_spec(
            match gitea_actions {
                Some(v) => Some(v@),
                None => None,
            },
            api_url@,
        ),
{
    let on_gitea_actions = match gitea_actions {
        Some(v) => same_chars(v, "true"),
        None => false,
    };
    if on_gitea_actions || str_ends_with(api_url, "/api/v1") {
        Forge::Gitea
    } else {
        Forge::GitHub
    }
}

/// The API address of github.com, which the client uses unless told
/// otherwise.
pub open spec fn default_api_url() -> Seq<char> {
    "https://api.github.com"@
}

/// Whether a GitHub client for `base_url` has to be pointed at it, rather
/// than at github.com, which it talks to by default.
pub fn uses_custom_base_uri(base_url: &str) -> (res: bool)
    ensures
        res == (base_url@ != default_api_url()),
        res == (base_url@ != "https://api.github.com"@),
{
    !same_chars(base_url, "https://api.github.com")
}

/// The path of the lock endpoint for an issue:
/// `/repos/{owner}/{repo}/issues/{issue_number}/lock`.
pub open spec fn lock_route_spec(owner: Seq<char>, repo: Seq<char>, issue_number: u64) -> Seq<
    char,
> {
    "/repos/"@ + owner + "/"@ + repo + "/issues/"@ + decimal(issue_number as nat) + "/lock"@
}

/// The path of the lock endpoint for the issue `issue_number` of `owner/repo`.
pub fn lock_route(owner: &str, repo: &str, issue_number: u64) -> (res: String)
    ensures
        res@ == lock_route_spec(owner@, repo@, issue_number),
        res@.subrange(0, 7) == "/repos/"@,
        res@.subrange(7, 7 + owner@.len() as int) == owner@,
        res@[7 + owner@.len() as int] == '/',
        res@.subrange(8 + owner@.len() as int, 8 + owner@.len() + repo@.len() as int) == repo@,
{
    let mut route = String::from_str("/repos/");
    route.append(owner);
    route.append("/");
    route.append(repo);
    route.append("/issues/");
    push_decimal(&mut route, issue_number);
    route.append("/lock");
    proof {
        lemma_lock_route_parts(owner@, repo@, issue_number);
    }
    route
}

/// The route is `/repos/`, the owner, `/`, the repository as given,
/// `/issues/`, the issue number in decimal (which reads back as the number)
/// and `/lock`.
pub proof fn lemma_lock_route_parts(owner: Seq<char>, repo: Seq<char>, issue_number: u64)
    ensures
        ({
            let r = lock_route_spec(owner, repo, issue_number);
            let o = owner.len() as int;
            let p = repo.len() as int;
            let d = decimal(issue_number as nat);
            &&& r.subrange(0, 7) == "/repos/"@
            &&& r.subrange(7, 7 + o) == owner
            &&& r[7 + o] == '/'
            &&& r.subrange(8 + o, 8 + o + p) == repo
            &&& r.subrange(8 + o + p, 16 + o + p) == "/issues/"@
            &&& r.subrange(16 + o + p, 16 + o + p + d.len()) == d
            &&& spec_parse_u64(r.subrange(16 + o + p, 16 + o + p + d.len())) == Ok::<
                u64,
                ParseNumberError,
            >(issue_number)
            &&& r.subrange(16 + o + p + d.len(), r.len() as int) == "/lock"@
            &&& r.len() == 21 + o + p + d.len()
        }),
{
    reveal_strlit("/repos/");
    reveal_strlit("/");
    reveal_strlit("/issues/");
    reveal_strlit("/lock");
    let r = lock_route_spec(owner, repo, issue_number);
    let o = owner.len() as int;
    let p = repo.len() as int;
    let d = decimal(issue_number as nat);
    assert("/repos/"@.len() == 7);
    assert("/"@.len() == 1);
    assert("/issues/"@.len() == 8);
    assert("/lock"@.len() == 5);
    assert(r.subrange(0, 7) =~= "/repos/"@);
    assert(r.subrange(7, 7 + o) =~= owner);
    assert(r.subrange(8 + o, 8 + o + p) =~= repo);
    assert(r.subrange(8 + o + p, 16 + o + p) =~= "/issues/"@);
    assert(r.subrange(16 + o + p, 16 + o + p + d.len()) =~= d);
    assert(r.subrange(16 + o + p + d.len(), r.len() as int) =~= "/lock"@);
    lemma_parse_decimal_round_trip(issue_number);
}

/// Success is the 2xx class and nothing else: every status from 200 to 299
/// is a success, every other one (all 1xx, 3xx, 4xx and 5xx) is not.
pub proof fn lemma_success_is_2xx(code: u16)
    ensures
        is_success_code(code) <==> (200 <= code && code <= 299),
        400 <= code && code <= 499 ==> !is_success_code(code),
        500 <= code ==> !is_success_code(code),
{
}

/// Each signal picks Gitea alone: `GITEA_ACTIONS=true` whatever the API
/// address, an address ending in `/api/v1` whatever `GITEA_ACTIONS` says;
/// with neither, GitHub.
pub proof fn lemma_gitea_signals(gitea_actions: Option<Seq<char>>, api_url: Seq<char>)
    ensures
        forge_spec(Some("true"@), api_url) == Forge::Gitea,
        (api_url.len() >= 7 && api_url.subrange(api_url.len() - 7, api_url.len() as int)
            == "/api/v1"@) ==> forge_spec(gitea_actions, api_url) == Forge::Gitea,
        forge_spec(gitea_actions, api_url) == Forge::Gitea ==> (gitea_actions == Some("true"@)
            || (api_url.len() >= 7 && api_url.subrange(api_url.len() - 7, api_url.len() as int)
            == "/api/v1"@)),
{
    reveal_strlit("/api/v1");
    assert("/api/v1"@.len() == 7);
}

/// Whether an HTTP status code reports success (the 2xx class).
pub open spec fn is_success_code(code: u16) -> bool {
    200 <= code && code <= 299
}

/// Whether the HTTP status `code` reports success.
pub fn is_success_status(code: u16) -> (res: bool)
    ensures
        res == is_success_code(code),
        res == (200 <= code && code <= 299),
{
    200 <= code && code <= 299
}

/// How a failed lock call names what it tried: the issue, on Gitea also the
/// request, and the reason.
pub open spec fn lock_attempt_text(
    forge: Forge,
    issue_number: u64,
    route: Seq<char>,
    lock_reason: Seq<char>,
) -> Seq<char> {
    match forge {
        Forge::GitHub => "issue #"@ + decimal(issue_number as nat) + " with reason '"@ + lock_reason
            + "'"@,
        Forge::Gitea => "issue #"@ + decimal(issue_number as nat) + " (PUT "@ + route
            + ") with reason '"@ + lock_reason + "'"@,
    }
}

/// The message for a lock call that could not be sent or answered.
pub open spec fn send_failure_spec(
    forge: Forge,
    issue_number: u64,
    route: Seq<char>,
    lock_reason: Seq<char>,
) -> Seq<char> {
    match forge {
        Forge::GitHub => "failed to lock "@ + lock_attempt_text(
            forge,
            issue_number,
            route,
            lock_reason,
        ),
        Forge::Gitea => "failed to send lock for "@ + lock_attempt_text(
            forge,
            issue_number,
            route,
            lock_reason,
        ),
    }
}

/// The message for a lock call answered with a status that is no success.
pub open spec fn status_failure_spec(
    forge: Forge,
    issue_number: u64,
    route: Seq<char>,
    lock_reason: Seq<char>,
    status: Seq<char>,
) -> Seq<char> {
    "failed to lock "@ + lock_attempt_text(forge, issue_number, route, lock_reason)
        + ": unexpected status "@ + status
}

/// A status failure names the issue first and the status last:
/// `failed to lock issue #{number}...: unexpected status {status}`, and on
/// Gitea it holds the request `(PUT {route})` right after the number.
pub proof fn lemma_status_failure_parts(
    forge: Forge,
    issue_number: u64,
    route: Seq<char>,
    lock_reason: Seq<char>,
    status: Seq<char>,
)
    ensures
        ({
            let m = status_failure_spec(forge, issue_number, route, lock_reason, status);
            let d = decimal(issue_number as nat);
            let tail = ": unexpected status "@ + status;
            &&& m.subrange(0, 22) == "failed to lock issue #"@
            &&& m.subrange(22, 22 + d.len() as int) == d
            &&& m.subrange(m.len() - tail.len(), m.len() as int) == tail
            &&& forge == Forge::Gitea ==> m.subrange(22 + d.len() as int, 28 + d.len() + route.len() as int)
                == " (PUT "@ + route
        }),
{
    reveal_strlit("failed to lock ");
    reveal_strlit("issue #");
    reveal_strlit("failed to lock issue #");
    reveal_strlit(" (PUT ");
    assert("failed to lock "@.len() == 15);
    assert("issue #"@.len() == 7);
    assert("failed to lock issue #"@.len() == 22);
    assert(" (PUT "@.len() == 6);
    let m = status_failure_spec(forge, issue_number, route, lock_reason, status);
    let d = decimal(issue_number as nat);
    let tail = ": unexpected status "@ + status;
    let a = lock_attempt_text(forge, issue_number, route, lock_reason);
    assert(m =~= "failed to lock "@ + a + tail);
    assert("failed to lock "@ + "issue #"@ =~= "failed to lock issue #"@);
    assert(m.subrange(0, 22) =~= "failed to lock issue #"@);
    assert(m.subrange(22, 22 + d.len() as int) =~= d);
    assert(m.subrange(m.len() - tail.len(), m.len() as int) =~= tail);
    if forge == Forge::Gitea {
        assert(m.subrange(22 + d.len() as int, 28 + d.len() + route.len() as int) =~= " (PUT "@ + route);
    }
}

fn append_lock_attempt(
    msg: &mut String,
    forge: Forge,
    issue_number: u64,
    route: &str,
    lock_reason: &str,
)
    ensures
        final(msg)@ == old(msg)@ + lock_attempt_text(forge, issue_number, route@, lock_reason@),
{
    let ghost start = msg@;
    msg.append("issue #");
    push_decimal(msg, issue_number);
    match forge {
        Forge::GitHub => {
            msg.append(" with reason '");
        },
        Forge::Gitea => {
            msg.append(" (PUT ");
            msg.append(route);
            msg.append(") with reason '");
        },
    }
    msg.append(lock_reason);
    msg.append("'");
    assert(msg@ =~= start + lock_attempt_text(forge, issue_number, route@, lock_reason@));
}

/// The message for a lock call of the issue `issue_number` with
/// `lock_reason`, sent to `route`, that could not be sent or answered.
pub fn send_failure_message(forge: Forge, issue_number: u64, route: &str, lock_reason: &str) -> (res:
    String)
    ensures
        res@ == send_failure_spec(forge, issue_number, route@, lock_reason@),
{
    let mut msg = match forge {
        Forge::GitHub => String::from_str("failed to lock "),
        Forge::Gitea => String::from_str("failed to send lock for "),
    };
    append_lock_attempt(&mut msg, forge, issue_number, route, lock_reason);
    msg
}

/// Judges the answer to a lock call by its status: success for a 2xx
/// status, else the message that reports the call and the status, written
/// out as `status_text`.
pub fn check_lock_status(
    forge: Forge,
    issue_number: u64,
    route: &str,
    lock_reason: &str,
    status_code: u16,
    status_text: &str,
) -> (res: Result<(), String>)
    ensures
        res is Ok <==> is_success_code(status_code),
        res is Ok <==> (200 <= status_code && status_code <= 299),
        res matches Err(msg) ==> msg@ == status_failure_spec(
            forge,
            issue_number,
            route@,
            lock_reason@,
            status_text@,
        ),
{
    if is_success_status(status_code) {
        Ok(())
    } else {
        let mut msg = String::from_str("failed to lock ");
        append_lock_attempt(&mut msg, forge, issue_number, route, lock_reason);
        msg.append(": unexpected status ");
        msg.append(status_text);
        Err(msg)
    }
}

} // verus!
