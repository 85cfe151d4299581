//! The action's inputs: where their values come from, how they are named in
//! the environment, and how they are checked and turned into typed values.

use vstd::prelude::*;

use crate::number::{
    decimal, is_digit, lemma_decimal_is_digits, lemma_parse_decimal_round_trip, parse_u64,
    spec_parse_u64, ParseNumberError,
};
use crate::text::{
    is_white_space, lemma_trimmed_padded, replace_spaces, same_chars, spaces_to_underscores,
    to_uppercase, trim, trimmed, uppercase_of,
};

verus! {

/// The environment variable that holds the input `name`: `INPUT_` followed by
/// the name with spaces turned into underscores, in upper case.
pub open spec fn env_name_of(name: Seq<char>) -> Seq<char> {
    "INPUT_"@ + uppercase_of(spaces_to_underscores(name))
}

/// The environment variable name for an input whose name, already in upper
/// case, is `upper`.
pub fn env_name_from_upper(upper: &str) -> (res: String)
    ensures
        res@ == "INPUT_"@ + upper@,
{
    let mut res = String::from_str("INPUT_");
    res.append(upper);
    res
}

/// The environment variable through which the runner hands over the input
/// `name`.
pub fn input_env_name(name: &str) -> (res: String)
    ensures
        res@ == env_name_of(name@),
{
    let replaced = replace_spaces(name);
    let upper = to_uppercase(replaced.as_str());
    env_name_from_upper(upper.as_str())
}

/// The names of the inputs that the action reads: `github-token`, `number`
/// and `lock-reason`.
pub fn input_names() -> (res: Vec<&'static str>)
    ensures
        res@.len() == 3,
        res@[0]@ == "github-token"@,
        res@[1]@ == "number"@,
        res@[2]@ == "lock-reason"@,
{
    let mut names: Vec<&'static str> = Vec::new();
    names.push("github-token");
    names.push("number");
    names.push("lock-reason");
    names
}

/// A place that input values are read from.
pub trait InputSource {
    /// The value that the source holds for the input `name`, if any.
    spec fn value_of(&self, name: Seq<char>) -> Option<Seq<char>>;

    /// The value of the input `name`, if the source has one.
    fn get(&self, name: &str) -> (res: Option<String>)
        ensures
            res.deep_view() == self.value_of(name@),
    ;
}

/// The map that a list of (name, value) pairs describes: each name maps to
/// the value of the last pair that carries it.
pub open spec fn pairs_map(pairs: Seq<(String, String)>) -> Map<Seq<char>, Seq<char>>
    decreases pairs.len(),
{
    if pairs.len() == 0 {
        Map::empty()
    } else {
        pairs_map(pairs.drop_last()).insert(pairs.last().0@, pairs.last().1@)
    }
}

/// A name that no pair carries is absent from the map that the pairs describe.
pub proof fn lemma_pairs_map_absent(pairs: Seq<(String, String)>, name: Seq<char>)
    requires
        forall|j: int| 0 <= j < pairs.len() ==> (#[trigger] pairs[j]).0@ != name,
    ensures
        pairs_map(pairs).get(name) == None::<Seq<char>>,
    decreases pairs.len(),
{
    if pairs.len() > 0 {
        let init = pairs.drop_last();
        assert forall|j: int| 0 <= j < init.len() implies (#[trigger] init[j]).0@ != name by {
            assert(init[j] == pairs[j]);
        }
        lemma_pairs_map_absent(init, name);
        assert(pairs.last() == pairs[pairs.len() - 1]);
    }
}

/// A name maps to the value of the last pair that carries it.
pub proof fn lemma_pairs_map_last_wins(pairs: Seq<(String, String)>, i: int)
    requires
        0 <= i < pairs.len(),
        forall|j: int| i < j < pairs.len() ==> (#[trigger] pairs[j]).0@ != pairs[i].0@,
    ensures
        pairs_map(pairs).get(pairs[i].0@) == Some(pairs[i].1@),
    decreases pairs.len(),
{
    let init = pairs.drop_last();
    if i < pairs.len() - 1 {
        assert forall|j: int| i < j < init.len() implies (#[trigger] init[j]).0@ != init[i].0@ by {
            assert(init[j] == pairs[j]);
        }
        lemma_pairs_map_last_wins(init, i);
        assert(pairs.last() == pairs[pairs.len() - 1]);
    }
}

/// Input values held in memory.
#[derive(Debug, Clone)]
pub struct MapSource {
    entries: Vec<(String, String)>,
}

impl View for MapSource {
    type V = Map<Seq<char>, Seq<char>>;

    closed spec fn view(&self) -> Map<Seq<char>, Seq<char>> {
        pairs_map(self.entries@)
    }
}

impl MapSource {
    /// A source holding the given (name, value) pairs; where a name occurs
    /// more than once, the last value counts.
    pub fn new(pairs: Vec<(String, String)>) -> (res: MapSource)
        ensures
            res@ == pairs_map(pairs@),
    {
        MapSource { entries: pairs }
    }
}

impl Default for MapSource {
    /// A source without any value.
    fn default() -> (res: MapSource)
        ensures
            res@ == Map::<Seq<char>, Seq<char>>::empty(),
    {
        MapSource { entries: Vec::new() }
    }
}

impl InputSource for MapSource {
    open spec fn value_of(&self, name: Seq<char>) -> Option<Seq<char>> {
        self@.get(name)
    }

    fn get(&self, name: &str) -> (res: Option<String>) {
        let n = self.entries.len();
        let mut i: usize = n;
        assert(self.entries@.subrange(0, n as int) =~= self.entries@);
        while i > 0
            invariant
                n == self.entries@.len(),
                i <= n,
                pairs_map(self.entries@).get(name@) == pairs_map(
                    self.entries@.subrange(0, i as int),
                ).get(name@),
            decreases i,
        {
            let ghost prefix = self.entries@.subrange(0, i as int);
            assert(prefix.drop_last() =~= self.entries@.subrange(0, i - 1));
            let entry = &self.entries[i - 1];
            if same_chars(entry.0.as_str(), name) {
                return Some(entry.1.clone());
            }
            i = i - 1;
        }
        None
    }
}

/// The valid lock reasons accepted by the GitHub API.
#[derive(Debug, Clone, Copy, PartialEq, Eq, Structural)]
pub enum LockReason {
    OffTopic,
    TooHeated,
    Resolved,
    Spam,
}

impl LockReason {
    /// The name under which the API knows the reason.
    pub open spec fn name(self) -> Seq<char> {
        match self {
            LockReason::OffTopic => "off-topic"@,
            LockReason::TooHeated => "too heated"@,
            LockReason::Resolved => "resolved"@,
            LockReason::Spam => "spam"@,
        }
    }

    /// The reason whose name is `s`, if there is one.
    pub open spec fn from_name(s: Seq<char>) -> Option<LockReason> {
        if s == "off-topic"@ {
            Some(LockReason::OffTopic)
        } else if s == "too heated"@ {
            Some(LockReason::TooHeated)
        } else if s == "resolved"@ {
            Some(LockReason::Resolved)
        } else if s == "spam"@ {
            Some(LockReason::Spam)
        } else {
            None
        }
    }

    /// The reason named `s`; any other string is refused.
    pub fn parse(s: &str) -> (res: Result<LockReason, InputError>)
        ensures
            match res {
                Ok(r) => LockReason::from_name(s@) == Some(r),
                Err(e) => LockReason::from_name(s@).is_none() && e@ == InputErrorView::InvalidLockReason(
                    s@,
                ),
            },
    {
        if same_chars(s, "off-topic") {
            Ok(LockReason::OffTopic)
        } else if same_chars(s, "too heated") {
            Ok(LockReason::TooHeated)
        } else if same_chars(s, "resolved") {
            Ok(LockReason::Resolved)
        } else if same_chars(s, "spam") {
            Ok(LockReason::Spam)
        } else {
            Err(InputError::InvalidLockReason { value: String::from_str(s) })
        }
    }

    /// The name under which the API knows the reason.
    pub fn as_str(&self) -> (res: &'static str)
        ensures
            res@ == self.name(),
    {
        match self {
            LockReason::OffTopic => "off-topic",
            LockReason::TooHeated => "too heated",
            LockReason::Resolved => "resolved",
            LockReason::Spam => "spam",
        }
    }
}

/// Every lock reason is read back from its own name.
pub proof fn lemma_lock_reason_name_round_trip(r: LockReason)
    ensures
        LockReason::from_name(r.name()) == Some(r),
{
    reveal_strlit("off-topic");
    reveal_strlit("too heated");
    reveal_strlit("resolved");
    reveal_strlit("spam");
    assert("off-topic"@.len() == 9);
    assert("too heated"@.len() == 10);
    assert("resolved"@.len() == 8);
    assert("spam"@.len() == 4);
}

/// A string is read as a lock reason only when it is that reason's name.
pub proof fn lemma_lock_reason_names_only(s: Seq<char>, r: LockReason)
    requires
        LockReason::from_name(s) == Some(r),
    ensures
        r.name() == s,
{
    reveal_strlit("off-topic");
    reveal_strlit("too heated");
    reveal_strlit("resolved");
    reveal_strlit("spam");
    assert("off-topic"@.len() == 9);
    assert("too heated"@.len() == 10);
    assert("resolved"@.len() == 8);
    assert("spam"@.len() == 4);
}

/// Why the inputs could not be read.
#[derive(Debug)]
pub enum InputError {
    /// A required input is absent or empty.
    Missing { name: String },
    /// The `number` input is not an unsigned 64-bit integer.
    InvalidNumber { kind: ParseNumberError },
    /// The `lock-reason` input names no lock reason.
    InvalidLockReason { value: String },
}

/// An `InputError` with its strings taken as character sequences.
pub enum InputErrorView {
    Missing(Seq<char>),
    InvalidNumber(ParseNumberError),
    InvalidLockReason(Seq<char>),
}

impl View for InputError {
    type V = InputErrorView;

    open spec fn view(&self) -> InputErrorView {
        match self {
            InputError::Missing { name } => InputErrorView::Missing(name@),
            InputError::InvalidNumber { kind } => InputErrorView::InvalidNumber(*kind),
            InputError::InvalidLockReason { value } => InputErrorView::InvalidLockReason(value@),
        }
    }
}

impl InputErrorView {
    /// The message that reports the error.
    pub open spec fn message(self) -> Seq<char> {
        match self {
            InputErrorView::Missing(name) => "Input required and not supplied: "@ + name,
            InputErrorView::InvalidNumber(kind) => "Input 'number' must be a positive integer: "@
                + kind.text(),
            InputErrorView::InvalidLockReason(value) => "invalid lock-reason '"@ + value
                + "': expected one of off-topic, too heated, resolved, spam"@,
        }
    }
}

impl InputError {
    /// The message that reports the error.
    pub fn message(&self) -> (res: String)
        ensures
            res@ == self@.message(),
    {
        match self {
            InputError::Missing { name } => {
                let mut m = String::from_str("Input required and not supplied: ");
                m.append(name.as_str());
                m
            },
            InputError::InvalidNumber { kind } => {
                let mut m = String::from_str("Input 'number' must be a positive integer: ");
                m.append(kind.description());
                m
            },
            InputError::InvalidLockReason { value } => {
                let mut m = String::from_str("invalid lock-reason '");
                m.append(value.as_str());
                m.append("': expected one of off-topic, too heated, resolved, spam");
                m
            },
        }
    }
}

/// The value of a required input: present and not empty.
pub open spec fn required_spec(name: Seq<char>, value: Option<Seq<char>>) -> Result<
    Seq<char>,
    InputErrorView,
> {
    match value {
        Some(v) => if v.len() > 0 {
            Ok(v)
        } else {
            Err(InputErrorView::Missing(name))
        },
        None => Err(InputErrorView::Missing(name)),
    }
}

/// The value of an optional input: the default where it is absent or empty.
pub open spec fn optional_spec(value: Option<Seq<char>>, default: Seq<char>) -> Seq<char> {
    match value {
        Some(v) => if v.len() > 0 {
            v
        } else {
            default
        },
        None => default,
    }
}

/// A `Result` of a string or an input error, with its strings taken as
/// character sequences.
pub open spec fn string_result_view(r: Result<String, InputError>) -> Result<
    Seq<char>,
    InputErrorView,
> {
    match r {
        Ok(s) => Ok(s@),
        Err(e) => Err(e@),
    }
}

/// Checks the value found for the required input `name`.
pub fn required_value(name: &str, value: Option<String>) -> (res: Result<String, InputError>)
    ensures
        string_result_view(res) == required_spec(name@, value.deep_view()),
        (value is Some && value->0@.len() > 0) ==> (res is Ok && res->Ok_0@ == value->0@),
        (value is None || value->0@.len() == 0) ==> (res is Err && res->Err_0@
            == InputErrorView::Missing(name@)),
{
    match value {
        Some(v) => {
            if v.as_str().unicode_len() == 0 {
                Err(InputError::Missing { name: String::from_str(name) })
            } else {
                Ok(v)
            }
        },
        None => Err(InputError::Missing { name: String::from_str(name) }),
    }
}

/// The value found for an optional input, or `default` where there is none
/// or it is empty.
pub fn optional_value(value: Option<String>, default: &str) -> (res: String)
    ensures
        res@ == optional_spec(value.deep_view(), default@),
        (value is Some && value->0@.len() > 0) ==> res@ == value->0@,
        (value is None || value->0@.len() == 0) ==> res@ == default@,
{
    match value {
        Some(v) => {
            if v.as_str().unicode_len() == 0 {
                String::from_str(default)
            } else {
                v
            }
        },
        None => String::from_str(default),
    }
}

/// Reads the required input `name` from `src`.
pub fn required<S: InputSource>(src: &S, name: &str) -> (res: Result<String, InputError>)
    ensures
        string_result_view(res) == required_spec(name@, src.value_of(name@)),
{
    let value = src.get(name);
    required_value(name, value)
}

/// Reads the optional input `name` from `src`, with `default` in place of a
/// missing or empty value.
pub fn optional<S: InputSource>(src: &S, name: &str, default: &str) -> (res: String)
    ensures
        res@ == optional_spec(src.value_of(name@), default@),
{
    let value = src.get(name);
    optional_value(value, default)
}

/// The number carried by the `number` input: its value, trimmed of white
/// space, parsed as an unsigned 64-bit integer.
pub open spec fn number_spec(raw: Seq<char>) -> Result<u64, InputErrorView> {
    match spec_parse_u64(trimmed(raw)) {
        Ok(n) => Ok(n),
        Err(kind) => Err(InputErrorView::InvalidNumber(kind)),
    }
}

/// Parses the value of the `number` input.
pub fn parse_number_input(raw: &str) -> (res: Result<u64, InputError>)
    ensures
        match res {
            Ok(n) => number_spec(raw@) == Ok::<u64, InputErrorView>(n),
            Err(e) => number_spec(raw@) == Err::<u64, InputErrorView>(e@),
        },
{
    match parse_u64(trim(raw)) {
        Ok(n) => Ok(n),
        Err(kind) => Err(InputError::InvalidNumber { kind }),
    }
}

/// Strongly typed inputs to the action.
#[derive(Debug, Clone)]
pub struct ActionInputs {
    pub github_token: String,
    pub number: u64,
    pub lock_reason: LockReason,
}

/// `ActionInputs` with the token taken as a character sequence.
pub struct InputsView {
    pub github_token: Seq<char>,
    pub number: u64,
    pub lock_reason: LockReason,
}

impl View for ActionInputs {
    type V = InputsView;

    open spec fn view(&self) -> InputsView {
        InputsView {
            github_token: self.github_token@,
            number: self.number,
            lock_reason: self.lock_reason,
        }
    }
}

/// What reading the inputs gives, from the values found for `github-token`,
/// `number` and `lock-reason`: the first failing check, in that order, or the
/// typed inputs, with `resolved` as the reason where none is given.
pub open spec fn inputs_spec(
    token: Option<Seq<char>>,
    number: Option<Seq<char>>,
    reason: Option<Seq<char>>,
) -> Result<InputsView, InputErrorView> {
    match required_spec("github-token"@, token) {
        Err(e) => Err(e),
        Ok(t) => match required_spec("number"@, number) {
            Err(e) => Err(e),
            Ok(raw) => match number_spec(raw) {
                Err(e) => Err(e),
                Ok(n) => {
                    let r = optional_spec(reason, "resolved"@);
                    match LockReason::from_name(r) {
                        Some(lock_reason) => Ok(
                            InputsView { github_token: t, number: n, lock_reason: lock_reason },
                        ),
                        None => Err(InputErrorView::InvalidLockReason(r)),
                    }
                },
            },
        },
    }
}

/// The lock reason defaults to `resolved`: leaving it out, giving it empty
/// and giving `resolved` read the same.
pub proof fn lemma_lock_reason_defaults_to_resolved(
    token: Option<Seq<char>>,
    number: Option<Seq<char>>,
)
    ensures
        inputs_spec(token, number, None) == inputs_spec(token, number, Some(Seq::<char>::empty())),
        inputs_spec(token, number, None) == inputs_spec(token, number, Some("resolved"@)),
{
    reveal_strlit("resolved");
    assert("resolved"@.len() == 8);
}

/// The token and the number are required, in that order: a missing or
/// empty token is reported whatever else is given, and so is a missing or
/// empty number once there is a token.
pub proof fn lemma_required_inputs_reported(
    token: Option<Seq<char>>,
    number: Option<Seq<char>>,
    reason: Option<Seq<char>>,
)
    ensures
        (token is None || token->0.len() == 0) ==> inputs_spec(token, number, reason) == Err::<
            InputsView,
            InputErrorView,
        >(InputErrorView::Missing("github-token"@)),
        (token matches Some(t) && t.len() > 0 && (number is None || number->0.len() == 0))
            ==> inputs_spec(token, number, reason) == Err::<InputsView, InputErrorView>(
            InputErrorView::Missing("number"@),
        ),
{
}

/// Accepted inputs hold the token as given, the number as written, and the
/// reason whose name was given (or `resolved`).
pub proof fn lemma_accepted_inputs(
    token: Option<Seq<char>>,
    number: Option<Seq<char>>,
    reason: Option<Seq<char>>,
)
    ensures
        inputs_spec(token, number, reason) matches Ok(v) ==> {
            &&& token == Some(v.github_token)
            &&& v.github_token.len() > 0
            &&& number matches Some(raw) && spec_parse_u64(trimmed(raw)) == Ok::<
                u64,
                ParseNumberError,
            >(v.number)
            &&& v.lock_reason.name() == optional_spec(reason, "resolved"@)
        },
{
    if let Ok(v) = inputs_spec(token, number, reason) {
        lemma_lock_reason_names_only(optional_spec(reason, "resolved"@), v.lock_reason);
    }
}

/// Each lock reason is known by its API name.
pub proof fn lemma_lock_reason_names()
    ensures
        LockReason::from_name("off-topic"@) == Some(LockReason::OffTopic),
        LockReason::from_name("too heated"@) == Some(LockReason::TooHeated),
        LockReason::from_name("resolved"@) == Some(LockReason::Resolved),
        LockReason::from_name("spam"@) == Some(LockReason::Spam),
        LockReason::OffTopic.name() == "off-topic"@,
        LockReason::TooHeated.name() == "too heated"@,
        LockReason::Resolved.name() == "resolved"@,
        LockReason::Spam.name() == "spam"@,
{
    reveal_strlit("off-topic");
    reveal_strlit("too heated");
    reveal_strlit("resolved");
    reveal_strlit("spam");
    assert("off-topic"@.len() == 9);
    assert("too heated"@.len() == 10);
    assert("resolved"@.len() == 8);
    assert("spam"@.len() == 4);
}

/// A non-empty optional value is taken as it is; the default stands in only
/// for an absent or empty value.
pub proof fn lemma_optional_keeps_given_value(value: Option<Seq<char>>, default: Seq<char>)
    ensures
        (value is Some && value->0.len() > 0) ==> optional_spec(value, default) == value->0,
        (value is None || value->0.len() == 0) ==> optional_spec(value, default) == default,
{
}

/// A non-empty required value is taken as it is; an absent or empty one is
/// reported missing under the input's name.
pub proof fn lemma_required_keeps_given_value(name: Seq<char>, value: Option<Seq<char>>)
    ensures
        (value is Some && value->0.len() > 0) ==> required_spec(name, value) == Ok::<
            Seq<char>,
            InputErrorView,
        >(value->0),
        (value is None || value->0.len() == 0) ==> required_spec(name, value) == Err::<
            Seq<char>,
            InputErrorView,
        >(InputErrorView::Missing(name)),
{
}

/// Valid values are accepted: a non-empty token, a number that parses once
/// trimmed, and a lock reason given by its name (or left out or empty,
/// meaning `resolved`) read as exactly those typed inputs.
pub proof fn lemma_valid_inputs_accepted(
    token: Seq<char>,
    number_raw: Seq<char>,
    reason: Option<Seq<char>>,
    number: u64,
    lock_reason: LockReason,
)
    requires
        token.len() > 0,
        number_raw.len() > 0,
        spec_parse_u64(trimmed(number_raw)) == Ok::<u64, ParseNumberError>(number),
        match reason {
            Some(v) => (v.len() > 0 && v == lock_reason.name()) || (v.len() == 0 && lock_reason
                == LockReason::Resolved),
            None => lock_reason == LockReason::Resolved,
        },
    ensures
        inputs_spec(Some(token), Some(number_raw), reason) == Ok::<InputsView, InputErrorView>(
            InputsView { github_token: token, number: number, lock_reason: lock_reason },
        ),
{
    lemma_lock_reason_names();
    lemma_lock_reason_name_round_trip(lock_reason);
}

/// Every lock reason is accepted when given by its name: for any token and
/// number that are accepted, naming a reason reads as that reason.
pub proof fn lemma_every_lock_reason_accepted(
    token: Seq<char>,
    number_raw: Seq<char>,
    number: u64,
    lock_reason: LockReason,
)
    requires
        token.len() > 0,
        number_raw.len() > 0,
        spec_parse_u64(trimmed(number_raw)) == Ok::<u64, ParseNumberError>(number),
    ensures
        inputs_spec(Some(token), Some(number_raw), Some(lock_reason.name())) matches Ok(v)
            && v.lock_reason == lock_reason && v.number == number && v.github_token == token,
{
    lemma_lock_reason_names();
    reveal_strlit("off-topic");
    reveal_strlit("too heated");
    reveal_strlit("resolved");
    reveal_strlit("spam");
    assert(lock_reason.name().len() > 0);
    lemma_valid_inputs_accepted(token, number_raw, Some(lock_reason.name()), number, lock_reason);
}

/// A number written in decimal, with any white space around it, is read as
/// that number.
pub proof fn lemma_number_read_back(front: Seq<char>, k: u64, back: Seq<char>)
    requires
        forall|i: int| 0 <= i < front.len() ==> is_white_space(#[trigger] front[i]),
        forall|i: int| 0 <= i < back.len() ==> is_white_space(#[trigger] back[i]),
    ensures
        number_spec(front + decimal(k as nat) + back) == Ok::<u64, InputErrorView>(k),
{
    let d = decimal(k as nat);
    lemma_decimal_is_digits(k);
    assert(is_digit(d[0]));
    assert(is_digit(d[d.len() - 1]));
    lemma_trimmed_padded(front, d, back);
    lemma_parse_decimal_round_trip(k);
}

/// Each error message names what went wrong: a missing input's message ends
/// with the input's name, an invalid number's with the parse error's text,
/// and an invalid lock reason's quotes the value given.
pub proof fn lemma_error_messages_name_the_cause(e: InputErrorView)
    ensures
        e matches InputErrorView::Missing(name) ==> {
            let m = e.message();
            m.subrange(m.len() - name.len(), m.len() as int) == name
        },
        e matches InputErrorView::InvalidNumber(kind) ==> {
            let m = e.message();
            m.subrange(m.len() - kind.text().len(), m.len() as int) == kind.text()
        },
        e matches InputErrorView::InvalidLockReason(value) ==> {
            let m = e.message();
            &&& m.subrange(0, 21) == "invalid lock-reason '"@
            &&& m.subrange(21, 21 + value.len() as int) == value
            &&& m[21 + value.len() as int] == '\''
        },
{
    reveal_strlit("invalid lock-reason '");
    reveal_strlit("': expected one of off-topic, too heated, resolved, spam");
    assert("invalid lock-reason '"@.len() == 21);
    let m = e.message();
    match e {
        InputErrorView::Missing(name) => {
            assert(m.subrange(m.len() - name.len(), m.len() as int) =~= name);
        },
        InputErrorView::InvalidNumber(kind) => {
            assert(m.subrange(m.len() - kind.text().len(), m.len() as int) =~= kind.text());
        },
        InputErrorView::InvalidLockReason(value) => {
            let tail = "': expected one of off-topic, too heated, resolved, spam"@;
            assert(m =~= "invalid lock-reason '"@ + value + tail);
            assert(m.subrange(21, 21 + value.len() as int) =~= value);
            assert(m[21 + value.len() as int] == tail[0]);
            assert(m.subrange(0, 21) =~= "invalid lock-reason '"@);
        },
    }
}

/// The environment name of an input is `INPUT_` and then the upper-cased
/// name with spaces turned into underscores; nothing else changes.
pub proof fn lemma_env_name_parts(name: Seq<char>)
    ensures
        env_name_of(name).subrange(0, 6) == "INPUT_"@,
        env_name_of(name).subrange(6, env_name_of(name).len() as int) == uppercase_of(
            spaces_to_underscores(name),
        ),
{
    reveal_strlit("INPUT_");
    assert("INPUT_"@.len() == 6);
    assert(env_name_of(name).subrange(0, 6) =~= "INPUT_"@);
    assert(env_name_of(name).subrange(6, env_name_of(name).len() as int) =~= uppercase_of(
        spaces_to_underscores(name),
    ));
}

/// A `Result` of inputs or an input error, by their views.
pub open spec fn inputs_result_view(r: Result<ActionInputs, InputError>) -> Result<
    InputsView,
    InputErrorView,
> {
    match r {
        Ok(i) => Ok(i@),
        Err(e) => Err(e@),
    }
}

impl ActionInputs {
    /// Checks the values found for `github-token`, `number` and `lock-reason`
    /// and turns them into typed inputs.
    pub fn from_values(
        github_token: Option<String>,
        number: Option<String>,
        lock_reason: Option<String>,
    ) -> (res: Result<ActionInputs, InputError>)
        ensures
            inputs_result_view(res) == inputs_spec(
                github_token.deep_view(),
                number.deep_view(),
                lock_reason.deep_view(),
            ),
    {
        let github_token = match required_value("github-token", github_token) {
            Ok(t) => t,
            Err(e) => return Err(e),
        };
        let number_raw = match required_value("number", number) {
            Ok(n) => n,
            Err(e) => return Err(e),
        };
        let number = match parse_number_input(number_raw.as_str()) {
            Ok(n) => n,
            Err(e) => return Err(e),
        };
        let lock_reason_raw = optional_value(lock_reason, "resolved");
        let lock_reason = match LockReason::parse(lock_reason_raw.as_str()) {
            Ok(r) => r,
            Err(e) => return Err(e),
        };
        Ok(ActionInputs { github_token, number, lock_reason })
    }

    /// Reads the inputs from `src`: `github-token` and `number` are required,
    /// `lock-reason` defaults to `resolved`.
    pub fn from_source<S: InputSource>(src: &S) -> (res: Result<ActionInputs, InputError>)
        ensures
            inputs_result_view(res) == inputs_spec(
                src.value_of("github-token"@),
                src.value_of("number"@),
                src.value_of("lock-reason"@),
            ),
    {
        let github_token = match required(src, "github-token") {
            Ok(t) => t,
            Err(e) => return Err(e),
        };
        let number_raw = match required(src, "number") {
            Ok(n) => n,
            Err(e) => return Err(e),
        };
        let number = match parse_number_input(number_raw.as_str()) {
            Ok(n) => n,
            Err(e) => return Err(e),
        };
        let lock_reason_raw = optional(src, "lock-reason", "resolved");
        let lock_reason = match LockReason::parse(lock_reason_raw.as_str()) {
            Ok(r) => r,
            Err(e) => return Err(e),
        };
        Ok(ActionInputs { github_token, number, lock_reason })
    }
}

} // verus!
