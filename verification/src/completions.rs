//! Scheduling a completion: input validation, the transcript append, the
//! request snapshot, and the deposit of the provider's outcome.
//!
//! The network call itself is the host's job. The host calls
//! [`prepare_chat_completion_request`], which validates the caller's
//! messages synchronously — before any side effect — and, when they are well
//! formed, appends them and returns the [`CompletionRequest`] to send. After
//! the call completes, the host turns the provider's outcome into one
//! deposited string with [`completion_outcome_text`] and hands it back
//! through [`deposit_completion_result`]: every scheduled call deposits
//! exactly one value.

use vstd::prelude::*;
use crate::role::{parse_role, spec_parse_role, Role};
use crate::settings::Settings;
use crate::store::{
    append_answer_to_chat, append_request_to_chat, append_to_chat_history, flush_chat,
    get_answer_from_chat, get_iterable_chat_history, get_printable_chat_history,
    get_request_from_chat, lemma_agrees_except_trans, render_history, iterable_entry,
    ChatCompletionParameters, ChatStorage,
};

verus! {

/// Why a scheduling call rejected its input. Validation errors surface
/// synchronously, before any background work is launched.
#[derive(Clone, Copy, PartialEq, Eq, Structural, Debug)]
pub enum ValidationError {
    /// A message was not a two-element role/content pair.
    WrongPairShape,
    /// A message's role tag was none of the accepted spellings.
    UnknownRole,
}

/// The description reported for each validation error.
pub open spec fn spec_describe(e: ValidationError) -> Seq<char> {
    match e {
        ValidationError::WrongPairShape => "Invalid vector length"@,
        ValidationError::UnknownRole => "Invalid role value"@,
    }
}

impl ValidationError {
    /// Returns the error's description.
    pub fn describe(&self) -> (r: String)
        ensures
            r@ == spec_describe(*self),
    {
        match self {
            ValidationError::WrongPairShape => "Invalid vector length".to_owned(),
            ValidationError::UnknownRole => "Invalid role value".to_owned(),
        }
    }
}

/// Whether one caller-supplied message is a two-element pair whose first
/// element names an accepted role.
pub open spec fn spec_valid_pair(m: Seq<Seq<char>>) -> bool {
    m.len() == 2 && spec_parse_role(m[0]) is Some
}

/// The error reported for an invalid pair.
pub open spec fn spec_pair_error(m: Seq<Seq<char>>) -> ValidationError {
    if m.len() != 2 {
        ValidationError::WrongPairShape
    } else {
        ValidationError::UnknownRole
    }
}

/// Whether every caller-supplied message is valid.
pub open spec fn spec_all_valid(ms: Seq<Seq<Seq<char>>>) -> bool {
    forall|t: int| 0 <= t < ms.len() ==> spec_valid_pair(#[trigger] ms[t])
}

/// The position of the first invalid message.
pub open spec fn spec_first_invalid(ms: Seq<Seq<Seq<char>>>) -> int
    decreases ms.len(),
{
    if ms.len() == 0 {
        0
    } else if !spec_valid_pair(ms[0]) {
        0
    } else {
        1 + spec_first_invalid(ms.drop_first())
    }
}

proof fn lemma_first_invalid(ms: Seq<Seq<Seq<char>>>, k: int)
    requires
        0 <= k < ms.len(),
        !spec_valid_pair(ms[k]),
        forall|t: int| 0 <= t < k ==> spec_valid_pair(#[trigger] ms[t]),
    ensures
        spec_first_invalid(ms) == k,
    decreases k,
{
    if k == 0 {
    } else {
        assert(spec_valid_pair(ms[0]));
        lemma_first_invalid(ms.drop_first(), k - 1);
    }
}

/// The transcript entries that a valid message list appends, in order.
pub open spec fn spec_entries(ms: Seq<Seq<Seq<char>>>) -> Seq<(Role, Seq<char>)> {
    ms.map_values(|m: Seq<Seq<char>>| (spec_parse_role(m[0])->Some_0, m[1]))
}

/// The request contents that a valid message list buffers, in order.
pub open spec fn spec_contents(ms: Seq<Seq<Seq<char>>>) -> Seq<Seq<char>> {
    ms.map_values(|m: Seq<Seq<char>>| m[1])
}

/// Builds one transcript entry from a `[role, content]` pair, rejecting a
/// wrong-shaped pair or an unknown role tag.
pub fn params_from_pair(pair: &Vec<String>) -> (r: Result<
    ChatCompletionParameters,
    ValidationError,
>)
    ensures
        spec_valid_pair(pair.deep_view()) ==> (r matches Ok(p) && p@ == (
            spec_parse_role(pair.deep_view()[0])->Some_0,
            pair.deep_view()[1],
        )),
        !spec_valid_pair(pair.deep_view()) ==> (r matches Err(e) && e == spec_pair_error(
            pair.deep_view(),
        )),
{
    proof {
        assert(pair.deep_view().len() == pair@.len());
    }
    if pair.len() != 2 {
        return Err(ValidationError::WrongPairShape);
    }
    proof {
        assert(pair.deep_view()[0] == pair@[0]@);
        assert(pair.deep_view()[1] == pair@[1]@);
    }
    match parse_role(&pair[0]) {
        Some(role) => Ok(ChatCompletionParameters { role, content: pair[1].clone() }),
        None => Err(ValidationError::UnknownRole),
    }
}

/// A provider request snapshot: the model, the token budget and the full
/// transcript at the moment of scheduling, in prompt order.
pub struct CompletionRequest {
    pub model: String,
    pub max_tokens: u16,
    pub messages: Vec<ChatCompletionParameters>,
}

/// Builds the provider request from the settings and a transcript snapshot.
pub fn build_chat_completion_request(settings: &Settings, messages: Vec<
    ChatCompletionParameters,
>) -> (r: CompletionRequest)
    ensures
        r.model@ == settings.spec_model(),
        r.max_tokens == settings.spec_max_tokens(),
        r.messages.deep_view() == messages.deep_view(),
{
    CompletionRequest {
        model: settings.get_model().to_owned(),
        max_tokens: settings.get_max_tokens(),
        messages,
    }
}

/// Validates the caller's messages and, when all are well formed, appends
/// each one's content to the identifier's request buffer and each entry to
/// its transcript, in the order given, then returns the provider request
/// built from the settings and a snapshot of the full transcript — so every
/// entry appended before the call is part of the request. On a validation
/// error, reported for the first invalid message, the store is left exactly
/// as it was: no partial side effect.
pub fn prepare_chat_completion_request(
    store: &mut ChatStorage,
    settings: &Settings,
    chat_id: &str,
    messages: &Vec<Vec<String>>,
) -> (r: Result<CompletionRequest, ValidationError>)
    requires
        old(store).wf(),
    ensures
        final(store).wf(),
        r is Ok <==> spec_all_valid(messages.deep_view()),
        r matches Err(e) ==> e == spec_pair_error(
            messages.deep_view()[spec_first_invalid(messages.deep_view())],
        ) && *final(store) == *old(store),
        r matches Ok(req) ==> {
            &&& final(store).history_of(chat_id@) == old(store).history_of(chat_id@)
                + spec_entries(messages.deep_view())
            &&& final(store).requests_of(chat_id@) == old(store).requests_of(chat_id@)
                + spec_contents(messages.deep_view())
            &&& final(store).answers_of(chat_id@) == old(store).answers_of(chat_id@)
            &&& final(store).contains_id(chat_id@)
            &&& old(store).agrees_except(final(store), chat_id@)
            &&& req.model@ == settings.spec_model()
            &&& req.max_tokens == settings.spec_max_tokens()
            &&& req.messages.deep_view() == final(store).history_of(chat_id@)
        },
{
    let ghost ms = messages.deep_view();
    let n = messages.len();
    let mut entries: Vec<ChatCompletionParameters> = Vec::new();
    let mut k: usize = 0;
    while k < n
        invariant
            n == messages@.len(),
            ms == messages.deep_view(),
            k <= n,
            old(store).wf(),
            *store == *old(store),
            entries@.len() == k as int,
            forall|t: int| 0 <= t < k as int ==> spec_valid_pair(#[trigger] ms[t]),
            forall|t: int|
                0 <= t < k as int ==> (#[trigger] entries@[t])@ == (
                    spec_parse_role(ms[t][0])->Some_0,
                    ms[t][1],
                ),
        decreases n - k,
    {
        proof {
            assert(ms[k as int] == messages@[k as int].deep_view());
        }
        match params_from_pair(&messages[k]) {
            Ok(p) => {
                entries.push(p);
            },
            Err(e) => {
                proof {
                    lemma_first_invalid(ms, k as int);
                }
                return Err(e);
            },
        }
        k += 1;
    }
    proof {
        assert(spec_all_valid(ms));
        assert(spec_entries(ms.take(0)) =~= Seq::<(Role, Seq<char>)>::empty());
        assert(spec_contents(ms.take(0)) =~= Seq::<Seq<char>>::empty());
        assert(old(store).history_of(chat_id@) + spec_entries(ms.take(0)) =~= old(
            store,
        ).history_of(chat_id@));
        assert(old(store).requests_of(chat_id@) + spec_contents(ms.take(0)) =~= old(
            store,
        ).requests_of(chat_id@));
    }
    let mut k: usize = 0;
    while k < n
        invariant
            n == messages@.len(),
            ms == messages.deep_view(),
            k <= n,
            entries@.len() == n as int,
            forall|t: int| 0 <= t < n as int ==> spec_valid_pair(#[trigger] ms[t]),
            forall|t: int|
                0 <= t < n as int ==> (#[trigger] entries@[t])@ == (
                    spec_parse_role(ms[t][0])->Some_0,
                    ms[t][1],
                ),
            store.wf(),
            store.history_of(chat_id@) == old(store).history_of(chat_id@) + spec_entries(
                ms.take(k as int),
            ),
            store.requests_of(chat_id@) == old(store).requests_of(chat_id@) + spec_contents(
                ms.take(k as int),
            ),
            store.answers_of(chat_id@) == old(store).answers_of(chat_id@),
            old(store).agrees_except(store, chat_id@),
        decreases n - k,
    {
        let ghost prev = *store;
        let entry = &entries[k];
        append_request_to_chat(store, chat_id, entry.content.clone());
        let ghost mid = *store;
        append_to_chat_history(store, chat_id, entry.role, entry.content.clone());
        k += 1;
        proof {
            lemma_agrees_except_trans(&prev, &mid, store, chat_id@);
            lemma_agrees_except_trans(old(store), &prev, store, chat_id@);
            assert(spec_entries(ms.take(k as int)) =~= spec_entries(
                ms.take(k as int - 1),
            ).push((entry.role, entry.content@)));
            assert(spec_contents(ms.take(k as int)) =~= spec_contents(ms.take(k as int - 1)).push(
                entry.content@,
            ));
            assert(store.history_of(chat_id@) =~= old(store).history_of(chat_id@) + spec_entries(
                ms.take(k as int),
            ));
            assert(store.requests_of(chat_id@) =~= old(store).requests_of(chat_id@)
                + spec_contents(ms.take(k as int)));
        }
    }
    proof {
        assert(ms.take(n as int) =~= ms);
    }
    let ghost pre_snap = *store;
    let snapshot = crate::store::get_full_chat_history(store, chat_id);
    let req = build_chat_completion_request(settings, snapshot);
    proof {
        assert forall|o: Seq<char>| o != chat_id@ implies pre_snap.history_of(o)
            == store.history_of(o) by {}
        assert forall|o: Seq<char>| o != chat_id@ implies pre_snap.answers_of(o)
            == store.answers_of(o) by {}
        assert forall|o: Seq<char>| o != chat_id@ implies pre_snap.requests_of(o)
            == store.requests_of(o) by {}
        assert forall|o: Seq<char>| o != chat_id@ implies pre_snap.contains_id(o)
            == store.contains_id(o) by {}
        lemma_agrees_except_trans(old(store), &pre_snap, store, chat_id@);
    }
    Ok(req)
}

/// The one string deposited for a provider outcome: the answer's content on
/// success, the empty string when the provider returned no content, or the
/// failure's description.
pub fn completion_outcome_text(outcome: Result<Option<String>, String>) -> (r: String)
    ensures
        outcome matches Ok(Some(t)) ==> r@ == t@,
        outcome matches Ok(None) ==> r@ == Seq::<char>::empty(),
        outcome matches Err(e) ==> r@ == e@,
{
    match outcome {
        Ok(Some(t)) => t,
        Ok(None) => String::new(),
        Err(e) => e,
    }
}

/// Deposits a completed call's text: buffers it as a pending answer and
/// appends it to the transcript as an assistant message. Success and failure
/// deposit alike, so every scheduled call deposits exactly one value.
pub fn deposit_completion_result(store: &mut ChatStorage, chat_id: &str, result: String)
    requires
        old(store).wf(),
    ensures
        final(store).wf(),
        final(store).answers_of(chat_id@) == old(store).answers_of(chat_id@).push(result@),
        final(store).history_of(chat_id@) == old(store).history_of(chat_id@).push(
            (Role::Assistant, result@),
        ),
        final(store).requests_of(chat_id@) == old(store).requests_of(chat_id@),
        final(store).contains_id(chat_id@),
        old(store).agrees_except(final(store), chat_id@),
{
    let ghost prev = *store;
    append_answer_to_chat(store, chat_id, result.clone());
    let ghost mid = *store;
    append_to_chat_history(store, chat_id, Role::Assistant, result);
    proof {
        lemma_agrees_except_trans(&prev, &mid, store, chat_id@);
    }
}

/// Pops the identifier's oldest pending answer, or returns the empty string
/// if none is pending: a consuming read.
pub fn get_answer_content(store: &mut ChatStorage, chat_id: String) -> (r: String)
    requires
        old(store).wf(),
    ensures
        final(store).wf(),
        old(store).answers_of(chat_id@).len() == 0 ==> r@ == Seq::<char>::empty()
            && final(store).answers_of(chat_id@) == old(store).answers_of(chat_id@),
        old(store).answers_of(chat_id@).len() > 0 ==> r@ == old(store).answers_of(chat_id@)[0]
            && final(store).answers_of(chat_id@) == old(store).answers_of(chat_id@).drop_first(),
        final(store).history_of(chat_id@) == old(store).history_of(chat_id@),
        final(store).requests_of(chat_id@) == old(store).requests_of(chat_id@),
        old(store).agrees_except(final(store), chat_id@),
{
    get_answer_from_chat(store, chat_id.as_str())
}

/// Pops the identifier's oldest pending request content, or returns the
/// empty string if none is pending: a consuming read.
pub fn get_request_content(store: &mut ChatStorage, chat_id: String) -> (r: String)
    requires
        old(store).wf(),
    ensures
        final(store).wf(),
        old(store).requests_of(chat_id@).len() == 0 ==> r@ == Seq::<char>::empty()
            && final(store).requests_of(chat_id@) == old(store).requests_of(chat_id@),
        old(store).requests_of(chat_id@).len() > 0 ==> r@ == old(store).requests_of(chat_id@)[0]
            && final(store).requests_of(chat_id@) == old(store).requests_of(
            chat_id@,
        ).drop_first(),
        final(store).history_of(chat_id@) == old(store).history_of(chat_id@),
        final(store).answers_of(chat_id@) == old(store).answers_of(chat_id@),
        old(store).agrees_except(final(store), chat_id@),
{
    get_request_from_chat(store, chat_id.as_str())
}

/// Returns the identifier's transcript as `[role name, content]` pairs, in
/// transcript order: a non-consuming read.
pub fn get_history(store: &mut ChatStorage, chat_id: String) -> (r: Vec<Vec<String>>)
    requires
        old(store).wf(),
    ensures
        final(store).wf(),
        r.deep_view() == old(store).history_of(chat_id@).map_values(
            |e: (Role, Seq<char>)| iterable_entry(e),
        ),
        forall|id: Seq<char>| #[trigger] final(store).history_of(id) == old(store).history_of(id),
        forall|id: Seq<char>| #[trigger] final(store).answers_of(id) == old(store).answers_of(id),
        forall|id: Seq<char>|
            #[trigger] final(store).requests_of(id) == old(store).requests_of(id),
{
    get_iterable_chat_history(store, chat_id.as_str())
}

/// Returns the identifier's transcript rendered as text, one
/// `<role>: <content>` line per entry: a non-consuming read.
pub fn get_history_as_string(store: &mut ChatStorage, chat_id: String) -> (r: String)
    requires
        old(store).wf(),
    ensures
        final(store).wf(),
        r@ == render_history(old(store).history_of(chat_id@)),
        forall|id: Seq<char>| #[trigger] final(store).history_of(id) == old(store).history_of(id),
        forall|id: Seq<char>| #[trigger] final(store).answers_of(id) == old(store).answers_of(id),
        forall|id: Seq<char>|
            #[trigger] final(store).requests_of(id) == old(store).requests_of(id),
{
    get_printable_chat_history(store, chat_id.as_str())
}

/// Clears the identifier's transcript and discards its pending buffers,
/// leaving every other identifier's state untouched.
pub fn flush(store: &mut ChatStorage, chat_id: String)
    requires
        old(store).wf(),
    ensures
        final(store).wf(),
        final(store).history_of(chat_id@) == Seq::<(Role, Seq<char>)>::empty(),
        final(store).answers_of(chat_id@) == Seq::<Seq<char>>::empty(),
        final(store).requests_of(chat_id@) == Seq::<Seq<char>>::empty(),
        old(store).agrees_except(final(store), chat_id@),
{
    flush_chat(store, chat_id.as_str())
}

} // verus!
