//! The conversation store: one transcript plus two pending-value buffers per
//! chat identifier.
//!
//! A [`ChatStorage`] owns every conversation exclusively; callers reach a
//! conversation only through the operations below, never by retaining a
//! handle into the storage. Conversations are created lazily on first
//! reference and are never removed; [`flush_chat`] empties one conversation
//! but keeps its identifier.
//!
//! Every operation is specified against three total functions of the store:
//! [`ChatStorage::history_of`], [`ChatStorage::answers_of`] and
//! [`ChatStorage::requests_of`], which give an identifier's transcript and
//! buffered values, and are empty for identifiers never seen. Each mutating
//! operation also states a frame: identifiers other than the one named keep
//! their state ([`ChatStorage::agrees_except`]).

use vstd::prelude::*;
use crossbeam_queue::SegQueue;
use crate::queue::{queue_new, queue_pop, queue_push, queued};
use crate::role::{role_display, role_name, spec_role_display, spec_role_name, Role};

verus! {

/// One role-tagged utterance of a transcript; immutable once built and
/// freely copyable.
pub struct ChatCompletionParameters {
    pub role: Role,
    pub content: String,
}

impl View for ChatCompletionParameters {
    type V = (Role, Seq<char>);

    open spec fn view(&self) -> (Role, Seq<char>) {
        (self.role, self.content@)
    }
}

impl DeepView for ChatCompletionParameters {
    type V = (Role, Seq<char>);

    open spec fn deep_view(&self) -> (Role, Seq<char>) {
        self@
    }
}

impl Clone for ChatCompletionParameters {
    fn clone(&self) -> (r: Self)
        ensures
            r@ == self@,
    {
        ChatCompletionParameters { role: self.role, content: self.content.clone() }
    }
}

/// One conversation: its transcript and the two buffers of pending values.
pub(crate) struct Chat {
    pub(crate) answers: SegQueue<String>,
    pub(crate) requests: SegQueue<String>,
    pub(crate) history: Vec<ChatCompletionParameters>,
}

impl Chat {
    pub(crate) open spec fn spec_history(&self) -> Seq<(Role, Seq<char>)> {
        self.history.deep_view()
    }

    pub(crate) open spec fn spec_answers(&self) -> Seq<Seq<char>> {
        queued(self.answers)
    }

    pub(crate) open spec fn spec_requests(&self) -> Seq<Seq<char>> {
        queued(self.requests)
    }

    pub(crate) fn new() -> (c: Chat)
        ensures
            c.spec_history() == Seq::<(Role, Seq<char>)>::empty(),
            c.spec_answers() == Seq::<Seq<char>>::empty(),
            c.spec_requests() == Seq::<Seq<char>>::empty(),
    {
        let c = Chat { answers: queue_new(), requests: queue_new(), history: Vec::new() };
        proof {
            assert(c.spec_history() =~= Seq::<(Role, Seq<char>)>::empty());
        }
        c
    }
}

/// The first conversation stored under `id`, if any.
spec fn chat_of(s: Seq<(String, Chat)>, id: Seq<char>) -> Option<Chat>
    decreases s.len(),
{
    if s.len() == 0 {
        None
    } else if s[0].0@ == id {
        Some(s[0].1)
    } else {
        chat_of(s.drop_first(), id)
    }
}

/// The mapping from chat identifier to conversation. Keys are unique; a
/// conversation, once created, stays for the life of the store.
pub struct ChatStorage {
    chats: Vec<(String, Chat)>,
}

impl ChatStorage {
    /// Whether a conversation has been created under `id`.
    pub closed spec fn contains_id(&self, id: Seq<char>) -> bool {
        chat_of(self.chats@, id) is Some
    }

    /// The transcript stored under `id`; empty for an identifier never seen.
    pub closed spec fn history_of(&self, id: Seq<char>) -> Seq<(Role, Seq<char>)> {
        match chat_of(self.chats@, id) {
            Some(c) => c.spec_history(),
            None => Seq::empty(),
        }
    }

    /// The buffered answers under `id`, oldest first; empty for an
    /// identifier never seen.
    pub closed spec fn answers_of(&self, id: Seq<char>) -> Seq<Seq<char>> {
        match chat_of(self.chats@, id) {
            Some(c) => c.spec_answers(),
            None => Seq::empty(),
        }
    }

    /// The buffered request contents under `id`, oldest first; empty for an
    /// identifier never seen.
    pub closed spec fn requests_of(&self, id: Seq<char>) -> Seq<Seq<char>> {
        match chat_of(self.chats@, id) {
            Some(c) => c.spec_requests(),
            None => Seq::empty(),
        }
    }

    /// The store's invariant: identifiers are unique keys.
    pub closed spec fn wf(&self) -> bool {
        forall|i: int, j: int|
            #![trigger self.chats@[i].0@, self.chats@[j].0@]
            0 <= i < j < self.chats@.len() ==> self.chats@[i].0@ != self.chats@[j].0@
    }

    /// `other` keeps the state of every identifier but `id`.
    pub open spec fn agrees_except(&self, other: &ChatStorage, id: Seq<char>) -> bool {
        &&& forall|o: Seq<char>|
            #![trigger self.history_of(o)]
            #![trigger other.history_of(o)]
            o != id ==> self.history_of(o) == other.history_of(o)
        &&& forall|o: Seq<char>|
            #![trigger self.answers_of(o)]
            #![trigger other.answers_of(o)]
            o != id ==> self.answers_of(o) == other.answers_of(o)
        &&& forall|o: Seq<char>|
            #![trigger self.requests_of(o)]
            #![trigger other.requests_of(o)]
            o != id ==> self.requests_of(o) == other.requests_of(o)
        &&& forall|o: Seq<char>|
            #![trigger self.contains_id(o)]
            #![trigger other.contains_id(o)]
            o != id ==> self.contains_id(o) == other.contains_id(o)
    }

    /// Creates an empty store: no identifier has been seen.
    pub fn new() -> (s: ChatStorage)
        ensures
            s.wf(),
            forall|id: Seq<char>| !(#[trigger] s.contains_id(id)),
            forall|id: Seq<char>| #[trigger] s.history_of(id) == Seq::<(Role, Seq<char>)>::empty(),
            forall|id: Seq<char>| #[trigger] s.answers_of(id) == Seq::<Seq<char>>::empty(),
            forall|id: Seq<char>| #[trigger] s.requests_of(id) == Seq::<Seq<char>>::empty(),
    {
        ChatStorage { chats: Vec::new() }
    }
}

/// Work confined to one identifier never reaches another's conversation:
/// whenever a step leaves every identifier but `i` untouched — as every
/// mutating operation of this store promises — any other identifier `j`
/// keeps exactly the transcript and buffers it had.
pub proof fn lemma_transcripts_stay_apart(
    before: &ChatStorage,
    after: &ChatStorage,
    i: Seq<char>,
    j: Seq<char>,
)
    requires
        before.agrees_except(after, i),
        j != i,
    ensures
        after.history_of(j) == before.history_of(j),
        after.answers_of(j) == before.answers_of(j),
        after.requests_of(j) == before.requests_of(j),
{
}

/// A buffered value is consumed by one read: with exactly one value pending,
/// a read returns that value and leaves the buffer empty, so a second read
/// without an intervening deposit returns nothing.
pub proof fn lemma_buffered_read_is_consuming(s: &ChatStorage, id: Seq<char>, a: Seq<char>)
    requires
        s.answers_of(id) == seq![a],
    ensures
        s.answers_of(id).len() > 0,
        s.answers_of(id)[0] == a,
        s.answers_of(id).drop_first() == Seq::<Seq<char>>::empty(),
{
    assert(seq![a].drop_first() =~= Seq::<Seq<char>>::empty());
}

/// Chains the frames of two consecutive operations on the same identifier:
/// if each leaves every other identifier untouched, so does the pair.
pub proof fn lemma_agrees_except_trans(
    a: &ChatStorage,
    b: &ChatStorage,
    c: &ChatStorage,
    id: Seq<char>,
)
    requires
        a.agrees_except(b, id),
        b.agrees_except(c, id),
    ensures
        a.agrees_except(c, id),
{
    assert forall|o: Seq<char>| o != id implies a.history_of(o) == c.history_of(o) by {
        assert(a.history_of(o) == b.history_of(o));
    }
    assert forall|o: Seq<char>| o != id implies a.answers_of(o) == c.answers_of(o) by {
        assert(a.answers_of(o) == b.answers_of(o));
    }
    assert forall|o: Seq<char>| o != id implies a.requests_of(o) == c.requests_of(o) by {
        assert(a.requests_of(o) == b.requests_of(o));
    }
    assert forall|o: Seq<char>| o != id implies a.contains_id(o) == c.contains_id(o) by {
        assert(a.contains_id(o) == b.contains_id(o));
    }
}

/// A conversation never created holds nothing: its transcript and both
/// buffers are empty.
pub proof fn lemma_unseen_chat_is_empty(s: &ChatStorage, id: Seq<char>)
    requires
        !s.contains_id(id),
    ensures
        s.history_of(id) == Seq::<(Role, Seq<char>)>::empty(),
        s.answers_of(id) == Seq::<Seq<char>>::empty(),
        s.requests_of(id) == Seq::<Seq<char>>::empty(),
{
}

proof fn lemma_chat_of_skip(s: Seq<(String, Chat)>, id: Seq<char>, i: int)
    requires
        0 <= i <= s.len(),
        forall|j: int| 0 <= j < i ==> (#[trigger] s[j].0)@ != id,
    ensures
        chat_of(s, id) == chat_of(s.skip(i), id),
    decreases i,
{
    if i == 0 {
        assert(s.skip(0) =~= s);
    } else {
        assert(s.len() > 0);
        assert(s[0].0@ != id);
        lemma_chat_of_skip(s.drop_first(), id, i - 1);
        assert(s.drop_first().skip(i - 1) =~= s.skip(i));
    }
}

proof fn lemma_chat_of_found(s: Seq<(String, Chat)>, id: Seq<char>, i: int)
    requires
        0 <= i < s.len(),
        s[i].0@ == id,
        forall|j: int| 0 <= j < i ==> (#[trigger] s[j].0)@ != id,
    ensures
        chat_of(s, id) == Some(s[i].1),
{
    lemma_chat_of_skip(s, id, i);
    assert(s.skip(i)[0] == s[i]);
}

proof fn lemma_chat_of_none(s: Seq<(String, Chat)>, id: Seq<char>)
    requires
        forall|j: int| 0 <= j < s.len() ==> (#[trigger] s[j].0)@ != id,
    ensures
        chat_of(s, id) is None,
{
    lemma_chat_of_skip(s, id, s.len() as int);
    assert(s.skip(s.len() as int) =~= Seq::<(String, Chat)>::empty());
}

proof fn lemma_chat_of_update_other(
    s: Seq<(String, Chat)>,
    i: int,
    v: (String, Chat),
    id2: Seq<char>,
)
    requires
        0 <= i < s.len(),
        v.0@ == s[i].0@,
        id2 != s[i].0@,
    ensures
        chat_of(s.update(i, v), id2) == chat_of(s, id2),
    decreases i,
{
    let t = s.update(i, v);
    if i == 0 {
        assert(t[0].0@ != id2);
        assert(s[0].0@ != id2);
        assert(t.drop_first() =~= s.drop_first());
    } else {
        assert(t[0] == s[0]);
        if s[0].0@ == id2 {
        } else {
            lemma_chat_of_update_other(s.drop_first(), i - 1, v, id2);
            assert(t.drop_first() =~= s.drop_first().update(i - 1, v));
        }
    }
}

proof fn lemma_chat_of_push_other(s: Seq<(String, Chat)>, p: (String, Chat), id2: Seq<char>)
    requires
        id2 != p.0@,
    ensures
        chat_of(s.push(p), id2) == chat_of(s, id2),
    decreases s.len(),
{
    let t = s.push(p);
    if s.len() == 0 {
        assert(t[0] == p);
        assert(t.drop_first() =~= Seq::<(String, Chat)>::empty());
        assert(chat_of(t, id2) is None);
        assert(chat_of(s, id2) is None);
    } else {
        assert(t[0] == s[0]);
        if s[0].0@ == id2 {
            assert(chat_of(t, id2) == Some(t[0].1));
            assert(chat_of(s, id2) == Some(s[0].1));
        } else {
            lemma_chat_of_push_other(s.drop_first(), p, id2);
            assert(t.drop_first() =~= s.drop_first().push(p));
            assert(chat_of(t, id2) == chat_of(t.drop_first(), id2));
            assert(chat_of(s, id2) == chat_of(s.drop_first(), id2));
        }
    }
}

impl ChatStorage {
    /// The position of `chat_id` among the stored conversations, if present.
    fn find_chat(&self, chat_id: &str) -> (r: Option<usize>)
        ensures
            match r {
                Some(i) => {
                    &&& i < self.chats@.len()
                    &&& self.chats@[i as int].0@ == chat_id@
                    &&& forall|j: int| 0 <= j < i ==> (#[trigger] self.chats@[j].0)@ != chat_id@
                    &&& chat_of(self.chats@, chat_id@) == Some(self.chats@[i as int].1)
                },
                None => {
                    &&& chat_of(self.chats@, chat_id@) is None
                    &&& forall|j: int|
                        0 <= j < self.chats@.len() ==> (#[trigger] self.chats@[j].0)@ != chat_id@
                },
            },
    {
        let key: String = chat_id.to_owned();
        let n = self.chats.len();
        let mut i: usize = 0;
        while i < n
            invariant
                n == self.chats@.len(),
                i <= n,
                key@ == chat_id@,
                forall|j: int| 0 <= j < i ==> (#[trigger] self.chats@[j].0)@ != chat_id@,
            decreases n - i,
        {
            if self.chats[i].0 == key {
                proof {
                    lemma_chat_of_found(self.chats@, chat_id@, i as int);
                }
                return Some(i);
            }
            i += 1;
        }
        proof {
            lemma_chat_of_none(self.chats@, chat_id@);
        }
        None
    }

    /// Looks `chat_id` up, creating an empty conversation for it if absent;
    /// returns its position. The state of every identifier is unchanged.
    fn get_or_create_chat(&mut self, chat_id: &str) -> (i: usize)
        requires
            old(self).wf(),
        ensures
            final(self).wf(),
            i < final(self).chats@.len(),
            final(self).chats@[i as int].0@ == chat_id@,
            forall|j: int| 0 <= j < i ==> (#[trigger] final(self).chats@[j].0)@ != chat_id@,
            chat_of(final(self).chats@, chat_id@) == Some(final(self).chats@[i as int].1),
            final(self).contains_id(chat_id@),
            forall|id: Seq<char>| #[trigger] final(self).history_of(id) == old(self).history_of(id),
            forall|id: Seq<char>| #[trigger] final(self).answers_of(id) == old(self).answers_of(id),
            forall|id: Seq<char>|
                #[trigger] final(self).requests_of(id) == old(self).requests_of(id),
            forall|id: Seq<char>|
                id != chat_id@ ==> #[trigger] final(self).contains_id(id) == old(
                    self,
                ).contains_id(id),
    {
        let found = self.find_chat(chat_id);
        match found {
            Some(i) => i,
            None => {
                let ghost s0 = self.chats@;
                let i = self.chats.len();
                let fresh = Chat::new();
                self.chats.push((chat_id.to_owned(), fresh));
                proof {
                    let s1 = self.chats@;
                    assert(s1 =~= s0.push(s1[i as int]));
                    assert(s1[i as int].0@ == chat_id@);
                    lemma_chat_of_found(s1, chat_id@, i as int);
                    assert forall|id: Seq<char>| id != chat_id@ implies chat_of(s1, id) == chat_of(
                        s0,
                        id,
                    ) by {
                        lemma_chat_of_push_other(s0, s1[i as int], id);
                    }
                }
                i
            },
        }
    }
}

/// After replacing the conversation at a first-match position while keeping
/// its key, lookups of that key see the replacement and every other key is
/// untouched.
proof fn lemma_store_update(m: Seq<(String, Chat)>, s2: Seq<(String, Chat)>, i: int)
    requires
        0 <= i < m.len(),
        s2 == m.update(i, s2[i]),
        s2[i].0 == m[i].0,
        forall|j: int| 0 <= j < i ==> (#[trigger] m[j].0)@ != m[i].0@,
    ensures
        chat_of(s2, m[i].0@) == Some(s2[i].1),
        forall|id2: Seq<char>|
            id2 != m[i].0@ ==> #[trigger] chat_of(s2, id2) == chat_of(m, id2),
{
    assert forall|j: int| 0 <= j < i implies (#[trigger] s2[j].0)@ != s2[i].0@ by {
        assert(s2[j] == m[j]);
    }
    lemma_chat_of_found(s2, m[i].0@, i);
    assert forall|id2: Seq<char>| id2 != m[i].0@ implies #[trigger] chat_of(s2, id2) == chat_of(
        m,
        id2,
    ) by {
        lemma_chat_of_update_other(m, i, s2[i], id2);
    }
}

/// Keys at the same positions mean both stores are well formed together.
proof fn lemma_wf_same_keys(a: &ChatStorage, b: &ChatStorage)
    requires
        a.wf(),
        a.chats@.len() == b.chats@.len(),
        forall|k: int| 0 <= k < a.chats@.len() ==> (#[trigger] b.chats@[k].0) == a.chats@[k].0,
    ensures
        b.wf(),
{
}

/// Relates the state after a lookup-then-mutate operation to the state
/// before it: `pre` is the store handed in, `mid` the store right after the
/// lookup created the conversation at position `i`, and `post` the store
/// after the conversation at `i` was replaced without renaming it. The
/// identifier keeps its position's new contents; every other identifier is
/// untouched.
proof fn lemma_op_frame(
    pre: &ChatStorage,
    mid: &ChatStorage,
    post: &ChatStorage,
    id: Seq<char>,
    i: int,
)
    requires
        mid.wf(),
        forall|o: Seq<char>| #[trigger] mid.history_of(o) == pre.history_of(o),
        forall|o: Seq<char>| #[trigger] mid.answers_of(o) == pre.answers_of(o),
        forall|o: Seq<char>| #[trigger] mid.requests_of(o) == pre.requests_of(o),
        forall|o: Seq<char>| o != id ==> #[trigger] mid.contains_id(o) == pre.contains_id(o),
        0 <= i < mid.chats@.len(),
        mid.chats@[i].0@ == id,
        forall|j: int| 0 <= j < i ==> (#[trigger] mid.chats@[j].0)@ != id,
        post.chats@ == mid.chats@.update(i, post.chats@[i]),
        post.chats@[i].0 == mid.chats@[i].0,
    ensures
        post.wf(),
        post.contains_id(id),
        pre.agrees_except(post, id),
        post.history_of(id) == post.chats@[i].1.spec_history(),
        post.answers_of(id) == post.chats@[i].1.spec_answers(),
        post.requests_of(id) == post.chats@[i].1.spec_requests(),
        pre.history_of(id) == mid.chats@[i].1.spec_history(),
        pre.answers_of(id) == mid.chats@[i].1.spec_answers(),
        pre.requests_of(id) == mid.chats@[i].1.spec_requests(),
{
    lemma_store_update(mid.chats@, post.chats@, i);
    lemma_wf_same_keys(mid, post);
    lemma_chat_of_found(mid.chats@, id, i);
    assert(mid.history_of(id) == pre.history_of(id));
    assert(mid.answers_of(id) == pre.answers_of(id));
    assert(mid.requests_of(id) == pre.requests_of(id));
    assert forall|o: Seq<char>| o != id implies pre.history_of(o) == post.history_of(o) by {
        assert(chat_of(post.chats@, o) == chat_of(mid.chats@, o));
        assert(mid.history_of(o) == pre.history_of(o));
    }
    assert forall|o: Seq<char>| o != id implies pre.answers_of(o) == post.answers_of(o) by {
        assert(chat_of(post.chats@, o) == chat_of(mid.chats@, o));
        assert(mid.answers_of(o) == pre.answers_of(o));
    }
    assert forall|o: Seq<char>| o != id implies pre.requests_of(o) == post.requests_of(o) by {
        assert(chat_of(post.chats@, o) == chat_of(mid.chats@, o));
        assert(mid.requests_of(o) == pre.requests_of(o));
    }
    assert forall|o: Seq<char>| o != id implies pre.contains_id(o) == post.contains_id(o) by {
        assert(chat_of(post.chats@, o) == chat_of(mid.chats@, o));
        assert(mid.contains_id(o) == pre.contains_id(o));
    }
}

/// Appends a request content to the identifier's pending-request buffer,
/// creating the conversation if absent. The transcript, the answer buffer
/// and every other identifier's state are unchanged.
pub fn append_request_to_chat(store: &mut ChatStorage, chat_id: &str, request: String)
    requires
        old(store).wf(),
    ensures
        final(store).wf(),
        final(store).requests_of(chat_id@) == old(store).requests_of(chat_id@).push(request@),
        final(store).history_of(chat_id@) == old(store).history_of(chat_id@),
        final(store).answers_of(chat_id@) == old(store).answers_of(chat_id@),
        final(store).contains_id(chat_id@),
        old(store).agrees_except(final(store), chat_id@),
{
    let i = store.get_or_create_chat(chat_id);
    let ghost mid = *store;
    let pair = &mut store.chats[i];
    queue_push(&mut pair.1.requests, request);
    proof {
        lemma_op_frame(old(store), &mid, store, chat_id@, i as int);
    }
}

/// Pops the oldest pending request content, or returns the empty string if
/// none is buffered; creates the conversation if absent. Nothing else
/// changes.
pub fn get_request_from_chat(store: &mut ChatStorage, chat_id: &str) -> (r: String)
    requires
        old(store).wf(),
    ensures
        final(store).wf(),
        old(store).requests_of(chat_id@).len() == 0 ==> r@ == Seq::<char>::empty()
            && final(store).requests_of(chat_id@) == old(store).requests_of(chat_id@),
        old(store).requests_of(chat_id@).len() > 0 ==> r@ == old(store).requests_of(chat_id@)[0]
            && final(store).requests_of(chat_id@) == old(store).requests_of(
            chat_id@,
        ).drop_first(),
        final(store).history_of(chat_id@) == old(store).history_of(chat_id@),
        final(store).answers_of(chat_id@) == old(store).answers_of(chat_id@),
        final(store).contains_id(chat_id@),
        old(store).agrees_except(final(store), chat_id@),
{
    let i = store.get_or_create_chat(chat_id);
    let ghost mid = *store;
    let pair = &mut store.chats[i];
    let popped = queue_pop(&mut pair.1.requests);
    proof {
        lemma_op_frame(old(store), &mid, store, chat_id@, i as int);
    }
    match popped {
        Some(s) => s,
        None => String::new(),
    }
}

/// Appends an answer to the identifier's pending-answer buffer, creating the
/// conversation if absent. Nothing else changes.
pub fn append_answer_to_chat(store: &mut ChatStorage, chat_id: &str, answer: String)
    requires
        old(store).wf(),
    ensures
        final(store).wf(),
        final(store).answers_of(chat_id@) == old(store).answers_of(chat_id@).push(answer@),
        final(store).history_of(chat_id@) == old(store).history_of(chat_id@),
        final(store).requests_of(chat_id@) == old(store).requests_of(chat_id@),
        final(store).contains_id(chat_id@),
        old(store).agrees_except(final(store), chat_id@),
{
    let i = store.get_or_create_chat(chat_id);
    let ghost mid = *store;
    let pair = &mut store.chats[i];
    queue_push(&mut pair.1.answers, answer);
    proof {
        lemma_op_frame(old(store), &mid, store, chat_id@, i as int);
    }
}

/// Pops the oldest pending answer, or returns the empty string if none is
/// buffered; creates the conversation if absent. Nothing else changes.
pub fn get_answer_from_chat(store: &mut ChatStorage, chat_id: &str) -> (r: String)
    requires
        old(store).wf(),
    ensures
        final(store).wf(),
        old(store).answers_of(chat_id@).len() == 0 ==> r@ == Seq::<char>::empty()
            && final(store).answers_of(chat_id@) == old(store).answers_of(chat_id@),
        old(store).answers_of(chat_id@).len() > 0 ==> r@ == old(store).answers_of(chat_id@)[0]
            && final(store).answers_of(chat_id@) == old(store).answers_of(chat_id@).drop_first(),
        final(store).history_of(chat_id@) == old(store).history_of(chat_id@),
        final(store).requests_of(chat_id@) == old(store).requests_of(chat_id@),
        final(store).contains_id(chat_id@),
        old(store).agrees_except(final(store), chat_id@),
{
    let i = store.get_or_create_chat(chat_id);
    let ghost mid = *store;
    let pair = &mut store.chats[i];
    let popped = queue_pop(&mut pair.1.answers);
    proof {
        lemma_op_frame(old(store), &mid, store, chat_id@, i as int);
    }
    match popped {
        Some(s) => s,
        None => String::new(),
    }
}

/// Appends one message to the identifier's transcript, creating the
/// conversation if absent. The buffers and every other identifier's state
/// are unchanged.
pub fn append_to_chat_history(store: &mut ChatStorage, chat_id: &str, role: Role, message: String)
    requires
        old(store).wf(),
    ensures
        final(store).wf(),
        final(store).history_of(chat_id@) == old(store).history_of(chat_id@).push(
            (role, message@),
        ),
        final(store).answers_of(chat_id@) == old(store).answers_of(chat_id@),
        final(store).requests_of(chat_id@) == old(store).requests_of(chat_id@),
        final(store).contains_id(chat_id@),
        old(store).agrees_except(final(store), chat_id@),
{
    let i = store.get_or_create_chat(chat_id);
    let ghost mid = *store;
    let pair = &mut store.chats[i];
    let entry = ChatCompletionParameters { role, content: message };
    pair.1.history.push(entry);
    proof {
        lemma_op_frame(old(store), &mid, store, chat_id@, i as int);
        assert(store.chats@[i as int].1.spec_history() =~= mid.chats@[i as int].1.spec_history()
            .push((role, message@)));
    }
}

/// Returns a copy of the identifier's full transcript, in insertion order;
/// creates the conversation if absent. The state of every identifier is
/// unchanged.
pub fn get_full_chat_history(store: &mut ChatStorage, chat_id: &str) -> (h: Vec<
    ChatCompletionParameters,
>)
    requires
        old(store).wf(),
    ensures
        final(store).wf(),
        h.deep_view() == old(store).history_of(chat_id@),
        forall|id: Seq<char>| #[trigger] final(store).history_of(id) == old(store).history_of(id),
        forall|id: Seq<char>| #[trigger] final(store).answers_of(id) == old(store).answers_of(id),
        forall|id: Seq<char>|
            #[trigger] final(store).requests_of(id) == old(store).requests_of(id),
        final(store).contains_id(chat_id@),
        forall|id: Seq<char>|
            id != chat_id@ ==> #[trigger] final(store).contains_id(id) == old(store).contains_id(
                id,
            ),
{
    let i = store.get_or_create_chat(chat_id);
    let chat = &store.chats[i].1;
    let n = chat.history.len();
    let mut out: Vec<ChatCompletionParameters> = Vec::new();
    let mut k: usize = 0;
    while k < n
        invariant
            n == chat.history@.len(),
            k <= n,
            out@.len() == k as int,
            forall|t: int| 0 <= t < k as int ==> (#[trigger] out@[t])@ == chat.history@[t]@,
        decreases n - k,
    {
        let entry = chat.history[k].clone();
        out.push(entry);
        k += 1;
    }
    proof {
        assert forall|t: int| 0 <= t < n as int implies out.deep_view()[t]
            == chat.history.deep_view()[t] by {
            assert(out@[t]@ == chat.history@[t]@);
        }
        assert(out.deep_view() =~= chat.history.deep_view());
        assert(store.history_of(chat_id@) == chat.spec_history());
        assert(store.history_of(chat_id@) == old(store).history_of(chat_id@));
    }
    out
}

/// Empties the identifier's transcript and discards both buffers; the
/// identifier itself stays in the store, and every other identifier's state
/// is unchanged.
pub fn flush_chat(store: &mut ChatStorage, chat_id: &str)
    requires
        old(store).wf(),
    ensures
        final(store).wf(),
        final(store).history_of(chat_id@) == Seq::<(Role, Seq<char>)>::empty(),
        final(store).answers_of(chat_id@) == Seq::<Seq<char>>::empty(),
        final(store).requests_of(chat_id@) == Seq::<Seq<char>>::empty(),
        final(store).contains_id(chat_id@),
        old(store).agrees_except(final(store), chat_id@),
{
    let i = store.get_or_create_chat(chat_id);
    let ghost mid = *store;
    let pair = &mut store.chats[i];
    pair.1.answers = queue_new();
    pair.1.requests = queue_new();
    pair.1.history.clear();
    proof {
        lemma_op_frame(old(store), &mid, store, chat_id@, i as int);
        assert(store.chats@[i as int].1.spec_history() =~= Seq::<(Role, Seq<char>)>::empty());
    }
}

/// The two cells of one listed transcript entry: the role's canonical
/// spelling, then the content.
pub open spec fn iterable_entry(e: (Role, Seq<char>)) -> Seq<Seq<char>> {
    seq![spec_role_name(e.0), e.1]
}

/// One line of the printable transcript: `<role>: <content>` and a line
/// break, the role in the provider's wire spelling.
pub open spec fn render_entry(e: (Role, Seq<char>)) -> Seq<char> {
    spec_role_display(e.0) + ": "@ + e.1 + "\n"@
}

/// The printable transcript: every entry's line, in transcript order.
pub open spec fn render_history(h: Seq<(Role, Seq<char>)>) -> Seq<char>
    decreases h.len(),
{
    if h.len() == 0 {
        Seq::empty()
    } else {
        render_history(h.drop_last()) + render_entry(h.last())
    }
}

/// The printable transcript renders exactly the listed entries: it is the
/// concatenation, in transcript order, of one rendered line per entry.
pub proof fn lemma_render_history_is_entrywise(h: Seq<(Role, Seq<char>)>)
    ensures
        render_history(h) == h.map_values(|e: (Role, Seq<char>)| render_entry(e)).flatten_alt(),
    decreases h.len(),
{
    let lines = h.map_values(|e: (Role, Seq<char>)| render_entry(e));
    if h.len() == 0 {
        assert(lines =~= Seq::<Seq<char>>::empty());
        assert(lines.flatten_alt() =~= Seq::<char>::empty());
    } else {
        lemma_render_history_is_entrywise(h.drop_last());
        assert(h.drop_last().map_values(|e: (Role, Seq<char>)| render_entry(e))
            =~= lines.drop_last());
        assert(lines.last() == render_entry(h.last()));
    }
}

/// Lists one entry as its `[role name, content]` pair.
pub fn params_to_pair(p: &ChatCompletionParameters) -> (r: Vec<String>)
    ensures
        r.deep_view() == iterable_entry(p@),
{
    let mut row: Vec<String> = Vec::new();
    row.push(role_name(p.role).to_owned());
    row.push(p.content.clone());
    proof {
        assert(row.deep_view() =~= iterable_entry(p@));
    }
    row
}

/// Returns the identifier's transcript with each entry listed as the pair
/// of its role name and its content; creates the conversation if absent.
/// The state of every identifier is unchanged.
pub fn get_iterable_chat_history(store: &mut ChatStorage, chat_id: &str) -> (r: Vec<Vec<String>>)
    requires
        old(store).wf(),
    ensures
        final(store).wf(),
        r.deep_view() == old(store).history_of(chat_id@).map_values(
            |e: (Role, Seq<char>)| iterable_entry(e),
        ),
        forall|id: Seq<char>| #[trigger] final(store).history_of(id) == old(store).history_of(id),
        forall|id: Seq<char>| #[trigger] final(store).answers_of(id) == old(store).answers_of(id),
        forall|id: Seq<char>|
            #[trigger] final(store).requests_of(id) == old(store).requests_of(id),
        final(store).contains_id(chat_id@),
        forall|id: Seq<char>|
            id != chat_id@ ==> #[trigger] final(store).contains_id(id) == old(store).contains_id(
                id,
            ),
{
    let history = get_full_chat_history(store, chat_id);
    let ghost h = old(store).history_of(chat_id@);
    let n = history.len();
    let mut out: Vec<Vec<String>> = Vec::new();
    let mut k: usize = 0;
    while k < n
        invariant
            n == history@.len(),
            history.deep_view() == h,
            k <= n,
            out@.len() == k as int,
            forall|t: int| 0 <= t < k as int ==> (#[trigger] out@[t]).deep_view()
                == iterable_entry(h[t]),
        decreases n - k,
    {
        let entry = &history[k];
        let row = params_to_pair(entry);
        out.push(row);
        k += 1;
        proof {
            assert(h[k - 1] == history@[k - 1]@);
        }
    }
    proof {
        let mapped = h.map_values(|e: (Role, Seq<char>)| iterable_entry(e));
        assert forall|t: int| 0 <= t < n as int implies out.deep_view()[t] == mapped[t] by {
            assert(out@[t].deep_view() == iterable_entry(h[t]));
        }
        assert(out.deep_view() =~= mapped);
    }
    out
}

/// Returns the identifier's transcript rendered as text, one line per entry
/// in transcript order; creates the conversation if absent. The state of
/// every identifier is unchanged.
pub fn get_printable_chat_history(store: &mut ChatStorage, chat_id: &str) -> (r: String)
    requires
        old(store).wf(),
    ensures
        final(store).wf(),
        r@ == render_history(old(store).history_of(chat_id@)),
        forall|id: Seq<char>| #[trigger] final(store).history_of(id) == old(store).history_of(id),
        forall|id: Seq<char>| #[trigger] final(store).answers_of(id) == old(store).answers_of(id),
        forall|id: Seq<char>|
            #[trigger] final(store).requests_of(id) == old(store).requests_of(id),
        final(store).contains_id(chat_id@),
        forall|id: Seq<char>|
            id != chat_id@ ==> #[trigger] final(store).contains_id(id) == old(store).contains_id(
                id,
            ),
{
    let history = get_full_chat_history(store, chat_id);
    let ghost h = old(store).history_of(chat_id@);
    let n = history.len();
    let mut result = String::new();
    let mut k: usize = 0;
    while k < n
        invariant
            n == history@.len(),
            history.deep_view() == h,
            k <= n,
            result@ == render_history(h.take(k as int)),
        decreases n - k,
    {
        let entry = &history[k];
        result.append(role_display(entry.role));
        result.append(": ");
        result.append(entry.content.as_str());
        result.append("\n");
        k += 1;
        proof {
            assert(h[k - 1] == history@[k - 1]@);
            assert(h.take(k as int).drop_last() =~= h.take(k as int - 1));
            assert(h.take(k as int).last() == h[k as int - 1]);
            assert(result@ =~= render_history(h.take(k as int)));
        }
    }
    proof {
        assert(h.take(n as int) =~= h);
    }
    result
}

} // verus!
