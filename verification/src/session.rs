//! Conversations and the in-memory session cache.
//!
//! A session is known by its id. The cache holds at most one session per id;
//! what has to be written to disk is handed back to the caller.

use crate::text::{concat2, string_of, to_chars};
use vstd::prelude::*;

verus! {

/// A tool call that an assistant message carries.
#[derive(Debug)]
pub struct ToolCall {
    pub id: String,
    pub name: String,
    pub arguments: String,
}

/// One message of a conversation.
#[derive(Debug)]
pub struct Message {
    /// `user` or `assistant`.
    pub role: String,
    pub content: String,
    /// Seconds since the epoch.
    pub timestamp: i64,
    pub tool_calls: Option<Vec<ToolCall>>,
}

/// A conversation with its messages.
#[derive(Debug)]
pub struct Session {
    pub id: String,
    pub title: String,
    pub work_dir: String,
    pub messages: Vec<Message>,
    pub created_at: i64,
    pub updated_at: i64,
}

/// The mathematical value of a [`ToolCall`].
pub struct ToolCallView {
    pub id: Seq<char>,
    pub name: Seq<char>,
    pub arguments: Seq<char>,
}

/// The mathematical value of a [`Message`].
pub struct MessageView {
    pub role: Seq<char>,
    pub content: Seq<char>,
    pub timestamp: i64,
    pub tool_calls: Option<Seq<ToolCallView>>,
}

/// The mathematical value of a [`Session`].
pub struct SessionView {
    pub id: Seq<char>,
    pub title: Seq<char>,
    pub work_dir: Seq<char>,
    pub messages: Seq<MessageView>,
    pub created_at: i64,
    pub updated_at: i64,
}

impl View for ToolCall {
    type V = ToolCallView;

    open spec fn view(&self) -> ToolCallView {
        ToolCallView { id: self.id@, name: self.name@, arguments: self.arguments@ }
    }
}

/// The values of a sequence of tool calls.
pub open spec fn tool_call_views(calls: Seq<ToolCall>) -> Seq<ToolCallView> {
    calls.map_values(|c: ToolCall| c@)
}

impl View for Message {
    type V = MessageView;

    open spec fn view(&self) -> MessageView {
        MessageView {
            role: self.role@,
            content: self.content@,
            timestamp: self.timestamp,
            tool_calls: match self.tool_calls {
                Some(calls) => Some(tool_call_views(calls@)),
                None => None,
            },
        }
    }
}

/// The values of a sequence of messages.
pub open spec fn message_views(messages: Seq<Message>) -> Seq<MessageView> {
    messages.map_values(|m: Message| m@)
}

impl View for Session {
    type V = SessionView;

    open spec fn view(&self) -> SessionView {
        SessionView {
            id: self.id@,
            title: self.title@,
            work_dir: self.work_dir@,
            messages: message_views(self.messages@),
            created_at: self.created_at,
            updated_at: self.updated_at,
        }
    }
}

/// The values of a sequence of sessions.
pub open spec fn session_views(sessions: Seq<Session>) -> Seq<SessionView> {
    sessions.map_values(|s: Session| s@)
}

impl Clone for ToolCall {
    fn clone(&self) -> (r: Self)
        ensures
            r@ == self@,
    {
        ToolCall {
            id: self.id.clone(),
            name: self.name.clone(),
            arguments: self.arguments.clone(),
        }
    }
}

fn clone_tool_calls(calls: &Vec<ToolCall>) -> (r: Vec<ToolCall>)
    ensures
        tool_call_views(r@) == tool_call_views(calls@),
{
    let mut out: Vec<ToolCall> = Vec::new();
    let mut i: usize = 0;
    while i < calls.len()
        invariant
            i <= calls.len(),
            out@.len() == i,
            forall|k: int| 0 <= k < i ==> out@[k]@ == calls@[k]@,
        decreases calls.len() - i,
    {
        out.push(calls[i].clone());
        i += 1;
    }
    assert(tool_call_views(out@) =~= tool_call_views(calls@));
    out
}

impl Clone for Message {
    fn clone(&self) -> (r: Self)
        ensures
            r@ == self@,
    {
        Message {
            role: self.role.clone(),
            content: self.content.clone(),
            timestamp: self.timestamp,
            tool_calls: match &self.tool_calls {
                Some(calls) => Some(clone_tool_calls(calls)),
                None => None,
            },
        }
    }
}

fn clone_messages(messages: &Vec<Message>) -> (r: Vec<Message>)
    ensures
        message_views(r@) == message_views(messages@),
{
    let mut out: Vec<Message> = Vec::new();
    let mut i: usize = 0;
    while i < messages.len()
        invariant
            i <= messages.len(),
            out@.len() == i,
            forall|k: int| 0 <= k < i ==> out@[k]@ == messages@[k]@,
        decreases messages.len() - i,
    {
        out.push(messages[i].clone());
        i += 1;
    }
    assert(message_views(out@) =~= message_views(messages@));
    out
}

impl Clone for Session {
    fn clone(&self) -> (r: Self)
        ensures
            r@ == self@,
    {
        Session {
            id: self.id.clone(),
            title: self.title.clone(),
            work_dir: self.work_dir.clone(),
            messages: clone_messages(&self.messages),
            created_at: self.created_at,
            updated_at: self.updated_at,
        }
    }
}

// ---------------------------------------------------------------------------
// The cache as a mathematical value
// ---------------------------------------------------------------------------

/// The least index at or after `from` of a session with this id, or `-1`.
pub open spec fn position(store: Seq<SessionView>, id: Seq<char>, from: int) -> int
    decreases store.len() - from,
{
    if from < 0 || from >= store.len() {
        -1
    } else if store[from].id == id {
        from
    } else {
        position(store, id, from + 1)
    }
}

/// Whether the store holds a session with this id.
pub open spec fn holds(store: Seq<SessionView>, id: Seq<char>) -> bool {
    position(store, id, 0) >= 0
}

/// No two sessions of the store share an id.
pub open spec fn distinct_ids(store: Seq<SessionView>) -> bool {
    forall|i: int, j: int|
        0 <= i < j < store.len() ==> (#[trigger] store[i]).id != (#[trigger] store[j]).id
}

/// A session as it is when first created.
pub open spec fn fresh_session(
    id: Seq<char>,
    title: Seq<char>,
    work_dir: Seq<char>,
    now: i64,
) -> SessionView {
    SessionView { id, title, work_dir, messages: Seq::empty(), created_at: now, updated_at: now }
}

/// What `get_or_create_session` does: the store afterwards, the session
/// returned, and whether it was created.
pub open spec fn get_or_create_spec(
    store: Seq<SessionView>,
    id: Seq<char>,
    title: Seq<char>,
    work_dir: Seq<char>,
    now: i64,
) -> (Seq<SessionView>, SessionView, bool) {
    let at = position(store, id, 0);
    if at >= 0 {
        (store, store[at], false)
    } else {
        let s = fresh_session(id, title, work_dir, now);
        (store.push(s), s, true)
    }
}

/// The store with `s` in the place of the session that has its id, or at
/// the end where there is none.
pub open spec fn upsert(store: Seq<SessionView>, s: SessionView) -> Seq<SessionView> {
    let at = position(store, s.id, 0);
    if at >= 0 {
        store.update(at, s)
    } else {
        store.push(s)
    }
}

/// The store after every session of `loaded` was put into it, in order.
pub open spec fn absorb(store: Seq<SessionView>, loaded: Seq<SessionView>) -> Seq<SessionView>
    decreases loaded.len(),
{
    if loaded.len() == 0 {
        store
    } else {
        upsert(absorb(store, loaded.drop_last()), loaded.last())
    }
}

/// The store without the session that has this id.
pub open spec fn without(store: Seq<SessionView>, id: Seq<char>) -> Seq<SessionView> {
    let at = position(store, id, 0);
    if at >= 0 {
        store.remove(at)
    } else {
        store
    }
}

/// A session with one more message, updated at `now`.
pub open spec fn with_message(s: SessionView, message: MessageView, now: i64) -> SessionView {
    SessionView { messages: s.messages.push(message), updated_at: now, ..s }
}

/// A session updated at `now`.
pub open spec fn touched(s: SessionView, now: i64) -> SessionView {
    SessionView { updated_at: now, ..s }
}

pub proof fn lemma_position(store: Seq<SessionView>, id: Seq<char>, from: int)
    requires
        0 <= from,
    ensures
        position(store, id, from) == -1 || (from <= position(store, id, from) < store.len()
            && store[position(store, id, from)].id == id),
        forall|i: int|
            from <= i < store.len() && (i < position(store, id, from) || position(store, id, from)
                == -1) ==> (#[trigger] store[i]).id != id,
    decreases store.len() - from,
{
    if from < store.len() && store[from].id != id {
        lemma_position(store, id, from + 1);
    }
}

pub proof fn lemma_position_unique(store: Seq<SessionView>, id: Seq<char>, from: int, at: int)
    requires
        0 <= from <= at,
        at < store.len() ==> store[at].id == id,
        at >= store.len() ==> at == store.len(),
        forall|i: int| from <= i < at ==> (#[trigger] store[i]).id != id,
    ensures
        position(store, id, from) == (if at < store.len() {
            at
        } else {
            -1
        }),
    decreases at - from,
{
    if from < at {
        lemma_position_unique(store, id, from + 1, at);
    }
}

/// Putting a session into a store keeps its ids distinct.
pub proof fn lemma_upsert_distinct(store: Seq<SessionView>, s: SessionView)
    requires
        distinct_ids(store),
    ensures
        distinct_ids(upsert(store, s)),
        holds(upsert(store, s), s.id),
{
    lemma_position(store, s.id, 0);
    let at = position(store, s.id, 0);
    let next = upsert(store, s);
    if at >= 0 {
        assert forall|i: int, j: int| 0 <= i < j < next.len() implies (#[trigger] next[i]).id != (
        #[trigger] next[j]).id by {
            assert(next[i].id == store[i].id);
            assert(next[j].id == store[j].id);
        }
        lemma_position_unique(next, s.id, 0, at);
    } else {
        assert forall|i: int, j: int| 0 <= i < j < next.len() implies (#[trigger] next[i]).id != (
        #[trigger] next[j]).id by {
            if j == store.len() {
                assert(next[i] == store[i]);
            } else {
                assert(next[i] == store[i]);
                assert(next[j] == store[j]);
            }
        }
        assert forall|i: int| 0 <= i < store.len() implies (#[trigger] next[i]).id != s.id by {
            assert(next[i] == store[i]);
        }
        lemma_position_unique(next, s.id, 0, store.len() as int);
    }
}

/// Asking twice for the same id gives the same session both times: the
/// second call returns what the first returned, with the title and the
/// working directory of the first, creates nothing, and leaves the store as
/// the first call left it.
pub proof fn get_or_create_twice(
    store: Seq<SessionView>,
    id: Seq<char>,
    title1: Seq<char>,
    work_dir1: Seq<char>,
    now1: i64,
    title2: Seq<char>,
    work_dir2: Seq<char>,
    now2: i64,
)
    requires
        distinct_ids(store),
    ensures
        ({
            let first = get_or_create_spec(store, id, title1, work_dir1, now1);
            let second = get_or_create_spec(first.0, id, title2, work_dir2, now2);
            &&& second.1 == first.1
            &&& !second.2
            &&& second.0 == first.0
            &&& distinct_ids(first.0)
        }),
{
    lemma_position(store, id, 0);
    let first = get_or_create_spec(store, id, title1, work_dir1, now1);
    if position(store, id, 0) < 0 {
        let s = fresh_session(id, title1, work_dir1, now1);
        assert(first.0 == upsert(store, s));
        lemma_upsert_distinct(store, s);
        assert forall|i: int| 0 <= i < store.len() implies (#[trigger] first.0[i]).id != id by {
            assert(first.0[i] == store[i]);
        }
        lemma_position_unique(first.0, id, 0, store.len() as int);
    }
}

// ---------------------------------------------------------------------------
// The cache
// ---------------------------------------------------------------------------

/// The sessions that are held in memory, at most one per id.
pub struct SessionManager {
    sessions: Vec<Session>,
}

impl View for SessionManager {
    type V = Seq<SessionView>;

    closed spec fn view(&self) -> Seq<SessionView> {
        session_views(self.sessions@)
    }
}

impl SessionManager {
    /// The cache is well formed: no two of its sessions share an id.
    pub open spec fn wf(&self) -> bool {
        distinct_ids(self@)
    }

    /// An empty cache.
    pub fn new() -> (r: Self)
        ensures
            r@.len() == 0,
            r.wf(),
    {
        SessionManager { sessions: Vec::new() }
    }

    /// Number of sessions held.
    pub fn len(&self) -> (r: usize)
        ensures
            r == self@.len(),
    {
        self.sessions.len()
    }

    fn find(&self, id: &str) -> (r: Option<usize>)
        ensures
            match r {
                Some(i) => position(self@, id@, 0) == i && i < self.sessions@.len(),
                None => position(self@, id@, 0) == -1,
            },
    {
        let mut i: usize = 0;
        while i < self.sessions.len()
            invariant
                i <= self.sessions.len(),
                forall|k: int| 0 <= k < i ==> (#[trigger] self@[k]).id != id@,
            decreases self.sessions.len() - i,
        {
            assert(self@[i as int] == self.sessions@[i as int]@);
            if crate::text::str_eq(self.sessions[i].id.as_str(), id) {
                proof {
                    lemma_position_unique(self@, id@, 0, i as int);
                }
                return Some(i);
            }
            i += 1;
        }
        proof {
            lemma_position_unique(self@, id@, 0, self@.len() as int);
        }
        None
    }

    /// The session held under `id`, if there is one.
    pub fn get(&self, id: &str) -> (r: Option<&Session>)
        ensures
            r is Some == holds(self@, id@),
            r matches Some(s) ==> s@ == self@[position(self@, id@, 0)],
    {
        match self.find(id) {
            Some(i) => {
                assert(self@[i as int] == self.sessions@[i as int]@);
                Some(&self.sessions[i])
            },
            None => None,
        }
    }

    /// The name of the file that holds the record of a session.
    pub fn session_file_name(session_id: &str) -> (r: String)
        ensures
            r@ == session_id@ + ".json"@,
    {
        concat2(session_id, ".json")
    }

    /// The name of the file that holds the messages of a session, one per
    /// line.
    pub fn messages_file_name(session_id: &str) -> (r: String)
        ensures
            r@ == session_id@ + "_messages.jsonl"@,
    {
        concat2(session_id, "_messages.jsonl")
    }

    /// The session held under `session_id`; where there is none, a new one
    /// with this title and working directory, created at `now`, which is
    /// then held. The flag says whether the session was created, in which
    /// case its record has to be written.
    pub fn get_or_create_session_at(
        &mut self,
        session_id: &str,
        title: &str,
        work_dir: &str,
        now: i64,
    ) -> (r: (Session, bool))
        requires
            old(self).wf(),
        ensures
            final(self).wf(),
            (final(self)@, r.0@, r.1) == get_or_create_spec(
                old(self)@,
                session_id@,
                title@,
                work_dir@,
                now,
            ),
    {
        match self.find(session_id) {
            Some(i) => {
                assert(self@[i as int] == self.sessions@[i as int]@);
                (self.sessions[i].clone(), false)
            },
            None => {
                let session = Session {
                    id: string_of(&to_chars(session_id)),
                    title: string_of(&to_chars(title)),
                    work_dir: string_of(&to_chars(work_dir)),
                    messages: Vec::new(),
                    created_at: now,
                    updated_at: now,
                };
                let copy = session.clone();
                let ghost s = fresh_session(session_id@, title@, work_dir@, now);
                proof {
                    assert(session@.messages =~= Seq::<MessageView>::empty());
                    assert(session@ == s);
                    lemma_upsert_distinct(self@, s);
                }
                self.sessions.push(session);
                assert(self@ =~= old(self)@.push(s));
                (copy, true)
            },
        }
    }

    /// Adds a message to the session held under `session_id` and marks the
    /// session as updated at `now`. Returns the session as it is then, for
    /// its record to be written; `None`, and nothing changed, where no such
    /// session is held.
    pub fn add_message_at(&mut self, session_id: &str, message: Message, now: i64) -> (r: Option<
        Session,
    >)
        requires
            old(self).wf(),
        ensures
            final(self).wf(),
            r is Some == holds(old(self)@, session_id@),
            match r {
                Some(s) => {
                    let at = position(old(self)@, session_id@, 0);
                    &&& s@ == with_message(old(self)@[at], message@, now)
                    &&& final(self)@ == old(self)@.update(at, s@)
                },
                None => final(self)@ == old(self)@,
            },
    {
        match self.find(session_id) {
            Some(i) => {
                let ghost before = self@;
                assert(before[i as int] == self.sessions@[i as int]@);
                let mut session = self.sessions[i].clone();
                let ghost msgs = session.messages@;
                session.messages.push(message);
                session.updated_at = now;
                proof {
                    assert(message_views(session.messages@) =~= message_views(msgs).push(
                        message@,
                    ));
                    assert(session@ == with_message(before[i as int], message@, now));
                    lemma_upsert_distinct(before, session@);
                }
                let copy = session.clone();
                self.sessions.set(i, session);
                assert(self@ =~= before.update(i as int, copy@));
                Some(copy)
            },
            None => None,
        }
    }

    /// Marks the session held under `session_id` as updated at `now`.
    /// Returns the session as it is then, for its record to be written;
    /// `None`, and nothing changed, where no such session is held.
    pub fn touch_at(&mut self, session_id: &str, now: i64) -> (r: Option<Session>)
        requires
            old(self).wf(),
        ensures
            final(self).wf(),
            r is Some == holds(old(self)@, session_id@),
            match r {
                Some(s) => {
                    let at = position(old(self)@, session_id@, 0);
                    &&& s@ == touched(old(self)@[at], now)
                    &&& final(self)@ == old(self)@.update(at, s@)
                },
                None => final(self)@ == old(self)@,
            },
    {
        match self.find(session_id) {
            Some(i) => {
                let ghost before = self@;
                assert(before[i as int] == self.sessions@[i as int]@);
                let mut session = self.sessions[i].clone();
                session.updated_at = now;
                proof {
                    assert(session@ == touched(before[i as int], now));
                    lemma_upsert_distinct(before, session@);
                }
                let copy = session.clone();
                self.sessions.set(i, session);
                assert(self@ =~= before.update(i as int, copy@));
                Some(copy)
            },
            None => None,
        }
    }

    /// [`SessionManager::get_or_create_session_at`] at the time that the
    /// clock shows.
    pub fn get_or_create_session(&mut self, session_id: &str, title: &str, work_dir: &str) -> (r: (
        Session,
        bool,
    ))
        requires
            old(self).wf(),
        ensures
            final(self).wf(),
            exists|now: i64|
                (final(self)@, r.0@, r.1) == #[trigger] get_or_create_spec(
                    old(self)@,
                    session_id@,
                    title@,
                    work_dir@,
                    now,
                ),
    {
        let now = crate::clock::utc_now().0;
        self.get_or_create_session_at(session_id, title, work_dir, now)
    }

    /// [`SessionManager::add_message_at`] at the time that the clock shows.
    pub fn add_message(&mut self, session_id: &str, message: Message) -> (r: Option<Session>)
        requires
            old(self).wf(),
        ensures
            final(self).wf(),
            r is Some == holds(old(self)@, session_id@),
            match r {
                Some(s) => {
                    let at = position(old(self)@, session_id@, 0);
                    &&& exists|now: i64| s@ == #[trigger] with_message(old(self)@[at], message@, now)
                    &&& final(self)@ == old(self)@.update(at, s@)
                },
                None => final(self)@ == old(self)@,
            },
    {
        let now = crate::clock::utc_now().0;
        self.add_message_at(session_id, message, now)
    }

    /// [`SessionManager::touch_at`] at the time that the clock shows.
    pub fn touch(&mut self, session_id: &str) -> (r: Option<Session>)
        requires
            old(self).wf(),
        ensures
            final(self).wf(),
            r is Some == holds(old(self)@, session_id@),
            match r {
                Some(s) => {
                    let at = position(old(self)@, session_id@, 0);
                    &&& exists|now: i64| s@ == #[trigger] touched(old(self)@[at], now)
                    &&& final(self)@ == old(self)@.update(at, s@)
                },
                None => final(self)@ == old(self)@,
            },
    {
        let now = crate::clock::utc_now().0;
        self.touch_at(session_id, now)
    }

    /// Puts the sessions that were loaded from disk into the cache, each in
    /// the place of the session that has its id, or behind the others where
    /// there is none.
    pub fn load_all_sessions(&mut self, loaded: &Vec<Session>)
        requires
            old(self).wf(),
        ensures
            final(self).wf(),
            final(self)@ == absorb(old(self)@, session_views(loaded@)),
    {
        let ghost all = session_views(loaded@);
        let mut k: usize = 0;
        assert(all.take(0) =~= Seq::<SessionView>::empty());
        while k < loaded.len()
            invariant
                k <= loaded.len(),
                all == session_views(loaded@),
                self.wf(),
                self@ == absorb(old(self)@, all.take(k as int)),
            decreases loaded.len() - k,
        {
            let ghost before = self@;
            let session = loaded[k].clone();
            proof {
                let upto = all.take(k + 1);
                assert(upto.drop_last() =~= all.take(k as int));
                assert(upto.last() == loaded@[k as int]@);
                lemma_upsert_distinct(before, session@);
            }
            match self.find(session.id.as_str()) {
                Some(i) => {
                    let ghost sv = session@;
                    self.sessions.set(i, session);
                    assert(self@ =~= before.update(i as int, sv));
                },
                None => {
                    let ghost sv = session@;
                    self.sessions.push(session);
                    assert(self@ =~= before.push(sv));
                },
            }
            k += 1;
        }
        assert(all.take(loaded.len() as int) =~= all);
    }

    /// Forgets the session held under `session_id`. Says whether there was
    /// one.
    pub fn delete_session(&mut self, session_id: &str) -> (r: bool)
        requires
            old(self).wf(),
        ensures
            final(self).wf(),
            r == holds(old(self)@, session_id@),
            final(self)@ == without(old(self)@, session_id@),
            !holds(final(self)@, session_id@),
    {
        match self.find(session_id) {
            Some(i) => {
                let ghost before = self@;
                self.sessions.remove(i);
                proof {
                    let after = before.remove(i as int);
                    assert(self@ =~= after);
                    lemma_position(before, session_id@, 0);
                    assert forall|a: int, b: int| 0 <= a < b < after.len() implies (
                    #[trigger] after[a]).id != (#[trigger] after[b]).id by {
                        let a0 = if a < i { a } else { a + 1 };
                        let b0 = if b < i { b } else { b + 1 };
                        assert(after[a] == before[a0]);
                        assert(after[b] == before[b0]);
                    }
                    assert forall|a: int| 0 <= a < after.len() implies (#[trigger] after[a]).id
                        != session_id@ by {
                        let a0 = if a < i { a } else { a + 1 };
                        assert(after[a] == before[a0]);
                        assert(before[a0].id != before[i as int].id);
                    }
                    lemma_position_unique(after, session_id@, 0, after.len() as int);
                }
                true
            },
            None => false,
        }
    }
}

/// The messages of a session, from the first source that has them: the
/// cache, then the stored sessions, then the agent's transcript, where that
/// holds any. No messages where no source has them.
pub fn session_messages(
    cached: Option<Vec<Message>>,
    stored: Option<Vec<Message>>,
    transcript: Option<Vec<Message>>,
) -> (r: Vec<Message>)
    ensures
        r@ == (match cached {
            Some(m) => m@,
            None => match stored {
                Some(m) => m@,
                None => match transcript {
                    Some(m) => m@,
                    None => Seq::empty(),
                },
            },
        }),
{
    match cached {
        Some(m) => m,
        None => match stored {
            Some(m) => m,
            None => match transcript {
                Some(m) => m,
                None => Vec::new(),
            },
        },
    }
}

} // verus!
