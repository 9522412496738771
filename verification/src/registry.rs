use vstd::prelude::*;

use crate::message::{Frame, FrameView};

verus! {

/// A live connection as the registry owns it: its identity, the session token
/// it authenticated under, the time of its last observed heartbeat
/// (milliseconds on the caller's clock), and the queue of outbound frames.
/// Every send to a connection goes through this queue, so there is a single
/// writer per connection; the transport-facing task drains the queue with
/// `take_outgoing` and performs the actual writes.
pub struct Connection {
    pub id: u64,
    pub session_token: String,
    pub last_heartbeat: u64,
    pub outbox: Vec<Frame>,
}

impl Connection {
    /// The frames queued for this connection, as mathematical values, in the
    /// order they will reach the transport.
    pub open spec fn outbox_views(self) -> Seq<FrameView> {
        self.outbox@.map_values(|f: Frame| f@)
    }
}

/// One session's membership entry: the token and the ids of the connections
/// currently authenticated under it. An entry exists only while at least one
/// connection is registered under its token.
pub struct SessionEntry {
    pub token: String,
    pub members: Vec<u64>,
}

/// The connection registry: the process-wide map from connection id to
/// connection record, and from session token to the ids registered under it.
/// It owns all mutation of connection membership. Connection ids are
/// allocated from a counter and never reused.
pub struct WebSocketManager {
    pub next_id: u64,
    pub conns: Vec<Connection>,
    pub sessions: Vec<SessionEntry>,
}

impl WebSocketManager {
    /// There is a connection record with this id.
    pub open spec fn has_conn(self, id: u64) -> bool {
        exists|i: int| 0 <= i < self.conns@.len() && self.conns@[i].id == id
    }

    /// The position of the connection record with this id.
    pub open spec fn conn_index(self, id: u64) -> int {
        choose|i: int| 0 <= i < self.conns@.len() && self.conns@[i].id == id
    }

    /// The connection record with this id.
    pub open spec fn conn(self, id: u64) -> Connection {
        self.conns@[self.conn_index(id)]
    }

    /// The session token the connection with this id is registered under.
    pub open spec fn token_of(self, id: u64) -> Seq<char> {
        self.conn(id).session_token@
    }

    /// There is a membership entry for this token.
    pub open spec fn has_session(self, token: Seq<char>) -> bool {
        exists|s: int| 0 <= s < self.sessions@.len() && self.sessions@[s].token@ == token
    }

    /// The position of the membership entry for this token.
    pub open spec fn session_index(self, token: Seq<char>) -> int {
        choose|s: int| 0 <= s < self.sessions@.len() && self.sessions@[s].token@ == token
    }

    /// The ids registered under this token, in registration order; empty when
    /// the token has no membership entry.
    pub open spec fn members_of(self, token: Seq<char>) -> Seq<u64> {
        if self.has_session(token) {
            self.sessions@[self.session_index(token)].members@
        } else {
            Seq::<u64>::empty()
        }
    }

    /// The set of ids registered under this token.
    pub open spec fn member_set(self, token: Seq<char>) -> Set<u64> {
        self.members_of(token).to_set()
    }

    /// No two connection records share an id.
    pub open spec fn conn_ids_distinct(self) -> bool {
        forall|i: int, j: int|
            0 <= i < j < self.conns@.len() ==> (#[trigger] self.conns@[i].id) != (
            #[trigger] self.conns@[j].id)
    }

    /// No two membership entries share a token.
    pub open spec fn session_tokens_distinct(self) -> bool {
        forall|s: int, t: int|
            0 <= s < t < self.sessions@.len() ==> (#[trigger] self.sessions@[s].token@) != (
            #[trigger] self.sessions@[t].token@)
    }

    /// No id appears twice in one membership entry.
    pub open spec fn members_distinct(self) -> bool {
        forall|s: int, i: int, j: int|
            0 <= s < self.sessions@.len() && 0 <= i < j < self.sessions@[s].members@.len()
                ==> (#[trigger] self.sessions@[s].members@[i]) != (
            #[trigger] self.sessions@[s].members@[j])
    }

    /// Every id in a membership entry names a connection record that carries
    /// that entry's token: no dangling membership.
    pub open spec fn members_have_conns(self) -> bool {
        forall|s: int, i: int|
            0 <= s < self.sessions@.len() && 0 <= i < self.sessions@[s].members@.len() ==> {
                let id = #[trigger] self.sessions@[s].members@[i];
                self.has_conn(id) && self.conn(id).session_token@ == self.sessions@[s].token@
            }
    }

    /// Every connection record is listed in the membership entry of its own
    /// token: no unreachable connection.
    pub open spec fn conns_have_membership(self) -> bool {
        forall|i: int|
            0 <= i < self.conns@.len() ==> self.members_of(
                (#[trigger] self.conns@[i]).session_token@,
            ).contains(self.conns@[i].id)
    }

    /// A membership entry exists only while it has members.
    pub open spec fn no_empty_sessions(self) -> bool {
        forall|s: int|
            0 <= s < self.sessions@.len() ==> (#[trigger] self.sessions@[s].members@).len() > 0
    }

    /// Every allocated id is below the allocation counter, so a fresh id is
    /// never in use.
    pub open spec fn ids_bounded(self) -> bool {
        forall|i: int| 0 <= i < self.conns@.len() ==> (#[trigger] self.conns@[i].id) < self.next_id
    }

    /// Well-formedness of the registry: the two maps are consistent with each
    /// other in both directions, keys are unique, no membership entry is
    /// empty, and the id counter is ahead of every allocated id.
    pub open spec fn wf(self) -> bool {
        &&& self.conn_ids_distinct()
        &&& self.session_tokens_distinct()
        &&& self.members_distinct()
        &&& self.members_have_conns()
        &&& self.conns_have_membership()
        &&& self.no_empty_sessions()
        &&& self.ids_bounded()
    }

    /// A registry with no connections and no sessions.
    pub fn new() -> (r: WebSocketManager)
        ensures
            r.wf(),
            r.conns@.len() == 0,
            r.sessions@.len() == 0,
            r.next_id == 0,
    {
        WebSocketManager { next_id: 0, conns: Vec::new(), sessions: Vec::new() }
    }

    /// With distinct ids, any position holding `id` is the position `conn_index`
    /// picks.
    pub proof fn lemma_conn_index_is(self, i: int)
        requires
            self.conn_ids_distinct(),
            0 <= i < self.conns@.len(),
        ensures
            self.has_conn(self.conns@[i].id),
            self.conn_index(self.conns@[i].id) == i,
            self.conn(self.conns@[i].id) == self.conns@[i],
    {
        let id = self.conns@[i].id;
        assert(self.has_conn(id));
        let j = self.conn_index(id);
        if i != j {
            assert(self.conns@[i].id != self.conns@[j].id);
        }
    }

    /// With distinct tokens, any position holding `token` is the position
    /// `session_index` picks.
    pub proof fn lemma_session_index_is(self, s: int)
        requires
            self.session_tokens_distinct(),
            0 <= s < self.sessions@.len(),
        ensures
            self.has_session(self.sessions@[s].token@),
            self.session_index(self.sessions@[s].token@) == s,
    {
        let token = self.sessions@[s].token@;
        assert(self.has_session(token));
        let t = self.session_index(token);
        if s != t {
            assert(self.sessions@[s].token@ != self.sessions@[t].token@);
        }
    }

    /// Appending a record with a fresh id leaves every existing record where
    /// it was and keeps ids distinct.
    proof fn lemma_conns_push(pre: WebSocketManager, post: WebSocketManager, c: Connection)
        requires
            pre.conn_ids_distinct(),
            forall|i: int| 0 <= i < pre.conns@.len() ==> (#[trigger] pre.conns@[i].id) != c.id,
            post.conns@ == pre.conns@.push(c),
        ensures
            post.conn_ids_distinct(),
            post.has_conn(c.id),
            post.conn_index(c.id) == pre.conns@.len(),
            post.conn(c.id) == c,
            forall|id: u64|
                #[trigger] pre.has_conn(id) ==> post.has_conn(id) && post.conn_index(id)
                    == pre.conn_index(id) && post.conn(id) == pre.conn(id),
            forall|id: u64| #[trigger] post.has_conn(id) ==> pre.has_conn(id) || id == c.id,
    {
        assert(post.conns@[pre.conns@.len() as int] == c);
        assert(post.conn_ids_distinct());
        post.lemma_conn_index_is(pre.conns@.len() as int);
        assert forall|id: u64| #[trigger] pre.has_conn(id) implies post.has_conn(id)
            && post.conn_index(id) == pre.conn_index(id) && post.conn(id) == pre.conn(id) by {
            let i = pre.conn_index(id);
            assert(post.conns@[i] == pre.conns@[i]);
            post.lemma_conn_index_is(i);
        }
        assert forall|id: u64| #[trigger] post.has_conn(id) implies pre.has_conn(id) || id == c.id
            by {
            let i = post.conn_index(id);
            if i < pre.conns@.len() {
                assert(pre.conns@[i].id == id);
            }
        }
    }

    /// Replacing one membership entry by another with the same token changes
    /// nothing about any other token.
    proof fn lemma_sessions_update(pre: WebSocketManager, post: WebSocketManager, s: int)
        requires
            pre.session_tokens_distinct(),
            0 <= s < pre.sessions@.len(),
            post.sessions@.len() == pre.sessions@.len(),
            forall|t: int|
                0 <= t < pre.sessions@.len() && t != s ==> #[trigger] post.sessions@[t]
                    == pre.sessions@[t],
            post.sessions@[s].token@ == pre.sessions@[s].token@,
        ensures
            post.session_tokens_distinct(),
            forall|tok: Seq<char>| #[trigger] post.has_session(tok) <==> pre.has_session(tok),
            forall|tok: Seq<char>|
                pre.has_session(tok) ==> #[trigger] post.session_index(tok) == pre.session_index(
                    tok,
                ),
            post.members_of(pre.sessions@[s].token@) == post.sessions@[s].members@,
            forall|tok: Seq<char>|
                tok != pre.sessions@[s].token@ ==> #[trigger] post.members_of(tok)
                    == pre.members_of(tok),
    {
        assert forall|t: int| 0 <= t < post.sessions@.len() implies #[trigger] post.sessions@[t].token@
            == pre.sessions@[t].token@ by {}
        assert(post.session_tokens_distinct());
        assert forall|tok: Seq<char>| #[trigger] post.has_session(tok) <==> pre.has_session(tok) by {
            if pre.has_session(tok) {
                let t = pre.session_index(tok);
                assert(post.sessions@[t].token@ == tok);
            }
            if post.has_session(tok) {
                let t = post.session_index(tok);
                assert(pre.sessions@[t].token@ == tok);
            }
        }
        assert forall|tok: Seq<char>| pre.has_session(tok) implies #[trigger] post.session_index(
            tok,
        ) == pre.session_index(tok) by {
            let t = pre.session_index(tok);
            assert(post.sessions@[t].token@ == tok);
            post.lemma_session_index_is(t);
        }
        pre.lemma_session_index_is(s);
        post.lemma_session_index_is(s);
    }

    /// Appending a membership entry for a token that had none leaves every
    /// other token's membership as it was.
    proof fn lemma_sessions_push(pre: WebSocketManager, post: WebSocketManager, e: SessionEntry)
        requires
            pre.session_tokens_distinct(),
            !pre.has_session(e.token@),
            post.sessions@ == pre.sessions@.push(e),
        ensures
            post.session_tokens_distinct(),
            post.has_session(e.token@),
            post.session_index(e.token@) == pre.sessions@.len(),
            post.members_of(e.token@) == e.members@,
            forall|tok: Seq<char>|
                tok != e.token@ ==> ((#[trigger] post.has_session(tok) <==> pre.has_session(tok))
                    && post.members_of(tok) == pre.members_of(tok) && (pre.has_session(tok)
                    ==> post.session_index(tok) == pre.session_index(tok))),
    {
        assert(post.sessions@[pre.sessions@.len() as int] == e);
        assert forall|s: int, t: int|
            0 <= s < t < post.sessions@.len() implies (#[trigger] post.sessions@[s].token@) != (
        #[trigger] post.sessions@[t].token@) by {
            if t < pre.sessions@.len() {
                assert(pre.sessions@[s].token@ != pre.sessions@[t].token@);
            } else {
                assert(pre.sessions@[s].token@ != e.token@);
            }
        }
        post.lemma_session_index_is(pre.sessions@.len() as int);
        assert forall|tok: Seq<char>| tok != e.token@ implies ((#[trigger] post.has_session(tok)
            <==> pre.has_session(tok)) && post.members_of(tok) == pre.members_of(tok) && (
        pre.has_session(tok) ==> post.session_index(tok) == pre.session_index(tok))) by {
            if pre.has_session(tok) {
                let t = pre.session_index(tok);
                assert(post.sessions@[t].token@ == tok);
                post.lemma_session_index_is(t);
            }
            if post.has_session(tok) {
                let t = post.session_index(tok);
                assert(t < pre.sessions@.len());
                assert(pre.sessions@[t].token@ == tok);
            }
        }
    }

    /// The membership list of a token that has an entry is that entry's list.
    proof fn lemma_members_of_entry(self, s: int)
        requires
            self.session_tokens_distinct(),
            0 <= s < self.sessions@.len(),
        ensures
            self.has_session(self.sessions@[s].token@),
            self.members_of(self.sessions@[s].token@) == self.sessions@[s].members@,
    {
        self.lemma_session_index_is(s);
    }

    /// A nonempty membership list means the token has an entry.
    proof fn lemma_members_of_nonempty(self, token: Seq<char>)
        requires
            self.members_of(token).len() > 0,
        ensures
            self.has_session(token),
    {
    }

    /// Well-formedness carries over registration: the appended record has a
    /// fresh id and the given token, and only that token's membership grew,
    /// by exactly that id.
    proof fn lemma_register_wf(pre: WebSocketManager, post: WebSocketManager, token: Seq<char>, id: u64)
        requires
            pre.wf(),
            id == pre.next_id,
            post.next_id == pre.next_id + 1,
            post.conns@.len() == pre.conns@.len() + 1,
            post.conns@ == pre.conns@.push(post.conns@.last()),
            post.conns@.last().id == id,
            post.conns@.last().session_token@ == token,
            post.session_tokens_distinct(),
            post.has_session(token),
            forall|tok: Seq<char>|
                #[trigger] post.has_session(tok) ==> pre.has_session(tok) || tok == token,
            post.members_of(token) == pre.members_of(token).push(id),
            forall|tok: Seq<char>|
                tok != token ==> #[trigger] post.members_of(tok) == pre.members_of(tok),
        ensures
            post.wf(),
    {
        let c = post.conns@.last();
        assert forall|i: int| 0 <= i < pre.conns@.len() implies (#[trigger] pre.conns@[i].id)
            != c.id by {}
        Self::lemma_conns_push(pre, post, c);
        assert(post.ids_bounded());
        // every member of every entry is a fresh or carried-over connection
        // with the entry's token
        assert forall|s: int, i: int|
            0 <= s < post.sessions@.len() && 0 <= i < post.sessions@[s].members@.len() implies
            post.has_conn(#[trigger] post.sessions@[s].members@[i]) && post.conn(
            post.sessions@[s].members@[i],
        ).session_token@ == post.sessions@[s].token@ by {
            let tok = post.sessions@[s].token@;
            post.lemma_members_of_entry(s);
            let m = post.sessions@[s].members@[i];
            let pm = pre.members_of(tok);
            if tok == token {
                if i < pm.len() {
                    assert(pm[i] == m);
                } else {
                    assert(m == id);
                }
            } else {
                assert(pm[i] == m);
            }
            if m == id {
                assert(post.conn(m) == c);
                if tok != token {
                    // a fresh id cannot already be a member anywhere
                    assert(pm.contains(m));
                    pre.lemma_members_of_nonempty(tok);
                    let ps = pre.session_index(tok);
                    let k = choose|k: int| 0 <= k < pm.len() && pm[k] == m;
                    assert(pre.sessions@[ps].members@[k] == m);
                    assert(pre.has_conn(m));
                    assert(pre.conns@[pre.conn_index(m)].id < pre.next_id);
                    assert(false);
                }
            } else {
                assert(pm.contains(m));
                pre.lemma_members_of_nonempty(tok);
                let ps = pre.session_index(tok);
                let k = choose|k: int| 0 <= k < pm.len() && pm[k] == m;
                assert(pre.sessions@[ps].members@[k] == m);
                assert(pre.has_conn(m) && pre.conn(m).session_token@ == tok);
            }
        }
        assert(post.members_have_conns());
        // every connection is still listed under its token
        assert forall|i: int| 0 <= i < post.conns@.len() implies post.members_of(
            (#[trigger] post.conns@[i]).session_token@,
        ).contains(post.conns@[i].id) by {
            if i < pre.conns@.len() {
                let t = pre.conns@[i].session_token@;
                assert(pre.members_of(t).contains(pre.conns@[i].id));
                if t == token {
                    let pm = pre.members_of(token);
                    let k = choose|k: int| 0 <= k < pm.len() && pm[k] == pre.conns@[i].id;
                    assert(post.members_of(token)[k] == pre.conns@[i].id);
                } else {
                    assert(post.members_of(t) == pre.members_of(t));
                }
            } else {
                assert(post.conns@[i] == c);
                assert(post.members_of(token).last() == id);
            }
        }
        assert(post.conns_have_membership());
        // member lists stay duplicate-free and nonempty
        assert forall|s: int, i: int, j: int|
            0 <= s < post.sessions@.len() && 0 <= i < j < post.sessions@[s].members@.len() implies (
        #[trigger] post.sessions@[s].members@[i]) != (#[trigger] post.sessions@[s].members@[j]) by {
            let tok = post.sessions@[s].token@;
            post.lemma_members_of_entry(s);
            let pm = pre.members_of(tok);
            if tok == token && j == pm.len() {
                // the new last element is the fresh id, not an old member
                let m = post.sessions@[s].members@[i];
                assert(pm[i] == m);
                pre.lemma_members_of_nonempty(tok);
                let ps = pre.session_index(tok);
                assert(pre.sessions@[ps].members@[i] == m);
                assert(pre.has_conn(m));
                assert(pre.conns@[pre.conn_index(m)].id < pre.next_id);
            } else {
                let ps = pre.session_index(tok);
                pre.lemma_members_of_nonempty(tok);
                assert(pre.sessions@[ps].members@[i] == post.sessions@[s].members@[i]);
                assert(pre.sessions@[ps].members@[j] == post.sessions@[s].members@[j]);
            }
        }
        assert(post.members_distinct());
        assert forall|s: int| 0 <= s < post.sessions@.len() implies (
        #[trigger] post.sessions@[s].members@).len() > 0 by {
            let tok = post.sessions@[s].token@;
            post.lemma_members_of_entry(s);
            if tok != token {
                let ps = pre.session_index(tok);
                assert(pre.sessions@[ps].members@.len() > 0);
            }
        }
        assert(post.no_empty_sessions());
    }

    /// What `register` does: a connection record with a fresh id, the given
    /// token, heartbeat `now` and an empty outbox is appended, the id is
    /// appended to the token's membership (the entry is created if absent),
    /// and nothing else changes.
    pub open spec fn register_post(
        pre: WebSocketManager,
        post: WebSocketManager,
        token: Seq<char>,
        now: u64,
        id: u64,
    ) -> bool {
        &&& id == pre.next_id
        &&& !pre.has_conn(id)
        &&& post.next_id == pre.next_id + 1
        &&& post.conns@.len() == pre.conns@.len() + 1
        &&& post.conns@ == pre.conns@.push(post.conns@.last())
        &&& post.conns@.last().id == id
        &&& post.conns@.last().session_token@ == token
        &&& post.conns@.last().last_heartbeat == now
        &&& post.conns@.last().outbox@.len() == 0
        &&& post.has_conn(id)
        &&& post.conn(id) == post.conns@.last()
        &&& post.members_of(token) == pre.members_of(token).push(id)
        &&& forall|t: Seq<char>|
            t != token ==> #[trigger] post.members_of(t) == pre.members_of(t)
        &&& forall|c: u64|
            #[trigger] pre.has_conn(c) ==> post.has_conn(c) && post.conn_index(c)
                == pre.conn_index(c) && post.conn(c) == pre.conn(c)
    }

    /// Registers a new connection under `session_token` with heartbeat `now`:
    /// allocates a fresh connection id, inserts the record, and adds the id
    /// to the session's membership, creating the entry if it was absent.
    pub fn register(&mut self, session_token: &str, now: u64) -> (id: u64)
        requires
            old(self).wf(),
            old(self).next_id < u64::MAX,
        ensures
            final(self).wf(),
            Self::register_post(*old(self), *final(self), session_token@, now, id),
    {
        let ghost pre = *self;
        let id = self.next_id;
        self.next_id = id + 1;
        let conn = Connection {
            id,
            session_token: session_token.to_owned(),
            last_heartbeat: now,
            outbox: Vec::new(),
        };
        self.conns.push(conn);
        let ghost mid = *self;
        proof {
            assert forall|i: int| 0 <= i < pre.conns@.len() implies (#[trigger] pre.conns@[i].id)
                != id by {}
            Self::lemma_conns_push(pre, mid, mid.conns@.last());
        }
        match self.find_session(session_token) {
            Some(s) => {
                let mut entry = self.sessions.remove(s);
                proof {
                    // the new id is not already a member: members are
                    // existing connection ids, all below the old counter
                    assert forall|i: int| 0 <= i < entry.members@.len() implies (
                    #[trigger] entry.members@[i]) != id by {
                        assert(pre.sessions@[s as int].members@[i] == entry.members@[i]);
                        assert(pre.has_conn(entry.members@[i]) && pre.conn(
                            entry.members@[i],
                        ).session_token@ == pre.sessions@[s as int].token@);
                        let ci = pre.conn_index(entry.members@[i]);
                        assert(pre.conns@[ci].id < pre.next_id);
                    }
                }
                entry.members.push(id);
                self.sessions.insert(s, entry);
                proof {
                    assert forall|t: int|
                        0 <= t < pre.sessions@.len() && t != s implies #[trigger] self.sessions@[t]
                        == pre.sessions@[t] by {}
                    Self::lemma_sessions_update(mid, *self, s as int);
                    pre.lemma_members_of_entry(s as int);
                    assert(self.members_of(session_token@) == pre.members_of(
                        session_token@,
                    ).push(id));
                    Self::lemma_register_wf(pre, *self, session_token@, id);
                    Self::lemma_conns_push(pre, *self, self.conns@.last());
                }
            },
            None => {
                let mut members: Vec<u64> = Vec::new();
                members.push(id);
                self.sessions.push(SessionEntry { token: session_token.to_owned(), members });
                proof {
                    Self::lemma_sessions_push(mid, *self, self.sessions@.last());
                    assert(self.members_of(session_token@) =~= pre.members_of(
                        session_token@,
                    ).push(id));
                    Self::lemma_register_wf(pre, *self, session_token@, id);
                    Self::lemma_conns_push(pre, *self, self.conns@.last());
                }
            },
        }
        id
    }

    /// Removing one record leaves every other record reachable under its id,
    /// and the removed id unreachable.
    proof fn lemma_conns_remove(pre: WebSocketManager, post: WebSocketManager, r: int)
        requires
            pre.conn_ids_distinct(),
            0 <= r < pre.conns@.len(),
            post.conns@ == pre.conns@.remove(r),
        ensures
            post.conn_ids_distinct(),
            !post.has_conn(pre.conns@[r].id),
            forall|id: u64|
                #[trigger] pre.has_conn(id) && id != pre.conns@[r].id ==> post.has_conn(id)
                    && post.conn(id) == pre.conn(id),
            forall|id: u64| #[trigger] post.has_conn(id) ==> pre.has_conn(id) && id != pre.conns@[r].id,
    {
        assert forall|j: int| 0 <= j < post.conns@.len() implies #[trigger] post.conns@[j] == (
        if j < r {
            pre.conns@[j]
        } else {
            pre.conns@[j + 1]
        }) by {}
        assert(post.conn_ids_distinct());
        assert forall|id: u64| #[trigger] post.has_conn(id) implies pre.has_conn(id) && id
            != pre.conns@[r].id by {
            let j = post.conn_index(id);
            let i = if j < r { j } else { j + 1 };
            assert(pre.conns@[i].id == id);
            if id == pre.conns@[r].id {
                assert(pre.conns@[i].id == pre.conns@[r].id && i != r);
            }
        }
        assert forall|id: u64| #[trigger] pre.has_conn(id) && id != pre.conns@[r].id implies
            post.has_conn(id) && post.conn(id) == pre.conn(id) by {
            let i = pre.conn_index(id);
            let j = if i < r { i } else { i - 1 };
            assert(i != r);
            assert(post.conns@[j] == pre.conns@[i]);
            post.lemma_conn_index_is(j);
        }
    }

    /// Removing one membership entry leaves every other token's entry and
    /// membership as it was, and the removed token without an entry.
    proof fn lemma_sessions_remove(pre: WebSocketManager, post: WebSocketManager, r: int)
        requires
            pre.session_tokens_distinct(),
            0 <= r < pre.sessions@.len(),
            post.sessions@ == pre.sessions@.remove(r),
        ensures
            post.session_tokens_distinct(),
            !post.has_session(pre.sessions@[r].token@),
            forall|tok: Seq<char>|
                tok != pre.sessions@[r].token@ ==> ((#[trigger] post.has_session(tok)
                    <==> pre.has_session(tok)) && post.members_of(tok) == pre.members_of(tok)),
    {
        assert forall|j: int| 0 <= j < post.sessions@.len() implies #[trigger] post.sessions@[j]
            == (if j < r {
            pre.sessions@[j]
        } else {
            pre.sessions@[j + 1]
        }) by {}
        assert(post.session_tokens_distinct());
        assert forall|j: int| 0 <= j < post.sessions@.len() implies #[trigger] post.sessions@[j].token@
            != pre.sessions@[r].token@ by {
            let i = if j < r { j } else { j + 1 };
            assert(pre.sessions@[i].token@ != pre.sessions@[r].token@);
        }
        assert forall|tok: Seq<char>|
            tok != pre.sessions@[r].token@ implies ((#[trigger] post.has_session(tok)
            <==> pre.has_session(tok)) && post.members_of(tok) == pre.members_of(tok)) by {
            if pre.has_session(tok) {
                let i = pre.session_index(tok);
                let j = if i < r { i } else { i - 1 };
                assert(i != r);
                assert(post.sessions@[j] == pre.sessions@[i]);
                post.lemma_session_index_is(j);
                pre.lemma_session_index_is(i);
            } else {
                if post.has_session(tok) {
                    let j = post.session_index(tok);
                    let i = if j < r { j } else { j + 1 };
                    assert(pre.sessions@[i].token@ == tok);
                }
            }
        }
    }

    /// Removing one position from a duplicate-free sequence removes exactly
    /// that element from its set of values.
    proof fn lemma_distinct_remove(s: Seq<u64>, k: int)
        requires
            0 <= k < s.len(),
            forall|i: int, j: int| 0 <= i < j < s.len() ==> s[i] != s[j],
        ensures
            forall|i: int, j: int|
                0 <= i < j < s.remove(k).len() ==> s.remove(k)[i] != s.remove(k)[j],
            !s.remove(k).contains(s[k]),
            forall|x: u64| x != s[k] ==> (#[trigger] s.remove(k).contains(x) <==> s.contains(x)),
            s.remove(k).to_set() == s.to_set().remove(s[k]),
    {
        let t = s.remove(k);
        assert forall|j: int| 0 <= j < t.len() implies #[trigger] t[j] == (if j < k {
            s[j]
        } else {
            s[j + 1]
        }) by {}
        assert(!t.contains(s[k])) by {
            if t.contains(s[k]) {
                let j = choose|j: int| 0 <= j < t.len() && t[j] == s[k];
                let i = if j < k { j } else { j + 1 };
                assert(s[i] == s[k] && i != k);
            }
        }
        assert forall|x: u64| x != s[k] implies (#[trigger] t.contains(x) <==> s.contains(x)) by {
            if t.contains(x) {
                let j = choose|j: int| 0 <= j < t.len() && t[j] == x;
                let i = if j < k { j } else { j + 1 };
                assert(s[i] == x);
            }
            if s.contains(x) {
                let i = choose|i: int| 0 <= i < s.len() && s[i] == x;
                assert(i != k);
                let j = if i < k { i } else { i - 1 };
                assert(t[j] == x);
            }
        }
        assert(t.to_set() =~= s.to_set().remove(s[k]));
    }

    /// Well-formedness carries over unregistration: one record left, its id
    /// left its token's membership, and nothing else moved.
    proof fn lemma_unregister_wf(pre: WebSocketManager, post: WebSocketManager, conn_id: u64, cidx: int)
        requires
            pre.wf(),
            0 <= cidx < pre.conns@.len(),
            pre.conns@[cidx].id == conn_id,
            post.next_id == pre.next_id,
            post.conns@ == pre.conns@.remove(cidx),
            post.session_tokens_distinct(),
            forall|t: Seq<char>|
                t != pre.conns@[cidx].session_token@ ==> ((#[trigger] post.has_session(t)
                    <==> pre.has_session(t)) && post.members_of(t) == pre.members_of(t)),
            !post.members_of(pre.conns@[cidx].session_token@).contains(conn_id),
            forall|x: u64|
                x != conn_id ==> (#[trigger] post.members_of(
                    pre.conns@[cidx].session_token@,
                ).contains(x) <==> pre.members_of(pre.conns@[cidx].session_token@).contains(x)),
            forall|i: int, j: int|
                0 <= i < j < post.members_of(pre.conns@[cidx].session_token@).len()
                    ==> post.members_of(pre.conns@[cidx].session_token@)[i] != post.members_of(
                    pre.conns@[cidx].session_token@,
                )[j],
            post.has_session(pre.conns@[cidx].session_token@) ==> post.members_of(
                pre.conns@[cidx].session_token@,
            ).len() > 0,
        ensures
            post.wf(),
    {
        let tok = pre.conns@[cidx].session_token@;
        Self::lemma_conns_remove(pre, post, cidx);
        pre.lemma_conn_index_is(cidx);
        assert(post.ids_bounded()) by {
            assert forall|j: int| 0 <= j < post.conns@.len() implies (#[trigger] post.conns@[j].id)
                < post.next_id by {
                if j < cidx {
                    assert(post.conns@[j] == pre.conns@[j]);
                } else {
                    assert(post.conns@[j] == pre.conns@[j + 1]);
                }
            }
        }
        assert forall|s: int, i: int|
            0 <= s < post.sessions@.len() && 0 <= i < post.sessions@[s].members@.len() implies
            post.has_conn(#[trigger] post.sessions@[s].members@[i]) && post.conn(
            post.sessions@[s].members@[i],
        ).session_token@ == post.sessions@[s].token@ by {
            let tok_s = post.sessions@[s].token@;
            post.lemma_members_of_entry(s);
            let m = post.sessions@[s].members@[i];
            assert(post.members_of(tok_s).contains(m));
            if tok_s == tok {
                assert(m != conn_id);
                assert(pre.members_of(tok).contains(m));
            }
            assert(pre.members_of(tok_s).contains(m));
            pre.lemma_members_of_nonempty(tok_s);
            let ps = pre.session_index(tok_s);
            let pk = choose|pk: int|
                0 <= pk < pre.members_of(tok_s).len() && pre.members_of(tok_s)[pk] == m;
            assert(pre.sessions@[ps].members@[pk] == m);
            assert(pre.has_conn(m) && pre.conn(m).session_token@ == tok_s);
            if m == conn_id {
                assert(pre.conn(conn_id).session_token@ == tok);
                assert(tok_s == tok);
                assert(false);
            }
        }
        assert(post.members_have_conns());
        assert forall|i: int| 0 <= i < post.conns@.len() implies post.members_of(
            (#[trigger] post.conns@[i]).session_token@,
        ).contains(post.conns@[i].id) by {
            let c = post.conns@[i];
            if i < cidx {
                assert(c == pre.conns@[i]);
            } else {
                assert(c == pre.conns@[i + 1]);
            }
            assert(pre.members_of(c.session_token@).contains(c.id));
            assert(c.id != conn_id);
            if c.session_token@ == tok {
                assert(post.members_of(tok).contains(c.id));
            }
        }
        assert(post.conns_have_membership());
        assert forall|s: int, i: int, j: int|
            0 <= s < post.sessions@.len() && 0 <= i < j < post.sessions@[s].members@.len() implies (
        #[trigger] post.sessions@[s].members@[i]) != (#[trigger] post.sessions@[s].members@[j]) by {
            let tok_s = post.sessions@[s].token@;
            post.lemma_members_of_entry(s);
            if tok_s != tok {
                pre.lemma_members_of_nonempty(tok_s);
                let ps = pre.session_index(tok_s);
                assert(pre.sessions@[ps].members@[i] != pre.sessions@[ps].members@[j]);
            }
        }
        assert(post.members_distinct());
        assert forall|s: int| 0 <= s < post.sessions@.len() implies (
        #[trigger] post.sessions@[s].members@).len() > 0 by {
            let tok_s = post.sessions@[s].token@;
            post.lemma_members_of_entry(s);
            if tok_s != tok {
                assert(pre.has_session(tok_s));
                let ps = pre.session_index(tok_s);
                assert(pre.sessions@[ps].members@.len() > 0);
            }
        }
        assert(post.no_empty_sessions());
    }

    /// What `unregister` does: when the id is unknown nothing changes; when it
    /// is known, its record is removed, the id leaves its session's
    /// membership, the entry disappears exactly when that id was its last
    /// member, and every other connection and session is untouched.
    pub open spec fn unregister_post(
        pre: WebSocketManager,
        post: WebSocketManager,
        conn_id: u64,
    ) -> bool {
        &&& post.next_id == pre.next_id
        &&& !post.has_conn(conn_id)
        &&& (!pre.has_conn(conn_id) ==> post == pre)
        &&& (pre.has_conn(conn_id) ==> {
            &&& post.conns@ == pre.conns@.remove(pre.conn_index(conn_id))
            &&& forall|id: u64|
                #[trigger] pre.has_conn(id) && id != conn_id ==> post.has_conn(id) && post.conn(id)
                    == pre.conn(id)
            &&& forall|id: u64| #[trigger] post.has_conn(id) ==> pre.has_conn(id) && id != conn_id
            &&& (post.has_session(pre.token_of(conn_id)) <==> pre.members_of(
                pre.token_of(conn_id),
            ).len() > 1)
            &&& post.member_set(pre.token_of(conn_id)) == pre.member_set(
                pre.token_of(conn_id),
            ).remove(conn_id)
            &&& forall|t: Seq<char>|
                t != pre.token_of(conn_id) ==> ((#[trigger] post.has_session(t)
                    <==> pre.has_session(t)) && post.members_of(t) == pre.members_of(t))
        })
    }

    /// Removes a connection: deletes its record, removes its id from its
    /// session's membership, and drops the membership entry when it becomes
    /// empty. Unregistering an unknown id is a no-op, not an error.
    #[verifier::rlimit(60)]
    #[verifier::spinoff_prover]
    pub fn unregister(&mut self, conn_id: u64)
        requires
            old(self).wf(),
        ensures
            final(self).wf(),
            Self::unregister_post(*old(self), *final(self), conn_id),
    {
        let ghost pre = *self;
        let cidx = match self.find_conn(conn_id) {
            Some(i) => i,
            None => {
                return ;
            },
        };
        let conn = self.conns.remove(cidx);
        let ghost mid = *self;
        proof {
            Self::lemma_conns_remove(pre, mid, cidx as int);
        }
        let sidx = match self.find_session(conn.session_token.as_str()) {
            Some(s) => s,
            None => {
                proof {
                    // the record's token always has a membership entry
                    assert(pre.members_of(conn.session_token@).contains(conn_id));
                    assert(false);
                }
                return ;
            },
        };
        let mut entry = self.sessions.remove(sidx);
        let ghost sess_removed = *self;
        let k = match Self::find_member(&entry.members, conn_id) {
            Some(k) => k,
            None => {
                proof {
                    assert(pre.members_of(conn.session_token@).contains(conn_id));
                    assert(pre.sessions@[sidx as int].members@ == entry.members@);
                    assert(false);
                }
                return ;
            },
        };
        let ghost members0 = entry.members@;
        entry.members.remove(k);
        proof {
            assert forall|i: int, j: int| 0 <= i < j < members0.len() implies members0[i]
                != members0[j] by {
                assert(pre.sessions@[sidx as int].members@ == members0);
            }
            Self::lemma_distinct_remove(members0, k as int);
        }
        if entry.members.len() > 0 {
            self.sessions.insert(sidx, entry);
            proof {
                assert forall|t: int|
                    0 <= t < pre.sessions@.len() && t != sidx implies #[trigger] self.sessions@[t]
                    == pre.sessions@[t] by {}
                Self::lemma_sessions_update(mid, *self, sidx as int);
                pre.lemma_members_of_entry(sidx as int);
                Self::lemma_unregister_wf(pre, *self, conn_id, cidx as int);
                assert(self.member_set(conn.session_token@) =~= pre.member_set(
                    conn.session_token@,
                ).remove(conn_id));
                assert(Self::unregister_post(pre, *self, conn_id));
            }
        } else {
            proof {
                Self::lemma_sessions_remove(mid, *self, sidx as int);
                pre.lemma_members_of_entry(sidx as int);
                assert(pre.members_of(conn.session_token@).len() == 1);
                assert(self.member_set(conn.session_token@) =~= pre.member_set(
                    conn.session_token@,
                ).remove(conn_id)) by {
                    assert(members0.remove(k as int).len() == 0);
                    assert(!self.has_session(conn.session_token@));
                }
                Self::lemma_unregister_wf(pre, *self, conn_id, cidx as int);
                assert(Self::unregister_post(pre, *self, conn_id));
            }
        }
    }

    /// Changing connection records in place — same ids, same tokens, at the
    /// same positions — preserves well-formedness and every lookup.
    proof fn lemma_conns_pointwise(pre: WebSocketManager, post: WebSocketManager)
        requires
            pre.wf(),
            post.sessions@ == pre.sessions@,
            post.conns@.len() == pre.conns@.len(),
            forall|i: int|
                0 <= i < pre.conns@.len() ==> (#[trigger] post.conns@[i]).id == pre.conns@[i].id
                    && post.conns@[i].session_token@ == pre.conns@[i].session_token@,
            post.next_id == pre.next_id,
        ensures
            post.wf(),
            forall|id: u64| #[trigger] post.has_conn(id) <==> pre.has_conn(id),
            forall|id: u64|
                #[trigger] pre.has_conn(id) ==> post.conn_index(id) == pre.conn_index(id),
            forall|tok: Seq<char>| #[trigger] post.members_of(tok) == pre.members_of(tok),
            forall|tok: Seq<char>| #[trigger] post.has_session(tok) <==> pre.has_session(tok),
    {
        assert(post.conn_ids_distinct());
        assert(post.ids_bounded());
        assert forall|tok: Seq<char>| #[trigger] post.has_session(tok) <==> pre.has_session(tok) by {}
        assert forall|tok: Seq<char>| #[trigger] post.members_of(tok) == pre.members_of(tok) by {
            if pre.has_session(tok) {
                assert(post.has_session(tok));
                assert(post.session_index(tok) == pre.session_index(tok));
            }
        }
        assert forall|id: u64| #[trigger] pre.has_conn(id) implies post.has_conn(id)
            && post.conn_index(id) == pre.conn_index(id) by {
            let i = pre.conn_index(id);
            assert(post.conns@[i].id == id);
            post.lemma_conn_index_is(i);
        }
        assert forall|id: u64| #[trigger] post.has_conn(id) implies pre.has_conn(id) by {
            let i = post.conn_index(id);
            assert(pre.conns@[i].id == id);
        }
        assert forall|s: int, i: int|
            0 <= s < post.sessions@.len() && 0 <= i < post.sessions@[s].members@.len() implies
            post.has_conn(#[trigger] post.sessions@[s].members@[i]) && post.conn(
            post.sessions@[s].members@[i],
        ).session_token@ == post.sessions@[s].token@ by {
            let m = post.sessions@[s].members@[i];
            assert(pre.sessions@[s].members@[i] == m);
            assert(pre.has_conn(m) && pre.conn(m).session_token@ == pre.sessions@[s].token@);
            let ci = pre.conn_index(m);
            post.lemma_conn_index_is(ci);
            assert(post.conns@[ci].session_token@ == pre.conns@[ci].session_token@);
        }
        assert(post.members_have_conns());
        assert forall|i: int| 0 <= i < post.conns@.len() implies post.members_of(
            (#[trigger] post.conns@[i]).session_token@,
        ).contains(post.conns@[i].id) by {
            assert(pre.members_of(pre.conns@[i].session_token@).contains(pre.conns@[i].id));
        }
        assert(post.conns_have_membership());
        assert(post.members_distinct());
        assert(post.no_empty_sessions());
    }

    /// Mapping a pushed sequence of frames to views pushes the view.
    proof fn lemma_views_push(v: Seq<Frame>, f: Frame)
        ensures
            v.push(f).map_values(|x: Frame| x@) == v.map_values(|x: Frame| x@).push(f@),
    {
        assert(v.push(f).map_values(|x: Frame| x@) =~= v.map_values(|x: Frame| x@).push(f@));
    }

    /// What `update_heartbeat` does: the record with this id — if any — now
    /// carries heartbeat `now`; everything else is untouched, and an unknown
    /// id changes nothing.
    pub open spec fn update_heartbeat_post(
        pre: WebSocketManager,
        post: WebSocketManager,
        conn_id: u64,
        now: u64,
    ) -> bool {
        &&& post.next_id == pre.next_id
        &&& post.sessions@ == pre.sessions@
        &&& post.conns@.len() == pre.conns@.len()
        &&& forall|i: int|
            0 <= i < pre.conns@.len() && (#[trigger] pre.conns@[i]).id != conn_id
                ==> post.conns@[i] == pre.conns@[i]
        &&& forall|i: int|
            0 <= i < pre.conns@.len() && (#[trigger] pre.conns@[i]).id == conn_id ==> {
                &&& post.conns@[i].id == pre.conns@[i].id
                &&& post.conns@[i].session_token == pre.conns@[i].session_token
                &&& post.conns@[i].outbox == pre.conns@[i].outbox
                &&& post.conns@[i].last_heartbeat == now
            }
        &&& forall|c: u64| #[trigger] post.has_conn(c) <==> pre.has_conn(c)
        &&& forall|c: u64|
            #[trigger] pre.has_conn(c) && c != conn_id ==> post.conn(c) == pre.conn(c)
        &&& (pre.has_conn(conn_id) ==> {
            &&& post.conn(conn_id).id == conn_id
            &&& post.conn(conn_id).session_token == pre.conn(conn_id).session_token
            &&& post.conn(conn_id).outbox == pre.conn(conn_id).outbox
            &&& post.conn(conn_id).last_heartbeat == now
        })
    }

    /// Refreshes the last-heartbeat timestamp of a connection to `now`; a
    /// no-op if the id is unknown (already closed).
    pub fn update_heartbeat(&mut self, conn_id: u64, now: u64)
        requires
            old(self).wf(),
        ensures
            final(self).wf(),
            Self::update_heartbeat_post(*old(self), *final(self), conn_id, now),
    {
        let ghost pre = *self;
        match self.find_conn(conn_id) {
            Some(i) => {
                let mut c = self.conns.remove(i);
                c.last_heartbeat = now;
                self.conns.insert(i, c);
                proof {
                    assert(self.conns@ =~= pre.conns@.update(i as int, self.conns@[i as int]));
                    Self::lemma_conns_pointwise(pre, *self);
                    assert forall|c: u64| #[trigger] pre.has_conn(c) && c != conn_id implies
                        self.conn(c) == pre.conn(c) by {
                        let ci = pre.conn_index(c);
                        if ci == i as int {
                            assert(pre.conns@[ci].id == conn_id);
                        }
                        assert(self.conns@[ci] == pre.conns@[ci]);
                    }
                }
            },
            None => {},
        }
    }

    /// How one targeted record changes under delivery: the message's value is
    /// appended to its outbound queue and nothing else about it moves.
    pub open spec fn delivered_conn(c0: Connection, c1: Connection, m: FrameView) -> bool {
        &&& c1.id == c0.id
        &&& c1.session_token == c0.session_token
        &&& c1.last_heartbeat == c0.last_heartbeat
        &&& c1.outbox_views() == c0.outbox_views().push(m)
    }

    /// What `deliver_to_session` does: the message is appended exactly once to
    /// the queue of every connection under the token except the excluded one,
    /// every other record is untouched, and membership does not change.
    pub open spec fn deliver_post(
        pre: WebSocketManager,
        post: WebSocketManager,
        token: Seq<char>,
        m: FrameView,
        exclude: Option<u64>,
    ) -> bool {
        &&& post.next_id == pre.next_id
        &&& post.sessions@ == pre.sessions@
        &&& post.conns@.len() == pre.conns@.len()
        &&& forall|i: int|
            0 <= i < pre.conns@.len() ==> if (#[trigger] pre.conns@[i]).session_token@ == token
                && Some(pre.conns@[i].id) != exclude {
                Self::delivered_conn(pre.conns@[i], post.conns@[i], m)
            } else {
                post.conns@[i] == pre.conns@[i]
            }
    }

    /// Writes `message` once to every live connection under `session_token`
    /// except `exclude`, if given. With `exclude` the sender's own id, this
    /// relays a client's message to the session's other devices; with no
    /// exclusion it pushes a server-originated event to all of them.
    /// Enqueueing cannot fail, so one connection can never abort delivery to
    /// its siblings.
    pub fn deliver_to_session(
        &mut self,
        session_token: &str,
        message: &Frame,
        exclude: Option<u64>,
    )
        requires
            old(self).wf(),
        ensures
            final(self).wf(),
            Self::deliver_post(*old(self), *final(self), session_token@, message@, exclude),
    {
        let ghost pre = *self;
        let sidx = match self.find_session(session_token) {
            Some(s) => s,
            None => {
                proof {
                    assert forall|i: int|
                        0 <= i < pre.conns@.len() implies (#[trigger] pre.conns@[i]).session_token@
                        != session_token@ by {
                        assert(pre.members_of(pre.conns@[i].session_token@).contains(
                            pre.conns@[i].id,
                        ));
                    }
                }
                return ;
            },
        };
        // point-in-time snapshot of the membership, so that delivery walks a
        // stable list while records are updated
        let member_ids: Vec<u64> = vstd::slice::slice_to_vec(
            self.sessions[sidx].members.as_slice(),
        );
        proof {
            pre.lemma_members_of_entry(sidx as int);
        }
        let ghost members = member_ids@;
        let mut k: usize = 0;
        while k < member_ids.len()
            invariant
                members == member_ids@,
                members == pre.members_of(session_token@),
                sidx < pre.sessions@.len(),
                pre.sessions@[sidx as int].token@ == session_token@,
                members == pre.sessions@[sidx as int].members@,
                pre.wf(),
                self.sessions@ == pre.sessions@,
                self.next_id == pre.next_id,
                self.conns@.len() == pre.conns@.len(),
                k <= members.len(),
                forall|i: int|
                    0 <= i < pre.conns@.len() ==> (#[trigger] self.conns@[i]).id
                        == pre.conns@[i].id && self.conns@[i].session_token
                        == pre.conns@[i].session_token && self.conns@[i].last_heartbeat
                        == pre.conns@[i].last_heartbeat,
                forall|i: int|
                    0 <= i < pre.conns@.len() ==> if members.take(k as int).contains(
                        (#[trigger] pre.conns@[i]).id,
                    ) && Some(pre.conns@[i].id) != exclude {
                        Self::delivered_conn(pre.conns@[i], self.conns@[i], message@)
                    } else {
                        self.conns@[i] == pre.conns@[i]
                    },
            decreases member_ids@.len() - k,
        {
            let id = member_ids[k];
            let ghost prev = *self;
            let excluded = match exclude {
                Some(e) => id == e,
                None => false,
            };
            if !excluded {
                proof {
                    assert(pre.has_conn(id) && pre.conn(id).session_token@ == session_token@) by {
                        assert(pre.sessions@[sidx as int].members@[k as int] == id);
                    }
                    let ci = pre.conn_index(id);
                    assert(self.conns@[ci].id == id);
                    assert(self.conn_ids_distinct());
                }
                match self.find_conn(id) {
                    Some(ci) => {
                        let mut c = self.conns.remove(ci);
                        let ghost c0 = c;
                        c.outbox.push(crate::message::clone_websocket_message(message));
                        self.conns.insert(ci, c);
                        proof {
                            Self::lemma_views_push(
                                c0.outbox@,
                                self.conns@[ci as int].outbox@.last(),
                            );
                            assert(self.conns@ =~= prev.conns@.update(
                                ci as int,
                                self.conns@[ci as int],
                            ));
                            // this member had not been reached yet: members are
                            // distinct and it sits at position k
                            assert forall|j: int| 0 <= j < k implies members[j] != id by {
                                assert(pre.sessions@[sidx as int].members@[j]
                                    != pre.sessions@[sidx as int].members@[k as int]);
                            }
                            assert(!members.take(k as int).contains(id));
                            assert(prev.conns@[ci as int] == pre.conns@[ci as int]);
                            assert(Self::delivered_conn(
                                pre.conns@[ci as int],
                                self.conns@[ci as int],
                                message@,
                            ));
                            assert forall|i: int|
                                0 <= i < pre.conns@.len() implies if members.take(
                                k as int + 1,
                            ).contains((#[trigger] pre.conns@[i]).id) && Some(pre.conns@[i].id)
                                != exclude {
                                Self::delivered_conn(pre.conns@[i], self.conns@[i], message@)
                            } else {
                                self.conns@[i] == pre.conns@[i]
                            } by {
                                assert(members.take(k as int + 1) =~= members.take(
                                    k as int,
                                ).push(id));
                                assert(members.take(k as int + 1).contains(id)) by {
                                    assert(members.take(k as int + 1)[k as int] == id);
                                }
                                if i != ci {
                                    assert(pre.conns@[i].id != pre.conns@[ci as int].id);
                                    assert(self.conns@[i] == prev.conns@[i]);
                                    if members.take(k as int + 1).contains(pre.conns@[i].id) {
                                        assert(members.take(k as int).contains(pre.conns@[i].id));
                                    } else {
                                        if members.take(k as int).contains(pre.conns@[i].id) {
                                            let j = choose|j: int|
                                                0 <= j < k && members.take(k as int)[j]
                                                    == pre.conns@[i].id;
                                            assert(members.take(k as int + 1)[j]
                                                == pre.conns@[i].id);
                                        }
                                    }
                                }
                            }
                        }
                    },
                    None => {
                        proof {
                            assert(false);
                        }
                    },
                }
            } else {
                proof {
                    assert forall|i: int|
                        0 <= i < pre.conns@.len() implies if members.take(k as int + 1).contains(
                        (#[trigger] pre.conns@[i]).id,
                    ) && Some(pre.conns@[i].id) != exclude {
                        Self::delivered_conn(pre.conns@[i], self.conns@[i], message@)
                    } else {
                        self.conns@[i] == pre.conns@[i]
                    } by {
                        assert(members.take(k as int + 1) =~= members.take(k as int).push(id));
                    }
                }
            }
            k += 1;
        }
        proof {
            assert(members.take(members.len() as int) =~= members);
            assert forall|i: int|
                0 <= i < pre.conns@.len() implies if (#[trigger] pre.conns@[i]).session_token@
                == session_token@ && Some(pre.conns@[i].id) != exclude {
                Self::delivered_conn(pre.conns@[i], self.conns@[i], message@)
            } else {
                self.conns@[i] == pre.conns@[i]
            } by {
                if pre.conns@[i].session_token@ == session_token@ {
                    assert(pre.members_of(pre.conns@[i].session_token@).contains(
                        pre.conns@[i].id,
                    ));
                } else {
                    if members.contains(pre.conns@[i].id) {
                        let j = choose|j: int| 0 <= j < members.len() && members[j]
                            == pre.conns@[i].id;
                        assert(pre.sessions@[sidx as int].members@[j] == pre.conns@[i].id);
                        assert(pre.has_conn(pre.conns@[i].id));
                        pre.lemma_conn_index_is(i);
                        assert(pre.conn(pre.conns@[i].id).session_token@ == session_token@);
                    }
                }
            }
            Self::lemma_conns_pointwise(pre, *self);
        }
    }

    /// What `deliver_to_all` does: the message is appended exactly once to
    /// the queue of every connection in the registry, whatever its session.
    pub open spec fn deliver_all_post(
        pre: WebSocketManager,
        post: WebSocketManager,
        m: FrameView,
    ) -> bool {
        &&& post.next_id == pre.next_id
        &&& post.sessions@ == pre.sessions@
        &&& post.conns@.len() == pre.conns@.len()
        &&& forall|i: int|
            0 <= i < pre.conns@.len() ==> Self::delivered_conn(
                #[trigger] pre.conns@[i],
                post.conns@[i],
                m,
            )
    }

    /// Writes `message` once to every connection in the registry, regardless
    /// of session: platform-wide broadcast.
    pub fn deliver_to_all(&mut self, message: &Frame)
        requires
            old(self).wf(),
        ensures
            final(self).wf(),
            Self::deliver_all_post(*old(self), *final(self), message@),
    {
        let ghost pre = *self;
        let mut k: usize = 0;
        while k < self.conns.len()
            invariant
                pre.wf(),
                self.sessions@ == pre.sessions@,
                self.next_id == pre.next_id,
                self.conns@.len() == pre.conns@.len(),
                k <= pre.conns@.len(),
                forall|i: int|
                    0 <= i < k ==> Self::delivered_conn(
                        #[trigger] pre.conns@[i],
                        self.conns@[i],
                        message@,
                    ),
                forall|i: int| k <= i < pre.conns@.len() ==> self.conns@[i] == pre.conns@[i],
            decreases pre.conns@.len() - k,
        {
            let ghost prev = *self;
            let mut c = self.conns.remove(k);
            let ghost c0 = c;
            c.outbox.push(crate::message::clone_websocket_message(message));
            self.conns.insert(k, c);
            proof {
                Self::lemma_views_push(c0.outbox@, self.conns@[k as int].outbox@.last());
                assert(self.conns@ =~= prev.conns@.update(k as int, self.conns@[k as int]));
            }
            k += 1;
        }
        proof {
            assert forall|i: int|
                0 <= i < pre.conns@.len() implies (#[trigger] self.conns@[i]).id
                == pre.conns@[i].id && self.conns@[i].session_token@
                == pre.conns@[i].session_token@ by {}
            Self::lemma_conns_pointwise(pre, *self);
        }
    }

    /// What `take_outgoing` does: the returned frames are exactly the queue
    /// the connection had, in order, the queue is now empty, and nothing else
    /// changes; for an unknown id nothing is returned and nothing changes.
    pub open spec fn take_outgoing_post(
        pre: WebSocketManager,
        post: WebSocketManager,
        conn_id: u64,
        r: Seq<Frame>,
    ) -> bool {
        &&& post.next_id == pre.next_id
        &&& post.sessions@ == pre.sessions@
        &&& post.conns@.len() == pre.conns@.len()
        &&& if !pre.has_conn(conn_id) {
            r.len() == 0 && post == pre
        } else {
            &&& r == pre.conn(conn_id).outbox@
            &&& forall|i: int|
                0 <= i < pre.conns@.len() && (#[trigger] pre.conns@[i]).id != conn_id
                    ==> post.conns@[i] == pre.conns@[i]
            &&& post.conn(conn_id).id == conn_id
            &&& post.conn(conn_id).session_token == pre.conn(conn_id).session_token
            &&& post.conn(conn_id).last_heartbeat == pre.conn(conn_id).last_heartbeat
            &&& post.conn(conn_id).outbox@.len() == 0
            &&& post.conn_index(conn_id) == pre.conn_index(conn_id)
        }
    }

    /// Drains the outbound queue of one connection: the transport-facing task
    /// calls this and writes the returned frames, in order, to the transport.
    pub fn take_outgoing(&mut self, conn_id: u64) -> (r: Vec<Frame>)
        requires
            old(self).wf(),
        ensures
            final(self).wf(),
            Self::take_outgoing_post(*old(self), *final(self), conn_id, r@),
    {
        let ghost pre = *self;
        match self.find_conn(conn_id) {
            Some(i) => {
                let mut c = self.conns.remove(i);
                let out = c.outbox;
                c.outbox = Vec::new();
                self.conns.insert(i, c);
                proof {
                    assert(self.conns@ =~= pre.conns@.update(i as int, self.conns@[i as int]));
                    Self::lemma_conns_pointwise(pre, *self);
                }
                out
            },
            None => Vec::new(),
        }
    }

    /// Registers a connection: the transport-facing handler calls this after
    /// a successful handshake. Same contract as `register`.
    pub fn connect(&mut self, session_token: &str, now: u64) -> (id: u64)
        requires
            old(self).wf(),
            old(self).next_id < u64::MAX,
        ensures
            final(self).wf(),
            Self::register_post(*old(self), *final(self), session_token@, now, id),
    {
        self.register(session_token, now)
    }

    /// Removes a connection. Same contract as `unregister`.
    pub fn disconnect(&mut self, conn_id: u64)
        requires
            old(self).wf(),
        ensures
            final(self).wf(),
            Self::unregister_post(*old(self), *final(self), conn_id),
    {
        self.unregister(conn_id)
    }

    /// Relays a message one client sent to that session's other devices: the
    /// sender's own connection is excluded.
    pub fn send_message_to_session(
        &mut self,
        session_token: &str,
        message: &Frame,
        sender_conn_id: u64,
    )
        requires
            old(self).wf(),
        ensures
            final(self).wf(),
            Self::deliver_post(
                *old(self),
                *final(self),
                session_token@,
                message@,
                Some(sender_conn_id),
            ),
    {
        self.deliver_to_session(session_token, message, Some(sender_conn_id))
    }

    /// Pushes a server-originated event to every device under the session:
    /// nothing is excluded.
    pub fn broadcast_to_session(&mut self, session_token: &str, message: &Frame)
        requires
            old(self).wf(),
        ensures
            final(self).wf(),
            Self::deliver_post(*old(self), *final(self), session_token@, message@, None),
    {
        self.deliver_to_session(session_token, message, None)
    }

    /// How many connections are registered.
    pub fn connection_count(&self) -> (r: usize)
        ensures
            r == self.conns@.len(),
    {
        self.conns.len()
    }

    /// How many sessions have at least one connection.
    pub fn session_count(&self) -> (r: usize)
        ensures
            r == self.sessions@.len(),
    {
        self.sessions.len()
    }

    /// Whether this id is registered.
    pub fn is_registered(&self, conn_id: u64) -> (r: bool)
        requires
            self.wf(),
        ensures
            r == self.has_conn(conn_id),
    {
        self.find_conn(conn_id).is_some()
    }

    /// Whether this token has a membership entry.
    pub fn has_session_entry(&self, session_token: &str) -> (r: bool)
        requires
            self.wf(),
        ensures
            r == self.has_session(session_token@),
    {
        self.find_session(session_token).is_some()
    }

    /// How many connections are registered under this token.
    pub fn member_count(&self, session_token: &str) -> (r: usize)
        requires
            self.wf(),
        ensures
            r == self.members_of(session_token@).len(),
    {
        match self.find_session(session_token) {
            Some(s) => self.sessions[s].members.len(),
            None => 0,
        }
    }

    /// The last observed heartbeat of a connection, if it is registered.
    pub fn heartbeat_of(&self, conn_id: u64) -> (r: Option<u64>)
        requires
            self.wf(),
        ensures
            match r {
                Some(h) => self.has_conn(conn_id) && h == self.conn(conn_id).last_heartbeat,
                None => !self.has_conn(conn_id),
            },
    {
        match self.find_conn(conn_id) {
            Some(i) => Some(self.conns[i].last_heartbeat),
            None => None,
        }
    }

    /// Law: a delivery without exclusion reaches every connection registered
    /// under the session exactly once — its queue grows by exactly the
    /// delivered message, appended after everything already queued, so
    /// successive deliveries to the same connection arrive in the order they
    /// were sent — and every connection outside the session is untouched.
    pub proof fn lemma_deliver_to_all_members(
        pre: WebSocketManager,
        post: WebSocketManager,
        token: Seq<char>,
        m: FrameView,
        id: u64,
    )
        requires
            pre.wf(),
            Self::deliver_post(pre, post, token, m, None),
            pre.has_conn(id),
        ensures
            post.has_conn(id),
            post.conn_index(id) == pre.conn_index(id),
            pre.member_set(token).contains(id) ==> post.conn(id).outbox_views() == pre.conn(
                id,
            ).outbox_views().push(m),
            !pre.member_set(token).contains(id) ==> post.conn(id) == pre.conn(id),
    {
        Self::lemma_deliver_one(pre, post, token, m, None, id);
    }

    /// Law: a delivery that excludes one connection reaches every other
    /// connection registered under the session exactly once, and leaves the
    /// excluded connection's queue untouched.
    pub proof fn lemma_deliver_excludes_sender(
        pre: WebSocketManager,
        post: WebSocketManager,
        token: Seq<char>,
        m: FrameView,
        sender: u64,
        id: u64,
    )
        requires
            pre.wf(),
            Self::deliver_post(pre, post, token, m, Some(sender)),
            pre.has_conn(id),
        ensures
            post.has_conn(id),
            post.conn_index(id) == pre.conn_index(id),
            pre.member_set(token).contains(id) && id != sender ==> post.conn(id).outbox_views()
                == pre.conn(id).outbox_views().push(m),
            !pre.member_set(token).contains(id) || id == sender ==> post.conn(id) == pre.conn(id),
    {
        Self::lemma_deliver_one(pre, post, token, m, Some(sender), id);
    }

    /// How one connection fares under a delivery: its queue grows by the
    /// message exactly when it is a non-excluded member of the session.
    proof fn lemma_deliver_one(
        pre: WebSocketManager,
        post: WebSocketManager,
        token: Seq<char>,
        m: FrameView,
        exclude: Option<u64>,
        id: u64,
    )
        requires
            pre.wf(),
            Self::deliver_post(pre, post, token, m, exclude),
            pre.has_conn(id),
        ensures
            post.has_conn(id),
            post.conn_index(id) == pre.conn_index(id),
            pre.member_set(token).contains(id) && Some(id) != exclude ==> post.conn(
                id,
            ).outbox_views() == pre.conn(id).outbox_views().push(m),
            !pre.member_set(token).contains(id) || Some(id) == exclude ==> post.conn(id)
                == pre.conn(id),
    {
        let i = pre.conn_index(id);
        assert forall|a: int| 0 <= a < post.conns@.len() implies (#[trigger] post.conns@[a]).id
            == pre.conns@[a].id by {}
        assert(post.conn_ids_distinct());
        assert(post.conns@[i].id == id);
        post.lemma_conn_index_is(i);
        if pre.member_set(token).contains(id) {
            // a member's record carries the session's token
            assert(pre.members_of(token).contains(id));
            pre.lemma_members_of_nonempty(token);
            let s = pre.session_index(token);
            let k = choose|k: int|
                0 <= k < pre.members_of(token).len() && pre.members_of(token)[k] == id;
            assert(pre.sessions@[s].members@[k] == id);
            assert(pre.conn(id).session_token@ == token);
        } else {
            if pre.conns@[i].session_token@ == token {
                assert(pre.members_of(token).contains(id));
            }
        }
    }

    /// Law: `unregister` is idempotent — once a connection has been
    /// unregistered, unregistering the same id again leaves the registry
    /// exactly as it was, so calling it twice has the same observable effect
    /// as calling it once.
    pub proof fn lemma_unregister_idempotent(
        s0: WebSocketManager,
        s1: WebSocketManager,
        s2: WebSocketManager,
        conn_id: u64,
    )
        requires
            Self::unregister_post(s0, s1, conn_id),
            Self::unregister_post(s1, s2, conn_id),
        ensures
            s2 == s1,
    {
    }

    /// Law: after the last connection under a session is unregistered, the
    /// session has no membership entry — membership is not leaked.
    pub proof fn lemma_unregister_last_drops_session(
        pre: WebSocketManager,
        post: WebSocketManager,
        conn_id: u64,
    )
        requires
            pre.wf(),
            pre.has_conn(conn_id),
            pre.member_set(pre.token_of(conn_id)) == set![conn_id],
            Self::unregister_post(pre, post, conn_id),
        ensures
            !post.has_session(pre.token_of(conn_id)),
    {
        let tok = pre.token_of(conn_id);
        let members = pre.members_of(tok);
        assert(members.to_set().contains(conn_id));
        assert(members.len() >= 1);
        if members.len() > 1 {
            // two distinct members cannot both be the single id in the set
            let i = pre.session_index(tok);
            pre.lemma_members_of_nonempty(tok);
            assert(pre.sessions@[i].members@[0] != pre.sessions@[i].members@[1]);
            assert(members.to_set().contains(members[0]));
            assert(members.to_set().contains(members[1]));
            assert(members[0] == conn_id && members[1] == conn_id);
            assert(false);
        }
    }

    /// Law: a well-formed registry holds a membership entry for a token
    /// exactly while a connection is registered under it — no entry ever
    /// outlives its last member, and no member is ever without its entry.
    pub proof fn lemma_no_membership_leak(self, token: Seq<char>)
        requires
            self.wf(),
        ensures
            self.has_session(token) <==> self.members_of(token).len() > 0,
    {
        if self.has_session(token) {
            let s = self.session_index(token);
            assert(self.sessions@[s].members@.len() > 0);
        }
    }

    /// Finds the position of an id in a membership list.
    fn find_member(members: &Vec<u64>, id: u64) -> (r: Option<usize>)
        ensures
            match r {
                Some(k) => k < members@.len() && members@[k as int] == id,
                None => !members@.contains(id),
            },
    {
        let mut k: usize = 0;
        while k < members.len()
            invariant
                k <= members@.len(),
                forall|j: int| 0 <= j < k ==> members@[j] != id,
            decreases members@.len() - k,
        {
            if members[k] == id {
                return Some(k);
            }
            k += 1;
        }
        None
    }

    /// Finds the position of the connection record with this id.
    fn find_conn(&self, id: u64) -> (r: Option<usize>)
        requires
            self.conn_ids_distinct(),
        ensures
            match r {
                Some(i) => i < self.conns@.len() && self.conns@[i as int].id == id && self.has_conn(
                    id,
                ) && self.conn_index(id) == i,
                None => !self.has_conn(id),
            },
    {
        let mut i: usize = 0;
        while i < self.conns.len()
            invariant
                self.conn_ids_distinct(),
                i <= self.conns@.len(),
                forall|j: int| 0 <= j < i ==> (#[trigger] self.conns@[j].id) != id,
            decreases self.conns@.len() - i,
        {
            if self.conns[i].id == id {
                proof {
                    self.lemma_conn_index_is(i as int);
                }
                return Some(i);
            }
            i += 1;
        }
        None
    }

    /// Finds the position of the membership entry for this token.
    fn find_session(&self, token: &str) -> (r: Option<usize>)
        requires
            self.session_tokens_distinct(),
        ensures
            match r {
                Some(s) => s < self.sessions@.len() && self.sessions@[s as int].token@ == token@
                    && self.has_session(token@) && self.session_index(token@) == s,
                None => !self.has_session(token@),
            },
    {
        let mut s: usize = 0;
        while s < self.sessions.len()
            invariant
                self.session_tokens_distinct(),
                s <= self.sessions@.len(),
                forall|t: int| 0 <= t < s ==> (#[trigger] self.sessions@[t].token@) != token@,
            decreases self.sessions@.len() - s,
        {
            if crate::strutil::str_eq(self.sessions[s].token.as_str(), token) {
                proof {
                    self.lemma_session_index_is(s as int);
                }
                return Some(s);
            }
            s += 1;
        }
        None
    }
}

} // verus!
