//! The notification hub: who is listening where, and event fan-out.
//!
//! The hub owns the session/lobby membership index. A session is one live
//! connection, registered together with the channel token under which the
//! shell keeps its outbound writer; a lobby groups the sessions that watch
//! it. `connect` and `disconnect` are the only writers, and both keep the
//! membership invariant: every session in a lobby's member set has a
//! registered channel and vice versa, a session sits in exactly one lobby,
//! and no lobby lingers with an empty member set.
//!
//! Publishing does not write sockets here; it returns the exact list of
//! `(channel, payload)` deliveries for the shell to perform, so a send to a
//! connection that is being torn down degrades to a dropped delivery without
//! touching the index.
use vstd::prelude::*;

use crate::assoc::{assoc_has, assoc_idx, assoc_map, assoc_unique, lemma_assoc_at,
    lemma_assoc_push, lemma_assoc_remove, lemma_assoc_update};
use crate::store::seq_unique;
use crate::{ChannelId, LobbyId, SessionId};

verus! {

/// Copies a payload for one delivery.
fn copy_bytes(v: &Vec<u8>) -> (r: Vec<u8>)
    ensures
        r@ == v@,
{
    let mut out: Vec<u8> = Vec::new();
    let mut i: usize = 0;
    while i < v.len()
        invariant
            i <= v@.len(),
            out@ == v@.take(i as int),
        decreases v@.len() - i,
    {
        out.push(v[i]);
        proof {
            assert(out@ =~= v@.take(i + 1));
        }
        i += 1;
    }
    proof {
        assert(v@.take(v@.len() as int) =~= v@);
    }
    out
}

/// Registry of live connections and their lobby membership.
pub struct NotifyServer {
    sessions: Vec<(SessionId, ChannelId)>,
    lobbies: Vec<(LobbyId, Vec<SessionId>)>,
}

impl NotifyServer {
    /// A channel is registered under this session id.
    pub closed spec fn has_session(self, s: SessionId) -> bool {
        assoc_has(self.sessions@, s)
    }

    /// The registered outbound channel of every session.
    pub closed spec fn sessions_map(self) -> Map<SessionId, ChannelId> {
        assoc_map(self.sessions@)
    }

    spec fn member_at(self, li: int, s: SessionId) -> bool {
        0 <= li < self.lobbies@.len() && self.lobbies@[li].1@.contains(s)
    }

    /// The session sits in some lobby's member set.
    pub closed spec fn member_somewhere(self, s: SessionId) -> bool {
        exists|li: int| self.member_at(li, s)
    }

    spec fn member_li(self, s: SessionId) -> int {
        choose|li: int| self.member_at(li, s)
    }

    /// The lobby each session currently watches.
    pub closed spec fn lobby_of(self) -> Map<SessionId, LobbyId> {
        Map::new(
            |s: SessionId| self.member_somewhere(s),
            |s: SessionId| self.lobbies@[self.member_li(s)].0,
        )
    }

    /// The lobby has an entry in the index.
    pub closed spec fn lobby_listed(self, l: LobbyId) -> bool {
        assoc_has(self.lobbies@, l)
    }

    /// The member sessions of a lobby, in registration order; empty when the
    /// lobby is not listed.
    pub closed spec fn members(self, l: LobbyId) -> Seq<SessionId> {
        if assoc_has(self.lobbies@, l) {
            self.lobbies@[assoc_idx(self.lobbies@, l)].1@
        } else {
            Seq::empty()
        }
    }

    spec fn lists_wf(self) -> bool {
        forall|li: int|
            0 <= li < self.lobbies@.len() ==> (#[trigger] self.lobbies@[li].1@).len() > 0
                && seq_unique(self.lobbies@[li].1@)
    }

    spec fn members_disjoint(self) -> bool {
        forall|li: int, lj: int, s: SessionId|
            self.member_at(li, s) && self.member_at(lj, s) ==> li == lj
    }

    /// The membership invariant. Session ids and lobby ids are unique keys;
    /// a listed lobby's member set is non-empty and repeats no session; a
    /// session sits in at most one lobby; and membership and channel
    /// registration imply each other — no orphaned entries on either side.
    pub closed spec fn wf(self) -> bool {
        &&& assoc_unique(self.sessions@)
        &&& assoc_unique(self.lobbies@)
        &&& self.lists_wf()
        &&& self.members_disjoint()
        &&& forall|s: SessionId| #[trigger] self.member_somewhere(s) ==> self.has_session(s)
        &&& forall|s: SessionId| #[trigger] self.has_session(s) ==> self.member_somewhere(s)
    }

    /// With sessions in at most one lobby, any index holding a session is
    /// the one the membership map reads.
    proof fn lemma_member_li_unique(self, j: int, s: SessionId)
        requires
            self.members_disjoint(),
            self.member_at(j, s),
        ensures
            self.member_somewhere(s),
            self.member_li(s) == j,
    {
        assert(self.member_somewhere(s));
        let k = self.member_li(s);
        assert(self.member_at(k, s));
    }

    /// A change that leaves the lobby index untouched preserves everything
    /// the membership map says.
    proof fn lemma_same_lobbies(pre: Self, post: Self)
        requires
            post.lobbies == pre.lobbies,
            pre.lists_wf(),
            pre.members_disjoint(),
        ensures
            post.lists_wf(),
            post.members_disjoint(),
            forall|s: SessionId| #[trigger] post.member_somewhere(s) == pre.member_somewhere(s),
            post.lobby_of() == pre.lobby_of(),
    {
        assert(post.lobbies@ == pre.lobbies@);
        assert forall|a: int, s: SessionId| #[trigger] post.member_at(a, s) == pre.member_at(
            a,
            s,
        ) by {
            assert(post.lobbies@ == pre.lobbies@);
        }
        assert forall|li: int| 0 <= li < post.lobbies@.len() implies (
        #[trigger] post.lobbies@[li].1@).len() > 0 && seq_unique(post.lobbies@[li].1@) by {
            assert(pre.lobbies@[li] == post.lobbies@[li]);
            assert((pre.lobbies@[li].1@).len() > 0 && seq_unique(pre.lobbies@[li].1@));
        }
        assert forall|a: int, b: int, s: SessionId|
            post.member_at(a, s) && post.member_at(b, s) implies a == b by {
            assert(pre.member_at(a, s) && pre.member_at(b, s));
        }
        assert forall|s: SessionId| #[trigger] post.member_somewhere(s)
            == pre.member_somewhere(s) by {
            if post.member_somewhere(s) {
                let a = post.member_li(s);
                assert(post.member_at(a, s));
                assert(pre.member_at(a, s));
                assert(pre.member_somewhere(s));
            }
            if pre.member_somewhere(s) {
                let a = pre.member_li(s);
                assert(pre.member_at(a, s));
                assert(post.member_at(a, s));
                assert(post.member_somewhere(s));
            }
        }
        assert forall|s: SessionId| #[trigger] post.member_somewhere(s) implies post.lobbies@[post.member_li(
            s,
        )].0 == pre.lobbies@[pre.member_li(s)].0 by {
            let a = post.member_li(s);
            assert(post.member_at(a, s));
            assert(pre.member_at(a, s));
            pre.lemma_member_li_unique(a, s);
        }
        assert(post.lobby_of() =~= pre.lobby_of());
    }

    /// Pointwise description of a membership change that takes one session
    /// out, folded into the map the contracts use.
    proof fn lemma_lobby_of_remove(pre: Self, post: Self, sid: SessionId)
        requires
            pre.members_disjoint(),
            post.members_disjoint(),
            !post.member_somewhere(sid),
            forall|s: SessionId|
                s != sid ==> (#[trigger] post.member_somewhere(s) <==> pre.member_somewhere(s)),
            forall|s: SessionId|
                s != sid && #[trigger] post.member_somewhere(s)
                    ==> post.lobbies@[post.member_li(s)].0 == pre.lobbies@[pre.member_li(s)].0,
        ensures
            post.lobby_of() == pre.lobby_of().remove(sid),
    {
        assert(post.lobby_of() =~= pre.lobby_of().remove(sid));
    }

    /// Pointwise description of a membership change that adds one session
    /// to a lobby, folded into the map the contracts use.
    proof fn lemma_lobby_of_insert(pre: Self, post: Self, sid: SessionId, lid: LobbyId)
        requires
            pre.members_disjoint(),
            post.members_disjoint(),
            post.member_somewhere(sid),
            post.lobbies@[post.member_li(sid)].0 == lid,
            forall|s: SessionId|
                s != sid ==> (#[trigger] post.member_somewhere(s) <==> pre.member_somewhere(s)),
            forall|s: SessionId|
                s != sid && #[trigger] post.member_somewhere(s)
                    ==> post.lobbies@[post.member_li(s)].0 == pre.lobbies@[pre.member_li(s)].0,
        ensures
            post.lobby_of() == pre.lobby_of().insert(sid, lid),
    {
        assert(post.lobby_of() =~= pre.lobby_of().insert(sid, lid));
    }

    pub fn new() -> (r: Self)
        ensures
            r.wf(),
            r.sessions_map() == Map::<SessionId, ChannelId>::empty(),
            r.lobby_of() == Map::<SessionId, LobbyId>::empty(),
    {
        let r = NotifyServer { sessions: Vec::new(), lobbies: Vec::new() };
        proof {
            assert(r.sessions_map() =~= Map::<SessionId, ChannelId>::empty());
            assert(r.lobby_of() =~= Map::<SessionId, LobbyId>::empty());
        }
        r
    }

    /// A lobby's member sequence lists exactly the sessions whose lobby it
    /// is, each once.
    pub proof fn lemma_members(self, l: LobbyId)
        requires
            self.wf(),
        ensures
            seq_unique(self.members(l)),
            forall|s: SessionId|
                #[trigger] self.members(l).contains(s) <==> (self.lobby_of().dom().contains(s)
                    && self.lobby_of()[s] == l),
    {
        if assoc_has(self.lobbies@, l) {
            let li = assoc_idx(self.lobbies@, l);
            lemma_assoc_at(self.lobbies@, li);
            assert(seq_unique(self.lobbies@[li].1@));
            assert forall|s: SessionId| #[trigger] self.members(l).contains(s) implies (
            self.lobby_of().dom().contains(s) && self.lobby_of()[s] == l) by {
                assert(self.member_at(li, s));
                assert(self.member_somewhere(s));
                assert(self.member_li(s) == li);
            }
            assert forall|s: SessionId|
                self.lobby_of().dom().contains(s) && self.lobby_of()[s]
                    == l implies #[trigger] self.members(l).contains(s) by {
                let mi = self.member_li(s);
                assert(self.member_at(mi, s));
                assert(self.lobbies@[mi].0 == l);
                lemma_assoc_at(self.lobbies@, mi);
                assert(mi == li);
            }
        } else {
            assert forall|s: SessionId|
                self.lobby_of().dom().contains(s) && self.lobby_of()[s]
                    == l implies #[trigger] self.members(l).contains(s) by {
                let mi = self.member_li(s);
                assert(self.member_at(mi, s));
                lemma_assoc_at(self.lobbies@, mi);
                assert(assoc_has(self.lobbies@, l));
            }
        }
    }

    /// The membership invariant, spelled out: a session has a channel
    /// exactly when it sits in a lobby, and every listed lobby still has at
    /// least one member.
    pub proof fn lemma_membership_invariant(self)
        requires
            self.wf(),
        ensures
            forall|s: SessionId|
                #[trigger] self.lobby_of().dom().contains(s) <==> self.sessions_map().dom().contains(
                    s,
                ),
            forall|l: LobbyId| #[trigger] self.lobby_listed(l) ==> self.members(l).len() > 0,
            forall|l: LobbyId, i: int|
                0 <= i < self.members(l).len() ==> self.sessions_map().dom().contains(
                    #[trigger] self.members(l)[i],
                ),
    {
        assert forall|s: SessionId| #[trigger] self.lobby_of().dom().contains(s)
            <==> self.sessions_map().dom().contains(s) by {
            if self.lobby_of().dom().contains(s) {
                assert(self.member_somewhere(s));
                assert(self.has_session(s));
            }
            if self.sessions_map().dom().contains(s) {
                assert(self.has_session(s));
                assert(self.member_somewhere(s));
            }
        }
        assert forall|l: LobbyId| #[trigger] self.lobby_listed(l) implies self.members(l).len()
            > 0 by {
            let li = assoc_idx(self.lobbies@, l);
            lemma_assoc_at(self.lobbies@, li);
        }
        assert forall|l: LobbyId, i: int|
            0 <= i < self.members(l).len() implies self.sessions_map().dom().contains(
            #[trigger] self.members(l)[i],
        ) by {
            assert(assoc_has(self.lobbies@, l));
            let li = assoc_idx(self.lobbies@, l);
            lemma_assoc_at(self.lobbies@, li);
            let s = self.members(l)[i];
            assert(self.lobbies@[li].1@.contains(s));
            assert(self.member_at(li, s));
            assert(self.member_somewhere(s));
            assert(self.has_session(s));
        }
    }

    /// One delivery to the named session, if it is registered; the payload
    /// is handed back with the session's channel.
    #[verifier::loop_isolation(false)]
    pub fn send_msg_to_user(&self, session_id: SessionId, msg: &Vec<u8>) -> (r: Option<
        (ChannelId, Vec<u8>),
    >)
        requires
            self.wf(),
        ensures
            match r {
                Some(d) => self.sessions_map().dom().contains(session_id) && d.0
                    == self.sessions_map()[session_id] && d.1@ == msg@,
                None => !self.sessions_map().dom().contains(session_id),
            },
    {
        let mut i: usize = 0;
        while i < self.sessions.len()
            invariant
                i <= self.sessions@.len(),
                forall|j: int| 0 <= j < i ==> self.sessions@[j].0 != session_id,
                assoc_unique(self.sessions@),
            decreases self.sessions@.len() - i,
        {
            if self.sessions[i].0 == session_id {
                proof {
                    lemma_assoc_at(self.sessions@, i as int);
                }
                return Some((self.sessions[i].1, copy_bytes(msg)));
            }
            i += 1;
        }
        proof {
            if self.sessions_map().dom().contains(session_id) {
                let j = assoc_idx(self.sessions@, session_id);
            }
        }
        None
    }

    /// One delivery per member of the named lobby, in membership order, each
    /// carrying the same payload; an unknown lobby yields no delivery.
    #[verifier::loop_isolation(false)]
    pub fn send_msg_to_lobby(&self, lobby_id: LobbyId, msg: &Vec<u8>) -> (r: Vec<
        (ChannelId, Vec<u8>),
    >)
        requires
            self.wf(),
        ensures
            r@.len() == self.members(lobby_id).len(),
            forall|i: int|
                0 <= i < r@.len() ==> self.sessions_map().dom().contains(
                    self.members(lobby_id)[i],
                ) && #[trigger] r@[i].0 == self.sessions_map()[self.members(lobby_id)[i]]
                    && r@[i].1@ == msg@,
    {
        proof {
            self.lemma_membership_invariant();
        }
        let mut out: Vec<(ChannelId, Vec<u8>)> = Vec::new();
        let mut li: usize = 0;
        while li < self.lobbies.len()
            invariant
                li <= self.lobbies@.len(),
                out@.len() == 0,
                forall|j: int| 0 <= j < li ==> self.lobbies@[j].0 != lobby_id,
                assoc_unique(self.lobbies@),
                self.wf(),
            decreases self.lobbies@.len() - li,
        {
            if self.lobbies[li].0 == lobby_id {
                proof {
                    lemma_assoc_at(self.lobbies@, li as int);
                }
                let mems = &self.lobbies[li].1;
                let mut mi: usize = 0;
                let mut out2: Vec<(ChannelId, Vec<u8>)> = Vec::new();
                while mi < mems.len()
                    invariant
                        mi <= mems@.len(),
                        mems@ == self.members(lobby_id),
                        self.wf(),
                        0 <= li < self.lobbies@.len(),
                        self.lobbies@[li as int].0 == lobby_id,
                        self.lobbies@[li as int].1@ == mems@,
                        out2@.len() == mi,
                        forall|i: int|
                            0 <= i < mi ==> self.sessions_map().dom().contains(mems@[i])
                                && #[trigger] out2@[i].0 == self.sessions_map()[mems@[i]]
                                && out2@[i].1@ == msg@,
                    decreases mems@.len() - mi,
                {
                    proof {
                        assert(self.member_at(li as int, mems@[mi as int]));
                        assert(self.member_somewhere(mems@[mi as int]));
                        assert(self.has_session(mems@[mi as int]));
                    }
                    match self.send_msg_to_user(mems[mi], msg) {
                        Some(d) => {
                            out2.push(d);
                        },
                        None => {
                            // a member always has a channel
                            proof {
                                assert(false);
                            }
                        },
                    }
                    mi += 1;
                }
                return out2;
            }
            li += 1;
        }
        proof {
            if assoc_has(self.lobbies@, lobby_id) {
                let j = assoc_idx(self.lobbies@, lobby_id);
            }
            assert(self.members(lobby_id) =~= Seq::<SessionId>::empty());
        }
        out
    }

    /// Stores the outbound channel of a session, replacing a previous one.
    #[verifier::loop_isolation(false)]
    fn set_channel(&mut self, session_id: SessionId, channel: ChannelId)
        requires
            assoc_unique(old(self).sessions@),
            old(self).lists_wf(),
            old(self).members_disjoint(),
        ensures
            assoc_unique(final(self).sessions@),
            final(self).lobbies == old(self).lobbies,
            final(self).sessions_map() == old(self).sessions_map().insert(session_id, channel),
            final(self).lists_wf(),
            final(self).members_disjoint(),
            forall|s: SessionId|
                #[trigger] final(self).member_somewhere(s) == old(self).member_somewhere(s),
            final(self).lobby_of() == old(self).lobby_of(),
    {
        let mut i: usize = 0;
        while i < self.sessions.len()
            invariant
                *self == *old(self),
                i <= self.sessions@.len(),
                forall|j: int| 0 <= j < i ==> self.sessions@[j].0 != session_id,
            decreases self.sessions@.len() - i,
        {
            if self.sessions[i].0 == session_id {
                let ghost pre = *self;
                self.sessions[i] = (session_id, channel);
                proof {
                    lemma_assoc_update(pre.sessions@, self.sessions@, i as int);
                    Self::lemma_same_lobbies(*old(self), *self);
                }
                return ;
            }
            i += 1;
        }
        let ghost pre = *self;
        self.sessions.push((session_id, channel));
        proof {
            if assoc_has(pre.sessions@, session_id) {
                let j = assoc_idx(pre.sessions@, session_id);
            }
            assert(self.sessions@ =~= pre.sessions@.push((session_id, channel)));
            lemma_assoc_push(pre.sessions@, self.sessions@, session_id, channel);
            Self::lemma_same_lobbies(*old(self), *self);
        }
    }

    /// Drops the channel of a session, if one is registered.
    #[verifier::loop_isolation(false)]
    fn remove_session(&mut self, session_id: SessionId)
        requires
            assoc_unique(old(self).sessions@),
            old(self).lists_wf(),
            old(self).members_disjoint(),
        ensures
            assoc_unique(final(self).sessions@),
            final(self).lobbies == old(self).lobbies,
            final(self).sessions_map() == old(self).sessions_map().remove(session_id),
            final(self).lists_wf(),
            final(self).members_disjoint(),
            forall|s: SessionId|
                #[trigger] final(self).member_somewhere(s) == old(self).member_somewhere(s),
            final(self).lobby_of() == old(self).lobby_of(),
    {
        let mut i: usize = 0;
        while i < self.sessions.len()
            invariant
                *self == *old(self),
                i <= self.sessions@.len(),
                forall|j: int| 0 <= j < i ==> self.sessions@[j].0 != session_id,
            decreases self.sessions@.len() - i,
        {
            if self.sessions[i].0 == session_id {
                let ghost pre = *self;
                self.sessions.remove(i);
                proof {
                    lemma_assoc_remove(pre.sessions@, self.sessions@, i as int);
                    Self::lemma_same_lobbies(*old(self), *self);
                }
                return ;
            }
            i += 1;
        }
        proof {
            if assoc_has(self.sessions@, session_id) {
                let j = assoc_idx(self.sessions@, session_id);
            }
            assert(self.sessions_map() =~= old(self).sessions_map().remove(session_id));
            Self::lemma_same_lobbies(*old(self), *self);
        }
    }

    /// Takes a session out of whichever lobby holds it, dropping the lobby
    /// entry itself when its member set becomes empty.
    #[verifier::loop_isolation(false)]
    fn remove_membership(&mut self, session_id: SessionId)
        requires
            assoc_unique(old(self).lobbies@),
            old(self).lists_wf(),
            old(self).members_disjoint(),
        ensures
            final(self).sessions == old(self).sessions,
            assoc_unique(final(self).lobbies@),
            final(self).lists_wf(),
            final(self).members_disjoint(),
            final(self).lobby_of() == old(self).lobby_of().remove(session_id),
    {
        let mut li: usize = 0;
        while li < self.lobbies.len()
            invariant
                *self == *old(self),
                li <= self.lobbies@.len(),
                forall|lj: int| 0 <= lj < li ==> !self.lobbies@[lj].1@.contains(session_id),
            decreases self.lobbies@.len() - li,
        {
            let n = self.lobbies[li].1.len();
            let mut mi: usize = 0;
            while mi < n
                invariant
                    *self == *old(self),
                    0 <= li < self.lobbies@.len(),
                    n == self.lobbies@[li as int].1@.len(),
                    mi <= n,
                    forall|a: int| 0 <= a < mi ==> self.lobbies@[li as int].1@[a] != session_id,
                decreases n - mi,
            {
                if self.lobbies[li].1[mi] == session_id {
                    let ghost pre = *self;
                    let ghost plist = pre.lobbies@[li as int].1@;
                    proof {
                        assert(plist[mi as int] == session_id);
                        assert(plist.contains(session_id));
                        assert(pre.member_at(li as int, session_id));
                    }
                    if n == 1 {
                        // the lobby would be left empty: drop its entry
                        self.lobbies.remove(li);
                        proof {
                            lemma_assoc_remove(pre.lobbies@, self.lobbies@, li as int);
                            let m = self.lobbies@.len() as int;
                            assert(forall|j: int| 0 <= j < li ==> self.lobbies@[j] == pre.lobbies@[j]);
                            assert(forall|j: int|
                                li <= j < m ==> self.lobbies@[j] == pre.lobbies@[j + 1]);
                            assert forall|j: int| 0 <= j < m implies (#[trigger] self.lobbies@[j].1@).len()
                                > 0 && seq_unique(self.lobbies@[j].1@) by {
                                let j0 = if j < li {
                                    j
                                } else {
                                    j + 1
                                };
                                assert(self.lobbies@[j] == pre.lobbies@[j0]);
                            }
                            assert forall|a: int, b: int, s: SessionId|
                                self.member_at(a, s) && self.member_at(b, s) implies a == b by {
                                let a0 = if a < li {
                                    a
                                } else {
                                    a + 1
                                };
                                let b0 = if b < li {
                                    b
                                } else {
                                    b + 1
                                };
                                assert(pre.member_at(a0, s) && pre.member_at(b0, s));
                            }
                            assert forall|s: SessionId| #[trigger] self.member_somewhere(s) implies s
                                != session_id && pre.member_somewhere(s) by {
                                let a = self.member_li(s);
                                assert(self.member_at(a, s));
                                let a0 = if a < li {
                                    a
                                } else {
                                    a + 1
                                };
                                assert(pre.member_at(a0, s));
                                if s == session_id {
                                    assert(pre.member_at(li as int, session_id));
                                    assert(a0 == li);
                                }
                            }
                            assert forall|s: SessionId|
                                s != session_id && pre.member_somewhere(s) implies #[trigger] self.member_somewhere(
                                s,
                            ) by {
                                let a0 = pre.member_li(s);
                                assert(pre.member_at(a0, s));
                                if a0 == li {
                                    // the dropped list held only the leaving session
                                    assert(plist.len() == 1);
                                    assert(plist.contains(s));
                                    let x = choose|x: int| 0 <= x < plist.len() && plist[x] == s;
                                    assert(x == 0 && plist[0] == session_id);
                                } else {
                                    let a = if a0 < li {
                                        a0
                                    } else {
                                        a0 - 1
                                    };
                                    assert(self.lobbies@[a] == pre.lobbies@[a0]);
                                    assert(self.member_at(a, s));
                                }
                            }
                            assert forall|s: SessionId|
                                s != session_id && #[trigger] self.member_somewhere(s) implies self.lobbies@[self.member_li(
                                s,
                            )].0 == pre.lobbies@[pre.member_li(s)].0 by {
                                let a = self.member_li(s);
                                assert(self.member_at(a, s));
                                let a0 = if a < li {
                                    a
                                } else {
                                    a + 1
                                };
                                assert(pre.member_at(a0, s));
                                pre.lemma_member_li_unique(a0, s);
                                assert(self.lobbies@[a] == pre.lobbies@[a0]);
                            }
                            Self::lemma_lobby_of_remove(pre, *self, session_id);
                        }
                    } else {
                        self.lobbies[li].1.remove(mi);
                        proof {
                            let qlist = self.lobbies@[li as int].1@;
                            assert(qlist == plist.remove(mi as int));
                            assert(self.lobbies@ =~= pre.lobbies@.update(
                                li as int,
                                (pre.lobbies@[li as int].0, self.lobbies@[li as int].1),
                            ));
                            assert forall|a: int, b: int| 0 <= a < b < self.lobbies@.len() implies
                                self.lobbies@[a].0 != self.lobbies@[b].0 by {
                                assert(pre.lobbies@[a].0 != pre.lobbies@[b].0);
                            }
                            assert(seq_unique(plist));
                            // the shortened list: same sessions but the one removed
                            assert forall|s: SessionId| qlist.contains(s) implies plist.contains(s)
                                && s != session_id by {
                                let x = choose|x: int| 0 <= x < qlist.len() && qlist[x] == s;
                                let x0 = if x < mi {
                                    x
                                } else {
                                    x + 1
                                };
                                assert(plist[x0] == s);
                                if s == session_id {
                                    assert(x0 != mi);
                                    assert(plist[mi as int] == plist[x0]);
                                }
                            }
                            assert forall|s: SessionId|
                                plist.contains(s) && s != session_id implies qlist.contains(s) by {
                                let x0 = choose|x0: int| 0 <= x0 < plist.len() && plist[x0] == s;
                                assert(x0 != mi);
                                let x = if x0 < mi {
                                    x0
                                } else {
                                    x0 - 1
                                };
                                assert(qlist[x] == s);
                            }
                            assert forall|j: int| 0 <= j < self.lobbies@.len() implies (
                            #[trigger] self.lobbies@[j].1@).len() > 0 && seq_unique(
                                self.lobbies@[j].1@,
                            ) by {
                                if j != li {
                                    assert(self.lobbies@[j] == pre.lobbies@[j]);
                                } else {
                                    assert(qlist.len() == n - 1 >= 1);
                                    assert forall|x: int, y: int| 0 <= x < y < qlist.len() implies
                                        qlist[x] != qlist[y] by {
                                        let x0 = if x < mi {
                                            x
                                        } else {
                                            x + 1
                                        };
                                        let y0 = if y < mi {
                                            y
                                        } else {
                                            y + 1
                                        };
                                        assert(plist[x0] != plist[y0]);
                                    }
                                }
                            }
                            assert forall|a: int, s: SessionId| #[trigger] self.member_at(a, s) implies
                                pre.member_at(a, s) && !(a == li && s == session_id) by {
                                if a == li {
                                    assert(qlist.contains(s));
                                } else {
                                    assert(self.lobbies@[a] == pre.lobbies@[a]);
                                }
                            }
                            assert forall|a: int, b: int, s: SessionId|
                                self.member_at(a, s) && self.member_at(b, s) implies a == b by {
                                assert(pre.member_at(a, s) && pre.member_at(b, s));
                            }
                            assert forall|s: SessionId| #[trigger] self.member_somewhere(s) implies s
                                != session_id && pre.member_somewhere(s) by {
                                let a = self.member_li(s);
                                assert(self.member_at(a, s));
                                assert(pre.member_at(a, s));
                                if s == session_id {
                                    assert(pre.member_at(li as int, session_id));
                                    assert(a == li);
                                    assert(qlist.contains(session_id));
                                }
                            }
                            assert forall|s: SessionId|
                                s != session_id && pre.member_somewhere(s) implies #[trigger] self.member_somewhere(
                                s,
                            ) by {
                                let a0 = pre.member_li(s);
                                assert(pre.member_at(a0, s));
                                if a0 == li {
                                    assert(plist.contains(s));
                                    assert(qlist.contains(s));
                                    assert(self.member_at(li as int, s));
                                } else {
                                    assert(self.lobbies@[a0] == pre.lobbies@[a0]);
                                    assert(self.member_at(a0, s));
                                }
                            }
                            assert forall|s: SessionId|
                                s != session_id && #[trigger] self.member_somewhere(s) implies self.lobbies@[self.member_li(
                                s,
                            )].0 == pre.lobbies@[pre.member_li(s)].0 by {
                                let a = self.member_li(s);
                                assert(self.member_at(a, s));
                                assert(pre.member_at(a, s));
                                pre.lemma_member_li_unique(a, s);
                                assert(self.lobbies@[a].0 == pre.lobbies@[a].0);
                            }
                            Self::lemma_lobby_of_remove(pre, *self, session_id);
                        }
                    }
                    return ;
                }
                mi += 1;
            }
            proof {
                assert(!self.lobbies@[li as int].1@.contains(session_id));
            }
            li += 1;
        }
        proof {
            if self.member_somewhere(session_id) {
                let a = self.member_li(session_id);
                assert(self.member_at(a, session_id));
            }
            assert(self.lobby_of() =~= old(self).lobby_of().remove(session_id));
        }
    }

    /// Puts a session into a lobby's member set, creating the lobby entry on
    /// first use. The session must not currently sit in any lobby.
    #[verifier::loop_isolation(false)]
    fn add_membership(&mut self, session_id: SessionId, lobby_id: LobbyId)
        requires
            assoc_unique(old(self).lobbies@),
            old(self).lists_wf(),
            old(self).members_disjoint(),
            !old(self).member_somewhere(session_id),
        ensures
            final(self).sessions == old(self).sessions,
            assoc_unique(final(self).lobbies@),
            final(self).lists_wf(),
            final(self).members_disjoint(),
            final(self).lobby_of() == old(self).lobby_of().insert(session_id, lobby_id),
    {
        let mut li: usize = 0;
        while li < self.lobbies.len()
            invariant
                *self == *old(self),
                li <= self.lobbies@.len(),
                forall|lj: int| 0 <= lj < li ==> self.lobbies@[lj].0 != lobby_id,
            decreases self.lobbies@.len() - li,
        {
            if self.lobbies[li].0 == lobby_id {
                let ghost pre = *self;
                let ghost plist = pre.lobbies@[li as int].1@;
                self.lobbies[li].1.push(session_id);
                proof {
                    let qlist = self.lobbies@[li as int].1@;
                    assert(qlist == plist.push(session_id));
                    assert(self.lobbies@ =~= pre.lobbies@.update(
                        li as int,
                        (pre.lobbies@[li as int].0, self.lobbies@[li as int].1),
                    ));
                    assert forall|a: int, b: int| 0 <= a < b < self.lobbies@.len() implies
                        self.lobbies@[a].0 != self.lobbies@[b].0 by {
                        assert(pre.lobbies@[a].0 != pre.lobbies@[b].0);
                    }
                    assert(!pre.member_at(li as int, session_id));
                    assert(!plist.contains(session_id));
                    assert forall|s: SessionId| qlist.contains(s) implies plist.contains(s) || s
                        == session_id by {
                        let x = choose|x: int| 0 <= x < qlist.len() && qlist[x] == s;
                        if x < plist.len() {
                            assert(plist[x] == s);
                        }
                    }
                    assert forall|j: int| 0 <= j < self.lobbies@.len() implies (
                    #[trigger] self.lobbies@[j].1@).len() > 0 && seq_unique(self.lobbies@[j].1@) by {
                        if j != li {
                            assert(self.lobbies@[j] == pre.lobbies@[j]);
                        } else {
                            assert forall|x: int, y: int| 0 <= x < y < qlist.len() implies qlist[x]
                                != qlist[y] by {
                                if y < plist.len() {
                                    assert(plist[x] != plist[y]);
                                } else {
                                    assert(qlist[y] == session_id);
                                    if qlist[x] == session_id {
                                        assert(plist[x] == session_id);
                                        assert(plist.contains(session_id));
                                    }
                                }
                            }
                        }
                    }
                    assert forall|a: int, s: SessionId| #[trigger] self.member_at(a, s) implies
                        pre.member_at(a, s) || (a == li && s == session_id) by {
                        if a == li {
                            assert(qlist.contains(s));
                            if s != session_id {
                                assert(plist.contains(s));
                            }
                        } else {
                            assert(self.lobbies@[a] == pre.lobbies@[a]);
                        }
                    }
                    assert forall|a: int, b: int, s: SessionId|
                        self.member_at(a, s) && self.member_at(b, s) implies a == b by {
                        if s == session_id {
                            if a != li {
                                assert(pre.member_at(a, s));
                            }
                            if b != li {
                                assert(pre.member_at(b, s));
                            }
                        } else {
                            assert(pre.member_at(a, s) && pre.member_at(b, s));
                        }
                    }
                    assert(plist.len() < qlist.len());
                    assert(qlist[plist.len() as int] == session_id);
                    assert(qlist.contains(session_id));
                    assert(self.member_at(li as int, session_id));
                    self.lemma_member_li_unique(li as int, session_id);
                    assert forall|s: SessionId|
                        s != session_id implies (#[trigger] self.member_somewhere(s)
                            <==> pre.member_somewhere(s)) by {
                        if self.member_somewhere(s) {
                            let a = self.member_li(s);
                            assert(self.member_at(a, s));
                            assert(pre.member_at(a, s));
                        }
                        if pre.member_somewhere(s) {
                            let a = pre.member_li(s);
                            assert(pre.member_at(a, s));
                            if a == li {
                                assert(plist.contains(s));
                                let x = choose|x: int| 0 <= x < plist.len() && plist[x] == s;
                                assert(qlist[x] == s);
                                assert(qlist.contains(s));
                                assert(self.member_at(li as int, s));
                            } else {
                                assert(self.lobbies@[a] == pre.lobbies@[a]);
                                assert(self.member_at(a, s));
                            }
                        }
                    }
                    assert forall|s: SessionId|
                        s != session_id && #[trigger] self.member_somewhere(s) implies self.lobbies@[self.member_li(
                        s,
                    )].0 == pre.lobbies@[pre.member_li(s)].0 by {
                        let a = self.member_li(s);
                        assert(self.member_at(a, s));
                        assert(pre.member_at(a, s));
                        pre.lemma_member_li_unique(a, s);
                        assert(self.lobbies@[a].0 == pre.lobbies@[a].0);
                    }
                    Self::lemma_lobby_of_insert(pre, *self, session_id, lobby_id);
                }
                return ;
            }
            li += 1;
        }
        let ghost pre = *self;
        let mut mems: Vec<SessionId> = Vec::new();
        mems.push(session_id);
        self.lobbies.push((lobby_id, mems));
        proof {
            let n = pre.lobbies@.len() as int;
            assert(self.lobbies@.len() == n + 1);
            assert(forall|j: int| 0 <= j < n ==> self.lobbies@[j] == pre.lobbies@[j]);
            assert(self.lobbies@[n].0 == lobby_id);
            assert(self.lobbies@[n].1@ =~= seq![session_id]);
            assert forall|a: int, b: int| 0 <= a < b < self.lobbies@.len() implies self.lobbies@[a].0
                != self.lobbies@[b].0 by {
                if b < n {
                    assert(pre.lobbies@[a].0 != pre.lobbies@[b].0);
                } else {
                    assert(pre.lobbies@[a].0 != lobby_id);
                }
            }
            assert forall|j: int| 0 <= j < self.lobbies@.len() implies (
            #[trigger] self.lobbies@[j].1@).len() > 0 && seq_unique(self.lobbies@[j].1@) by {
                if j < n {
                    assert(self.lobbies@[j] == pre.lobbies@[j]);
                }
            }
            assert forall|a: int, s: SessionId| #[trigger] self.member_at(a, s) implies
                pre.member_at(a, s) || (a == n && s == session_id) by {
                if a == n {
                    let x = choose|x: int|
                        0 <= x < self.lobbies@[n].1@.len() && self.lobbies@[n].1@[x] == s;
                    assert(s == session_id);
                } else {
                    assert(self.lobbies@[a] == pre.lobbies@[a]);
                }
            }
            assert forall|a: int, b: int, s: SessionId|
                self.member_at(a, s) && self.member_at(b, s) implies a == b by {
                if s == session_id {
                    if a != n {
                        assert(pre.member_at(a, s));
                    }
                    if b != n {
                        assert(pre.member_at(b, s));
                    }
                } else {
                    assert(pre.member_at(a, s) && pre.member_at(b, s));
                }
            }
            assert(self.lobbies@[n].1@[0] == session_id);
            assert(self.lobbies@[n].1@.contains(session_id));
            assert(self.member_at(n, session_id));
            self.lemma_member_li_unique(n, session_id);
            assert forall|s: SessionId|
                s != session_id implies (#[trigger] self.member_somewhere(s)
                    <==> pre.member_somewhere(s)) by {
                if self.member_somewhere(s) {
                    let a = self.member_li(s);
                    assert(self.member_at(a, s));
                    assert(pre.member_at(a, s));
                }
                if pre.member_somewhere(s) {
                    let a = pre.member_li(s);
                    assert(pre.member_at(a, s));
                    assert(self.lobbies@[a] == pre.lobbies@[a]);
                    assert(self.member_at(a, s));
                }
            }
            assert forall|s: SessionId|
                s != session_id && #[trigger] self.member_somewhere(s) implies self.lobbies@[self.member_li(
                s,
            )].0 == pre.lobbies@[pre.member_li(s)].0 by {
                let a = self.member_li(s);
                assert(self.member_at(a, s));
                assert(pre.member_at(a, s));
                pre.lemma_member_li_unique(a, s);
                assert(self.lobbies@[a].0 == pre.lobbies@[a].0);
            }
            Self::lemma_lobby_of_insert(pre, *self, session_id, lobby_id);
        }
    }

    /// Registers a session in a lobby with its outbound channel. Re-connects
    /// with the same id replace the channel, and a session that was watching
    /// another lobby moves — it never sits in two.
    pub fn connect(&mut self, session_id: SessionId, lobby_id: LobbyId, channel: ChannelId)
        requires
            old(self).wf(),
        ensures
            final(self).wf(),
            final(self).sessions_map() == old(self).sessions_map().insert(session_id, channel),
            final(self).lobby_of() == old(self).lobby_of().insert(session_id, lobby_id),
    {
        self.remove_membership(session_id);
        self.set_channel(session_id, channel);
        proof {
            if self.member_somewhere(session_id) {
                assert(self.lobby_of().dom().contains(session_id));
            }
        }
        self.add_membership(session_id, lobby_id);
        proof {
            assert(self.lobby_of() =~= old(self).lobby_of().insert(session_id, lobby_id));
            let post = *self;
            assert forall|s: SessionId| #[trigger] post.member_somewhere(s) implies post.has_session(
                s,
            ) by {
                assert(post.lobby_of().dom().contains(s));
                if s != session_id {
                    assert(old(self).lobby_of().dom().contains(s));
                    assert(old(self).member_somewhere(s));
                    assert(old(self).has_session(s));
                    assert(old(self).sessions_map().dom().contains(s));
                    assert(post.sessions_map().dom().contains(s));
                } else {
                    assert(post.sessions_map().dom().contains(s));
                }
            }
            assert forall|s: SessionId| #[trigger] post.has_session(s) implies post.member_somewhere(
                s,
            ) by {
                assert(post.sessions_map().dom().contains(s));
                if s != session_id {
                    assert(old(self).sessions_map().dom().contains(s));
                    assert(old(self).has_session(s));
                    assert(old(self).member_somewhere(s));
                    assert(old(self).lobby_of().dom().contains(s));
                    assert(post.lobby_of().dom().contains(s));
                } else {
                    assert(post.lobby_of().dom().contains(s));
                }
            }
        }
    }

    /// Releases a session: its channel is dropped and it leaves its lobby,
    /// whose entry disappears if it held no one else. Unknown sessions are a
    /// no-op, so a disconnect racing an eviction stays harmless.
    pub fn disconnect(&mut self, session_id: SessionId)
        requires
            old(self).wf(),
        ensures
            final(self).wf(),
            final(self).sessions_map() == old(self).sessions_map().remove(session_id),
            final(self).lobby_of() == old(self).lobby_of().remove(session_id),
    {
        self.remove_session(session_id);
        self.remove_membership(session_id);
        proof {
            let post = *self;
            assert forall|s: SessionId| #[trigger] post.member_somewhere(s) implies post.has_session(
                s,
            ) by {
                assert(post.lobby_of().dom().contains(s));
                assert(s != session_id);
                assert(old(self).lobby_of().dom().contains(s));
                assert(old(self).member_somewhere(s));
                assert(old(self).has_session(s));
                assert(old(self).sessions_map().dom().contains(s));
                assert(post.sessions_map().dom().contains(s));
            }
            assert forall|s: SessionId| #[trigger] post.has_session(s) implies post.member_somewhere(
                s,
            ) by {
                assert(post.sessions_map().dom().contains(s));
                assert(s != session_id);
                assert(old(self).sessions_map().dom().contains(s));
                assert(old(self).has_session(s));
                assert(old(self).member_somewhere(s));
                assert(old(self).lobby_of().dom().contains(s));
                assert(post.lobby_of().dom().contains(s));
            }
        }
    }
}

} // verus!
