//! Index of the content store.
//!
//! The durable store keeps two files per image (full and thumbnail) under a
//! path derived from `(lobby, room, image)`. This module is the authoritative
//! index of that hierarchy: which rooms exist under which lobby, and which
//! image ids a room holds, newest first. The unverified shell mirrors every
//! mutation of the index onto the filesystem; existence of an id in the index
//! is the model of "the full-variant file exists".
//!
//! The index is viewed as a map from `(lobby, room)` to the sequence of image
//! ids of that room, and every operation's contract is stated against that
//! map.
use vstd::prelude::*;

use crate::{ImgId, LobbyId, RoomId};

verus! {

/// A sequence without repeated elements.
pub open spec fn seq_unique<T>(s: Seq<T>) -> bool {
    forall|i: int, j: int| 0 <= i < j < s.len() ==> s[i] != s[j]
}

/// Index of every stored image, grouped by lobby and room.
pub struct ImgStore {
    rooms: Vec<(LobbyId, RoomId, Vec<ImgId>)>,
}

/// The map after a room gained an image at the front, unless it already held
/// it.
pub open spec fn spec_insert_img(
    m: Map<(LobbyId, RoomId), Seq<ImgId>>,
    lobby: LobbyId,
    room: RoomId,
    img: ImgId,
) -> Map<(LobbyId, RoomId), Seq<ImgId>> {
    if m.dom().contains((lobby, room)) {
        if m[(lobby, room)].contains(img) {
            m
        } else {
            m.insert((lobby, room), seq![img] + m[(lobby, room)])
        }
    } else {
        m.insert((lobby, room), seq![img])
    }
}

/// The map after one image id was dropped from a room; missing rooms and
/// missing ids change nothing.
pub open spec fn spec_remove_img(
    m: Map<(LobbyId, RoomId), Seq<ImgId>>,
    lobby: LobbyId,
    room: RoomId,
    img: ImgId,
) -> Map<(LobbyId, RoomId), Seq<ImgId>> {
    if m.dom().contains((lobby, room)) {
        m.insert((lobby, room), m[(lobby, room)].remove_value(img))
    } else {
        m
    }
}

impl ImgStore {
    pub closed spec fn has_key(self, k: (LobbyId, RoomId)) -> bool {
        exists|i: int|
            0 <= i < self.rooms@.len() && (self.rooms@[i].0, self.rooms@[i].1) == k
    }

    spec fn key_idx(self, k: (LobbyId, RoomId)) -> int {
        choose|i: int|
            0 <= i < self.rooms@.len() && (self.rooms@[i].0, self.rooms@[i].1) == k
    }

    /// The rooms of the store, each with its image ids, newest first.
    pub closed spec fn view(self) -> Map<(LobbyId, RoomId), Seq<ImgId>> {
        Map::new(|k: (LobbyId, RoomId)| self.has_key(k), |k| self.rooms@[self.key_idx(k)].2@)
    }

    /// Every `(lobby, room)` key occurs once and no room repeats an image id.
    pub closed spec fn wf(self) -> bool {
        &&& forall|i: int, j: int|
            0 <= i < j < self.rooms@.len() ==> (self.rooms@[i].0, self.rooms@[i].1) != (
            self.rooms@[j].0,
            self.rooms@[j].1,
            )
        &&& forall|i: int| 0 <= i < self.rooms@.len() ==> seq_unique(#[trigger] self.rooms@[i].2@)
    }

    /// An image exists exactly when its room lists its id.
    pub open spec fn spec_has_img(self, lobby: LobbyId, room: RoomId, img: ImgId) -> bool {
        self@.dom().contains((lobby, room)) && self@[(lobby, room)].contains(img)
    }

    /// In a well-formed store a room holds each of its ids exactly once.
    pub proof fn lemma_room_unique(self, lobby: LobbyId, room: RoomId)
        requires
            self.wf(),
            self@.dom().contains((lobby, room)),
        ensures
            seq_unique(self@[(lobby, room)]),
    {
        let i = self.key_idx((lobby, room));
    }

    proof fn lemma_idx(self, i: int)
        requires
            forall|a: int, b: int|
                0 <= a < b < self.rooms@.len() ==> (self.rooms@[a].0, self.rooms@[a].1) != (
                self.rooms@[b].0,
                self.rooms@[b].1,
                ),
            0 <= i < self.rooms@.len(),
        ensures
            self.has_key((self.rooms@[i].0, self.rooms@[i].1)),
            self.key_idx((self.rooms@[i].0, self.rooms@[i].1)) == i,
    {
        let k = (self.rooms@[i].0, self.rooms@[i].1);
        assert(self.has_key(k));
        let j = self.key_idx(k);
        if i < j {
            assert((self.rooms@[i].0, self.rooms@[i].1) != (self.rooms@[j].0, self.rooms@[j].1));
        } else if j < i {
            assert((self.rooms@[j].0, self.rooms@[j].1) != (self.rooms@[i].0, self.rooms@[i].1));
        }
    }

    pub fn new() -> (s: Self)
        ensures
            s.wf(),
            s@ == Map::<(LobbyId, RoomId), Seq<ImgId>>::empty(),
    {
        let s = ImgStore { rooms: Vec::new() };
        proof {
            assert(s@ =~= Map::<(LobbyId, RoomId), Seq<ImgId>>::empty());
        }
        s
    }

    fn find_room(&self, lobby: LobbyId, room: RoomId) -> (r: Option<usize>)
        ensures
            match r {
                Some(i) => 0 <= i < self.rooms@.len() && self.rooms@[i as int].0 == lobby
                    && self.rooms@[i as int].1 == room,
                None => !self.has_key((lobby, room)),
            },
    {
        let mut i: usize = 0;
        while i < self.rooms.len()
            invariant
                i <= self.rooms@.len(),
                forall|j: int|
                    0 <= j < i ==> (self.rooms@[j].0, self.rooms@[j].1) != (lobby, room),
            decreases self.rooms@.len() - i,
        {
            if self.rooms[i].0 == lobby && self.rooms[i].1 == room {
                return Some(i);
            }
            i += 1;
        }
        None
    }

    /// Whether the full variant of `img` is stored under `(lobby, room)`.
    pub fn has_img(&self, lobby: LobbyId, room: RoomId, img: ImgId) -> (r: bool)
        requires
            self.wf(),
        ensures
            r == self.spec_has_img(lobby, room, img),
    {
        match self.find_room(lobby, room) {
            None => false,
            Some(i) => {
                proof {
                    self.lemma_find_same(i as int, lobby, room);
                }
                let imgs = &self.rooms[i].2;
                let mut j: usize = 0;
                let mut present = false;
                while j < imgs.len()
                    invariant
                        j <= imgs@.len(),
                        present == exists|a: int| 0 <= a < j && imgs@[a] == img,
                    decreases imgs@.len() - j,
                {
                    if imgs[j] == img {
                        present = true;
                    }
                    j += 1;
                }
                present
            },
        }
    }

    /// Any index holding the key reads the same images as the view.
    proof fn lemma_find_same(self, i: int, lobby: LobbyId, room: RoomId)
        requires
            0 <= i < self.rooms@.len(),
            self.rooms@[i].0 == lobby,
            self.rooms@[i].1 == room,
        ensures
            self@.dom().contains((lobby, room)),
            self.wf() ==> self@[(lobby, room)] == self.rooms@[i].2@,
    {
        assert(self.has_key((lobby, room)));
        if self.wf() {
            self.lemma_idx(i);
        }
    }

    spec fn keys_unique(self) -> bool {
        forall|i: int, j: int|
            0 <= i < j < self.rooms@.len() ==> (self.rooms@[i].0, self.rooms@[i].1) != (
            self.rooms@[j].0,
            self.rooms@[j].1,
            )
    }

    /// Replacing the images of one room replaces one entry of the view.
    proof fn lemma_view_update(pre: Self, post: Self, i: int)
        requires
            pre.keys_unique(),
            0 <= i < pre.rooms@.len(),
            post.rooms@.len() == pre.rooms@.len(),
            post.rooms@[i].0 == pre.rooms@[i].0,
            post.rooms@[i].1 == pre.rooms@[i].1,
            forall|j: int| 0 <= j < pre.rooms@.len() && j != i ==> post.rooms@[j] == pre.rooms@[j],
        ensures
            post.keys_unique(),
            post@ == pre@.insert((pre.rooms@[i].0, pre.rooms@[i].1), post.rooms@[i].2@),
    {
        assert forall|a: int, b: int| 0 <= a < b < post.rooms@.len() implies (
        post.rooms@[a].0,
        post.rooms@[a].1,
        ) != (post.rooms@[b].0, post.rooms@[b].1) by {
            assert((pre.rooms@[a].0, pre.rooms@[a].1) != (pre.rooms@[b].0, pre.rooms@[b].1));
        }
        let k = (pre.rooms@[i].0, pre.rooms@[i].1);
        assert forall|x: (LobbyId, RoomId)| #[trigger] post.has_key(x) == (pre.has_key(x) || x
            == k) by {
            if post.has_key(x) {
                let j = post.key_idx(x);
                if j != i {
                    assert(pre.has_key(x));
                }
            }
            if pre.has_key(x) {
                let j = pre.key_idx(x);
                assert((post.rooms@[j].0, post.rooms@[j].1) == x);
            }
            if x == k {
                assert((post.rooms@[i].0, post.rooms@[i].1) == x);
            }
        }
        assert(pre.has_key(k));
        assert forall|x: (LobbyId, RoomId)| post.has_key(x) implies post@[x] == pre@.insert(
            k,
            post.rooms@[i].2@,
        )[x] by {
            post.lemma_idx(post.key_idx(x));
            if x == k {
                pre.lemma_idx(i);
                post.lemma_idx(i);
                assert(post.key_idx(x) == i);
            } else {
                let j = post.key_idx(x);
                assert(j != i);
                pre.lemma_idx(j);
            }
        }
        assert(post@ =~= pre@.insert(k, post.rooms@[i].2@));
    }

    /// Appending a room with a fresh key adds one entry to the view.
    proof fn lemma_view_push(pre: Self, post: Self, lobby: LobbyId, room: RoomId)
        requires
            pre.keys_unique(),
            !pre.has_key((lobby, room)),
            post.rooms@.len() == pre.rooms@.len() + 1,
            post.rooms@[pre.rooms@.len() as int].0 == lobby,
            post.rooms@[pre.rooms@.len() as int].1 == room,
            forall|j: int| 0 <= j < pre.rooms@.len() ==> post.rooms@[j] == pre.rooms@[j],
        ensures
            post.keys_unique(),
            post@ == pre@.insert((lobby, room), post.rooms@[pre.rooms@.len() as int].2@),
    {
        let n = pre.rooms@.len() as int;
        assert forall|a: int, b: int| 0 <= a < b < post.rooms@.len() implies (
        post.rooms@[a].0,
        post.rooms@[a].1,
        ) != (post.rooms@[b].0, post.rooms@[b].1) by {
            if b < n {
                assert((pre.rooms@[a].0, pre.rooms@[a].1) != (pre.rooms@[b].0, pre.rooms@[b].1));
            } else {
                if (post.rooms@[a].0, post.rooms@[a].1) == (lobby, room) {
                    assert(pre.has_key((lobby, room)));
                }
            }
        }
        let k = (lobby, room);
        assert forall|x: (LobbyId, RoomId)| #[trigger] post.has_key(x) == (pre.has_key(x) || x
            == k) by {
            if post.has_key(x) {
                let j = post.key_idx(x);
                if j < n {
                    assert(pre.has_key(x));
                }
            }
            if pre.has_key(x) {
                let j = pre.key_idx(x);
                assert((post.rooms@[j].0, post.rooms@[j].1) == x);
            }
            if x == k {
                assert((post.rooms@[n].0, post.rooms@[n].1) == x);
            }
        }
        assert forall|x: (LobbyId, RoomId)| post.has_key(x) implies post@[x] == pre@.insert(
            k,
            post.rooms@[n].2@,
        )[x] by {
            if x == k {
                post.lemma_idx(n);
            } else {
                let j = post.key_idx(x);
                post.lemma_idx(j);
                assert(j != n);
                pre.lemma_idx(j);
            }
        }
        assert(post@ =~= pre@.insert(k, post.rooms@[n].2@));
    }

    /// Dropping one room drops one entry of the view.
    proof fn lemma_view_remove(pre: Self, post: Self, i: int)
        requires
            pre.keys_unique(),
            0 <= i < pre.rooms@.len(),
            post.rooms@ == pre.rooms@.remove(i),
        ensures
            post.keys_unique(),
            post@ == pre@.remove((pre.rooms@[i].0, pre.rooms@[i].1)),
    {
        let n = pre.rooms@.len() as int;
        let k = (pre.rooms@[i].0, pre.rooms@[i].1);
        assert(post.rooms@.len() == n - 1);
        assert(forall|j: int| 0 <= j < i ==> post.rooms@[j] == pre.rooms@[j]);
        assert(forall|j: int| i <= j < n - 1 ==> post.rooms@[j] == pre.rooms@[j + 1]);
        assert forall|a: int, b: int| 0 <= a < b < post.rooms@.len() implies (
        post.rooms@[a].0,
        post.rooms@[a].1,
        ) != (post.rooms@[b].0, post.rooms@[b].1) by {
            let a0 = if a < i {
                a
            } else {
                a + 1
            };
            let b0 = if b < i {
                b
            } else {
                b + 1
            };
            assert((pre.rooms@[a0].0, pre.rooms@[a0].1) != (pre.rooms@[b0].0, pre.rooms@[b0].1));
        }
        pre.lemma_idx(i);
        assert forall|x: (LobbyId, RoomId)| #[trigger] post.has_key(x) == (pre.has_key(x) && x
            != k) by {
            if post.has_key(x) {
                let j = post.key_idx(x);
                let j0 = if j < i {
                    j
                } else {
                    j + 1
                };
                assert((pre.rooms@[j0].0, pre.rooms@[j0].1) == x);
                assert(pre.has_key(x));
                pre.lemma_idx(j0);
                assert(j0 != i);
                assert(x != k);
            }
            if pre.has_key(x) && x != k {
                let j = pre.key_idx(x);
                assert(j != i);
                let j1 = if j < i {
                    j
                } else {
                    j - 1
                };
                assert((post.rooms@[j1].0, post.rooms@[j1].1) == x);
            }
        }
        assert forall|x: (LobbyId, RoomId)| post.has_key(x) implies post@[x] == pre@.remove(k)[x] by {
            let j = post.key_idx(x);
            post.lemma_idx(j);
            let j0 = if j < i {
                j
            } else {
                j + 1
            };
            pre.lemma_idx(j0);
            assert(post.rooms@[j].2@ == pre.rooms@[j0].2@);
        }
        assert(post@ =~= pre@.remove(k));
    }

    /// Records that `img` is stored under `(lobby, room)`, creating the room
    /// on first use and leaving everything untouched when the id is already
    /// present — the dedup fast path. Returns whether the id was new.
    #[verifier::loop_isolation(false)]
    pub fn insert_img(&mut self, lobby: LobbyId, room: RoomId, img: ImgId) -> (fresh: bool)
        requires
            old(self).wf(),
        ensures
            final(self).wf(),
            fresh == !old(self).spec_has_img(lobby, room, img),
            final(self)@ == spec_insert_img(old(self)@, lobby, room, img),
    {
        match self.find_room(lobby, room) {
            Some(i) => {
                proof {
                    self.lemma_find_same(i as int, lobby, room);
                }
                let mut j: usize = 0;
                let n = self.rooms[i].2.len();
                let ghost orig = *self;
                while j < n
                    invariant
                        *self == orig,
                        orig == *old(self),
                        j <= n,
                        n == self.rooms@[i as int].2@.len(),
                        0 <= i < self.rooms@.len(),
                        self.rooms@[i as int].0 == lobby,
                        self.rooms@[i as int].1 == room,
                        forall|a: int| 0 <= a < j ==> self.rooms@[i as int].2@[a] != img,
                    decreases n - j,
                {
                    if self.rooms[i].2[j] == img {
                        proof {
                            self.lemma_find_same(i as int, lobby, room);
                            assert(self.rooms@[i as int].2@[j as int] == img);
                            assert(self@[(lobby, room)].contains(img));
                            assert(spec_insert_img(self@, lobby, room, img) =~= self@);
                        }
                        return false;
                    }
                    j += 1;
                }
                assert(!self.rooms@[i as int].2@.contains(img));
                let ghost pre = *self;
                self.rooms[i].2.insert(0, img);
                proof {
                    Self::lemma_view_update(pre, *self, i as int);
                    assert(self.rooms@[i as int].2@ =~= seq![img] + pre.rooms@[i as int].2@);
                    assert forall|a: int| 0 <= a < self.rooms@.len() implies seq_unique(
                        #[trigger] self.rooms@[a].2@,
                    ) by {
                        if a != i {
                            assert(self.rooms@[a] == pre.rooms@[a]);
                            assert(seq_unique(pre.rooms@[a].2@));
                        } else {
                            let s = self.rooms@[a].2@;
                            assert forall|x: int, y: int| 0 <= x < y < s.len() implies s[x]
                                != s[y] by {
                                if x == 0 {
                                    assert(s[y] == pre.rooms@[i as int].2@[y - 1]);
                                    assert(pre.rooms@[i as int].2@.contains(
                                        pre.rooms@[i as int].2@[y - 1],
                                    ));
                                } else {
                                    assert(seq_unique(pre.rooms@[i as int].2@));
                                }
                            }
                        }
                    }
                    assert(final(self)@ == spec_insert_img(pre@, lobby, room, img));
                }
                true
            },
            None => {
                let ghost pre = *self;
                let mut imgs: Vec<ImgId> = Vec::new();
                imgs.push(img);
                self.rooms.push((lobby, room, imgs));
                proof {
                    Self::lemma_view_push(pre, *self, lobby, room);
                    assert(self.rooms@[pre.rooms@.len() as int].2@ =~= seq![img]);
                    assert(!pre@.dom().contains((lobby, room)));
                    assert forall|a: int| 0 <= a < self.rooms@.len() implies seq_unique(
                        #[trigger] self.rooms@[a].2@,
                    ) by {
                        if a < pre.rooms@.len() {
                            assert(self.rooms@[a] == pre.rooms@[a]);
                            assert(seq_unique(pre.rooms@[a].2@));
                        }
                    }
                    assert(final(self)@ == spec_insert_img(pre@, lobby, room, img));
                }
                true
            },
        }
    }

    /// Forgets `img` under `(lobby, room)`; a missing room or id is a no-op,
    /// which makes image deletion idempotent.
    #[verifier::loop_isolation(false)]
    pub fn remove_img(&mut self, lobby: LobbyId, room: RoomId, img: ImgId)
        requires
            old(self).wf(),
        ensures
            final(self).wf(),
            final(self)@ == spec_remove_img(old(self)@, lobby, room, img),
            !final(self).spec_has_img(lobby, room, img),
    {
        match self.find_room(lobby, room) {
            None => {
                assert(final(self)@ =~= spec_remove_img(old(self)@, lobby, room, img));
            },
            Some(i) => {
                proof {
                    self.lemma_find_same(i as int, lobby, room);
                }
                let n = self.rooms[i].2.len();
                let mut j: usize = 0;
                let ghost orig = *self;
                while j < n
                    invariant
                        *self == orig,
                        orig == *old(self),
                        j <= n,
                        n == self.rooms@[i as int].2@.len(),
                        0 <= i < self.rooms@.len(),
                        self.rooms@[i as int].0 == lobby,
                        self.rooms@[i as int].1 == room,
                        forall|a: int| 0 <= a < j ==> self.rooms@[i as int].2@[a] != img,
                    decreases n - j,
                {
                    if self.rooms[i].2[j] == img {
                        let ghost pre = *self;
                        proof {
                            pre.lemma_find_same(i as int, lobby, room);
                        }
                        let ghost s = pre.rooms@[i as int].2@;
                        self.rooms[i].2.remove(j);
                        proof {
                            Self::lemma_view_update(pre, *self, i as int);
                            // the scan stopped at the first (and by
                            // uniqueness, only) occurrence
                            assert(seq_unique(s));
                            assert(s.contains(img));
                            s.index_of_first_ensures(img);
                            let f = s.index_of_first(img)->Some_0;
                            if f != j as int {
                                assert(s[f] == img && s[j as int] == img);
                            }
                            assert(s.remove_value(img) == s.remove(j as int));
                            assert forall|a: int| 0 <= a < self.rooms@.len() implies seq_unique(
                                #[trigger] self.rooms@[a].2@,
                            ) by {
                                if a != i {
                                    assert(self.rooms@[a] == pre.rooms@[a]);
                                    assert(seq_unique(pre.rooms@[a].2@));
                                } else {
                                    let t = self.rooms@[a].2@;
                                    assert forall|x: int, y: int| 0 <= x < y < t.len() implies t[x]
                                        != t[y] by {
                                        let x0 = if x < j {
                                            x
                                        } else {
                                            x + 1
                                        };
                                        let y0 = if y < j {
                                            y
                                        } else {
                                            y + 1
                                        };
                                        assert(s[x0] != s[y0]);
                                    }
                                }
                            }
                            assert(final(self)@ == spec_remove_img(pre@, lobby, room, img));
                        }
                        return ;
                    }
                    j += 1;
                }
                proof {
                    self.lemma_find_same(i as int, lobby, room);
                    let s = self.rooms@[i as int].2@;
                    assert(!s.contains(img));
                    s.index_of_first_ensures(img);
                    assert(s.remove_value(img) == s);
                    assert(self@[(lobby, room)] == s);
                    assert(self@.insert((lobby, room), s) =~= self@);
                    assert(final(self)@ =~= spec_remove_img(old(self)@, lobby, room, img));
                }
            },
        }
    }

    /// Drops a whole room from the index. Returns whether it was present,
    /// mirroring the store's "cannot delete a missing subtree" error.
    pub fn remove_room(&mut self, lobby: LobbyId, room: RoomId) -> (existed: bool)
        requires
            old(self).wf(),
        ensures
            final(self).wf(),
            existed == old(self)@.dom().contains((lobby, room)),
            final(self)@ == old(self)@.remove((lobby, room)),
    {
        match self.find_room(lobby, room) {
            None => {
                proof {
                    assert(final(self)@ =~= old(self)@.remove((lobby, room)));
                }
                false
            },
            Some(i) => {
                let ghost pre = *self;
                proof {
                    self.lemma_find_same(i as int, lobby, room);
                }
                self.rooms.remove(i);
                proof {
                    Self::lemma_view_remove(pre, *self, i as int);
                    assert forall|a: int| 0 <= a < self.rooms@.len() implies seq_unique(
                        #[trigger] self.rooms@[a].2@,
                    ) by {
                        let a0 = if a < i {
                            a
                        } else {
                            a + 1
                        };
                        assert(seq_unique(pre.rooms@[a0].2@));
                    }
                }
                true
            },
        }
    }

    fn find_lobby(&self, lobby: LobbyId) -> (r: Option<usize>)
        ensures
            match r {
                Some(i) => 0 <= i < self.rooms@.len() && self.rooms@[i as int].0 == lobby,
                None => forall|j: int| 0 <= j < self.rooms@.len() ==> self.rooms@[j].0 != lobby,
            },
    {
        let mut i: usize = 0;
        while i < self.rooms.len()
            invariant
                i <= self.rooms@.len(),
                forall|j: int| 0 <= j < i ==> self.rooms@[j].0 != lobby,
            decreases self.rooms@.len() - i,
        {
            if self.rooms[i].0 == lobby {
                return Some(i);
            }
            i += 1;
        }
        None
    }

    /// Drops every room of a lobby — the cascading lobby delete. Returns
    /// whether the lobby had any room at all.
    #[verifier::loop_isolation(false)]
    pub fn remove_lobby(&mut self, lobby: LobbyId) -> (existed: bool)
        requires
            old(self).wf(),
        ensures
            final(self).wf(),
            existed == exists|r: RoomId| old(self)@.dom().contains((lobby, r)),
            final(self)@ == old(self)@.remove_keys(
                Set::new(|k: (LobbyId, RoomId)| k.0 == lobby),
            ),
    {
        let ghost pre = *self;
        let mut existed = false;
        loop
            invariant
                self.wf(),
                existed == exists|r: RoomId| pre@.dom().contains((lobby, r)) && !self@.dom().contains((lobby, r)),
                forall|k: (LobbyId, RoomId)|
                    k.0 != lobby ==> (#[trigger] self@.dom().contains(k) == pre@.dom().contains(k)
                        && (pre@.dom().contains(k) ==> self@[k] == pre@[k])),
                forall|k: (LobbyId, RoomId)|
                    #[trigger] self@.dom().contains(k) ==> pre@.dom().contains(k) && self@[k]
                        == pre@[k],
            decreases self.rooms@.len(),
        {
            match self.find_lobby(lobby) {
                None => {
                    proof {
                        assert forall|k2: (LobbyId, RoomId)| #[trigger] self@.dom().contains(
                            k2,
                        ) implies k2.0 != lobby by {
                            assert(self.has_key(k2));
                            let j = self.key_idx(k2);
                            assert(0 <= j < self.rooms@.len() && (self.rooms@[j].0, self.rooms@[j].1)
                                == k2);
                            assert(self.rooms@[j].0 != lobby);
                        }
                        assert(self@ =~= pre@.remove_keys(
                            Set::new(|k: (LobbyId, RoomId)| k.0 == lobby),
                        ));
                        if exists|r: RoomId| pre@.dom().contains((lobby, r)) {
                            let r = choose|r: RoomId| pre@.dom().contains((lobby, r));
                            assert(pre@.dom().contains((lobby, r)) && !self@.dom().contains(
                                (lobby, r),
                            ));
                        }
                    }
                    return existed;
                },
                Some(i) => {
                    let ghost mid = *self;
                    let ghost k = (self.rooms@[i as int].0, self.rooms@[i as int].1);
                    proof {
                        mid.lemma_idx(i as int);
                    }
                    self.rooms.remove(i);
                    existed = true;
                    proof {
                        Self::lemma_view_remove(mid, *self, i as int);
                        assert forall|a: int| 0 <= a < self.rooms@.len() implies seq_unique(
                            #[trigger] self.rooms@[a].2@,
                        ) by {
                            let a0 = if a < i {
                                a
                            } else {
                                a + 1
                            };
                            assert(seq_unique(mid.rooms@[a0].2@));
                        }
                        assert(mid@.dom().contains(k));
                        assert(pre@.dom().contains(k));
                        assert(self@ == mid@.remove(k));
                        assert(!self@.dom().contains(k));
                        assert(k == (lobby, k.1));
                        assert(pre@.dom().contains((lobby, k.1)) && !self@.dom().contains(
                            (lobby, k.1),
                        ));
                    }
                },
            }
        }
    }

    /// The rooms that currently exist under a lobby, without repetition.
    #[verifier::loop_isolation(false)]
    pub fn room_list(&self, lobby: LobbyId) -> (r: Vec<RoomId>)
        requires
            self.wf(),
        ensures
            seq_unique(r@),
            forall|room: RoomId|
                r@.contains(room) <==> self@.dom().contains((lobby, room)),
    {
        let mut out: Vec<RoomId> = Vec::new();
        let mut i: usize = 0;
        while i < self.rooms.len()
            invariant
                self.wf(),
                i <= self.rooms@.len(),
                forall|room: RoomId|
                    out@.contains(room) <==> exists|j: int|
                        0 <= j < i && self.rooms@[j].0 == lobby && self.rooms@[j].1 == room,
                seq_unique(out@),
            decreases self.rooms@.len() - i,
        {
            if self.rooms[i].0 == lobby {
                let room = self.rooms[i].1;
                let ghost out_pre = out@;
                proof {
                    if out_pre.contains(room) {
                        let j = choose|j: int|
                            0 <= j < i && self.rooms@[j].0 == lobby && self.rooms@[j].1 == room;
                        assert((self.rooms@[j].0, self.rooms@[j].1) == (
                            self.rooms@[i as int].0,
                            self.rooms@[i as int].1,
                        ));
                        assert(false);
                    }
                }
                out.push(room);
                proof {
                    assert(out@ == out_pre.push(room));
                    assert forall|rm: RoomId| #[trigger] out@.contains(rm) implies exists|j: int|
                        0 <= j < i + 1 && self.rooms@[j].0 == lobby && self.rooms@[j].1 == rm by {
                        let a = choose|a: int| 0 <= a < out@.len() && out@[a] == rm;
                        if a < out_pre.len() {
                            assert(out_pre[a] == rm);
                            assert(out_pre.contains(rm));
                            let j = choose|j: int|
                                0 <= j < i && self.rooms@[j].0 == lobby && self.rooms@[j].1 == rm;
                            assert(0 <= j < i + 1 && self.rooms@[j].0 == lobby && self.rooms@[j].1
                                == rm);
                        } else {
                            assert(rm == room);
                            assert(self.rooms@[i as int].0 == lobby && self.rooms@[i as int].1
                                == rm);
                        }
                    }
                    assert forall|rm: RoomId|
                        (exists|j: int|
                            0 <= j < i + 1 && self.rooms@[j].0 == lobby && self.rooms@[j].1
                                == rm) implies #[trigger] out@.contains(rm) by {
                        let j = choose|j: int|
                            0 <= j < i + 1 && self.rooms@[j].0 == lobby && self.rooms@[j].1 == rm;
                        if j < i {
                            assert(out_pre.contains(rm));
                            let a = choose|a: int| 0 <= a < out_pre.len() && out_pre[a] == rm;
                            assert(out@[a] == rm);
                        } else {
                            assert(out@[out_pre.len() as int] == rm);
                        }
                    }
                    assert forall|x: int, y: int| 0 <= x < y < out@.len() implies out@[x]
                        != out@[y] by {
                        if y < out_pre.len() {
                            assert(out_pre[x] != out_pre[y]);
                        } else {
                            assert(out@[y] == room);
                            assert(out@[x] == out_pre[x]);
                            if out@[x] == room {
                                assert(out_pre.contains(room));
                            }
                        }
                    }
                }
            }
            i += 1;
        }
        proof {
            assert forall|room: RoomId| #[trigger] out@.contains(room) == self@.dom().contains(
                (lobby, room),
            ) by {
                if out@.contains(room) {
                    let j = choose|j: int|
                        0 <= j < self.rooms@.len() && self.rooms@[j].0 == lobby && self.rooms@[j].1
                            == room;
                    self.lemma_find_same(j, lobby, room);
                }
                if self@.dom().contains((lobby, room)) {
                    let j = self.key_idx((lobby, room));
                }
            }
        }
        out
    }

    /// The image ids of a room, newest first; an unknown room lists nothing.
    pub fn img_list(&self, lobby: LobbyId, room: RoomId) -> (r: Vec<ImgId>)
        requires
            self.wf(),
        ensures
            self@.dom().contains((lobby, room)) ==> r@ == self@[(lobby, room)],
            !self@.dom().contains((lobby, room)) ==> r@ == Seq::<ImgId>::empty(),
    {
        match self.find_room(lobby, room) {
            None => {
                let r: Vec<ImgId> = Vec::new();
                assert(r@ =~= Seq::<ImgId>::empty());
                r
            },
            Some(i) => {
                proof {
                    self.lemma_find_same(i as int, lobby, room);
                }
                let imgs = &self.rooms[i].2;
                let mut out: Vec<ImgId> = Vec::new();
                let mut j: usize = 0;
                while j < imgs.len()
                    invariant
                        j <= imgs@.len(),
                        out@ == imgs@.take(j as int),
                    decreases imgs@.len() - j,
                {
                    out.push(imgs[j]);
                    proof {
                        assert(out@ =~= imgs@.take(j + 1));
                    }
                    j += 1;
                }
                proof {
                    assert(imgs@.take(imgs@.len() as int) =~= imgs@);
                }
                out
            },
        }
    }
}

/// Dedup idempotence: recording the same image id under the same
/// `(lobby, room)` a second time changes nothing, and after the first
/// recording the room lists the id. Together with well-formedness (a room
/// never repeats an id) this pins down that re-uploading identical content
/// leaves exactly one stored entry and yields the same id again.
pub proof fn lemma_dedup_idempotent(
    m: Map<(LobbyId, RoomId), Seq<ImgId>>,
    lobby: LobbyId,
    room: RoomId,
    img: ImgId,
)
    ensures
        spec_insert_img(m, lobby, room, img)[(lobby, room)].contains(img),
        spec_insert_img(spec_insert_img(m, lobby, room, img), lobby, room, img)
            == spec_insert_img(m, lobby, room, img),
{
    let k = (lobby, room);
    let once = spec_insert_img(m, lobby, room, img);
    if m.dom().contains(k) {
        if m[k].contains(img) {
            assert(once == m);
        } else {
            assert(once[k] == seq![img] + m[k]);
            assert(once[k][0] == img);
        }
    } else {
        assert(once[k] == seq![img]);
        assert(once[k][0] == img);
    }
    assert(once.dom().contains(k) && once[k].contains(img));
    assert(spec_insert_img(once, lobby, room, img) == once);
}

} // verus!
