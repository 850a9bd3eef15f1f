use vstd::prelude::*;

use crate::cards::Card;
use crate::votes::Vote;
use crate::{RoomId, UserId};

verus! {

/// A user's participation record within one room.
#[derive(Copy, Clone, Debug, PartialEq, Eq, Structural)]
pub struct RoomUser {
    pub user_id: UserId,
    pub vote: Vote,
}

/// One room's authoritative data: identity, owner, deck, membership and the
/// reveal gate.
#[derive(Debug)]
pub struct RoomInfo {
    pub id: RoomId,
    pub admin: UserId,
    pub users: Vec<RoomUser>,
    pub cards: Vec<Card>,
    pub revealed: bool,
}

/// Whether `user_id` appears in the member roster.
pub open spec fn is_member(users: Seq<RoomUser>, user_id: UserId) -> bool {
    exists|k: int| 0 <= k < users.len() && (#[trigger] users[k]).user_id == user_id
}

/// No user id appears twice in the roster.
pub open spec fn unique_members(users: Seq<RoomUser>) -> bool {
    forall|i: int, j: int|
        0 <= i < j < users.len() ==> (#[trigger] users[i]).user_id != (#[trigger] users[j]).user_id
}

/// The index of the member with `user_id`; meaningful when `is_member` holds,
/// and unique under `unique_members`.
pub open spec fn member_index(users: Seq<RoomUser>, user_id: UserId) -> int {
    choose|k: int| 0 <= k < users.len() && (#[trigger] users[k]).user_id == user_id
}

/// The vote of the member with `user_id`; meaningful when `is_member` holds.
pub open spec fn vote_of(users: Seq<RoomUser>, user_id: UserId) -> Vote {
    users[member_index(users, user_id)].vote
}

/// The roster after an (idempotent) join: unchanged if already a member,
/// otherwise extended with a fresh member whose vote is not yet visible.
pub open spec fn join_member_spec(users: Seq<RoomUser>, user_id: UserId) -> Seq<RoomUser> {
    if is_member(users, user_id) {
        users
    } else {
        users.push(RoomUser { user_id, vote: Vote::NotYetVisible })
    }
}

/// The roster after a leave: every record for `user_id` dropped, order kept.
pub open spec fn remove_member_spec(users: Seq<RoomUser>, user_id: UserId) -> Seq<RoomUser> {
    users.filter(|u: RoomUser| u.user_id != user_id)
}

/// Casting toggles: the same index again clears the vote, any other choice
/// stores a fresh hidden vote.
pub open spec fn toggle_vote(v: Vote, card_index: u32) -> Vote {
    if v == Vote::Hidden(card_index) {
        Vote::NoVote
    } else {
        Vote::Hidden(card_index)
    }
}

/// Revealing promotes a hidden vote and leaves every other state alone.
pub open spec fn reveal_vote(v: Vote) -> Vote {
    match v {
        Vote::Hidden(i) => Vote::Revealed(i),
        _ => v,
    }
}

/// The roster after `user_id` cast a vote for `card_index`.
pub open spec fn cast_vote_users(users: Seq<RoomUser>, user_id: UserId, card_index: u32) -> Seq<
    RoomUser,
> {
    users.update(
        member_index(users, user_id),
        (RoomUser { user_id, vote: toggle_vote(users[member_index(users, user_id)].vote, card_index) }),
    )
}

/// Two rooms carry the same data (used to relate a broadcast snapshot to the
/// authoritative room).
pub open spec fn room_like(a: RoomInfo, b: RoomInfo) -> bool {
    &&& a.id == b.id
    &&& a.admin == b.admin
    &&& a.users@ == b.users@
    &&& a.cards@ == b.cards@
    &&& a.revealed == b.revealed
}

pub proof fn lemma_member_push(users: Seq<RoomUser>, u: RoomUser, w: UserId)
    ensures
        is_member(users.push(u), w) == (is_member(users, w) || u.user_id == w),
{
    if is_member(users, w) {
        let k = choose|k: int| 0 <= k < users.len() && (#[trigger] users[k]).user_id == w;
        assert(users.push(u)[k].user_id == w);
    }
    if u.user_id == w {
        assert(users.push(u)[users.len() as int].user_id == w);
    }
    if is_member(users.push(u), w) {
        let k = choose|k: int|
            0 <= k < users.push(u).len() && (#[trigger] users.push(u)[k]).user_id == w;
        if k < users.len() {
            assert(users[k].user_id == w);
        }
    }
}

pub proof fn lemma_unique_push(users: Seq<RoomUser>, u: RoomUser)
    requires
        unique_members(users),
        !is_member(users, u.user_id),
    ensures
        unique_members(users.push(u)),
{
    let s = users.push(u);
    assert forall|i: int, j: int| 0 <= i < j < s.len() implies (#[trigger] s[i]).user_id != (
    #[trigger] s[j]).user_id by {
        if j < users.len() {
            assert(s[i] == users[i] && s[j] == users[j]);
        } else {
            assert(s[j] == u);
            assert(s[i] == users[i]);
            if users[i].user_id == u.user_id {
                assert(is_member(users, u.user_id));
            }
        }
    }
}

/// What a join does to membership: the joining id is a member afterwards,
/// nobody else's membership changes, and uniqueness is kept.
pub proof fn lemma_join_member(users: Seq<RoomUser>, user_id: UserId)
    ensures
        is_member(join_member_spec(users, user_id), user_id),
        forall|w: UserId|
            w != user_id ==> is_member(join_member_spec(users, user_id), w) == is_member(users, w),
        unique_members(users) ==> unique_members(join_member_spec(users, user_id)),
{
    let u = RoomUser { user_id, vote: Vote::NotYetVisible };
    if !is_member(users, user_id) {
        lemma_member_push(users, u, user_id);
        assert forall|w: UserId| w != user_id implies is_member(
            join_member_spec(users, user_id),
            w,
        ) == is_member(users, w) by {
            lemma_member_push(users, u, w);
        }
        if unique_members(users) {
            lemma_unique_push(users, u);
        }
    }
}

/// What a leave does to membership: the leaving id is gone, nobody else's
/// membership changes, and uniqueness is kept.
pub proof fn lemma_remove_member(users: Seq<RoomUser>, user_id: UserId)
    ensures
        !is_member(remove_member_spec(users, user_id), user_id),
        forall|w: UserId|
            w != user_id ==> is_member(remove_member_spec(users, user_id), w) == is_member(
                users,
                w,
            ),
        unique_members(users) ==> unique_members(remove_member_spec(users, user_id)),
    decreases users.len(),
{
    reveal(Seq::filter);
    let pred = |u: RoomUser| u.user_id != user_id;
    if users.len() == 0 {
        assert(remove_member_spec(users, user_id) =~= users);
    } else {
        let dl = users.drop_last();
        let last = users.last();
        lemma_remove_member(dl, user_id);
        let rest = remove_member_spec(dl, user_id);
        assert(unique_members(users) ==> unique_members(dl));
        if pred(last) {
            assert(remove_member_spec(users, user_id) == rest.push(last));
            lemma_member_push(rest, last, user_id);
            assert forall|w: UserId| w != user_id implies is_member(
                remove_member_spec(users, user_id),
                w,
            ) == is_member(users, w) by {
                lemma_member_push(rest, last, w);
                lemma_member_push(dl, last, w);
                assert(users =~= dl.push(last));
            }
            if unique_members(users) {
                if is_member(rest, last.user_id) {
                    assert(is_member(dl, last.user_id));
                    let k = choose|k: int|
                        0 <= k < dl.len() && (#[trigger] dl[k]).user_id == last.user_id;
                    assert(users[k].user_id == users[users.len() - 1].user_id);
                    assert(false);
                }
                lemma_unique_push(rest, last);
            }
        } else {
            assert(remove_member_spec(users, user_id) == rest);
            assert forall|w: UserId| w != user_id implies is_member(
                remove_member_spec(users, user_id),
                w,
            ) == is_member(users, w) by {
                lemma_member_push(dl, last, w);
                assert(users =~= dl.push(last));
            }
        }
    }
}

/// Pins down `member_index` under uniqueness: any index holding `user_id`
/// is the member's index.
pub proof fn lemma_member_index_unique(users: Seq<RoomUser>, user_id: UserId, k: int)
    requires
        unique_members(users),
        0 <= k < users.len(),
        users[k].user_id == user_id,
    ensures
        is_member(users, user_id),
        member_index(users, user_id) == k,
{
    assert(is_member(users, user_id));
    let j = member_index(users, user_id);
    assert(0 <= j < users.len() && users[j].user_id == user_id);
    if j != k {
        if j < k {
            assert(users[j].user_id != users[k].user_id);
        } else {
            assert(users[k].user_id != users[j].user_id);
        }
    }
}

/// One membership-changing step against a room's roster.
#[derive(Copy, Clone, Debug)]
pub enum MembershipOp {
    Join(UserId),
    Leave(UserId),
}

/// The roster after a sequence of join/leave steps, applied in order.
pub open spec fn apply_membership_ops(users: Seq<RoomUser>, ops: Seq<MembershipOp>) -> Seq<RoomUser>
    decreases ops.len(),
{
    if ops.len() == 0 {
        users
    } else {
        let prev = apply_membership_ops(users, ops.drop_last());
        match ops.last() {
            MembershipOp::Join(u) => join_member_spec(prev, u),
            MembershipOp::Leave(u) => remove_member_spec(prev, u),
        }
    }
}

/// Whether the net effect of the steps leaves `user_id` joined: the last
/// step naming the id decides, a join keeping it in and a leave taking it
/// out; an id never named keeps its initial membership.
pub open spec fn net_joined(ops: Seq<MembershipOp>, user_id: UserId, initially: bool) -> bool
    decreases ops.len(),
{
    if ops.len() == 0 {
        initially
    } else {
        match ops.last() {
            MembershipOp::Join(u) => if u == user_id {
                true
            } else {
                net_joined(ops.drop_last(), user_id, initially)
            },
            MembershipOp::Leave(u) => if u == user_id {
                false
            } else {
                net_joined(ops.drop_last(), user_id, initially)
            },
        }
    }
}

/// After any sequence of joins and leaves, a room's roster holds a user id
/// exactly when the net effect of the steps for that id is a join (a join
/// with no later leave; an id never named keeps its initial membership),
/// and the roster never holds duplicates.
pub proof fn lemma_membership_after_ops(
    users: Seq<RoomUser>,
    ops: Seq<MembershipOp>,
    user_id: UserId,
)
    requires
        unique_members(users),
    ensures
        unique_members(apply_membership_ops(users, ops)),
        is_member(apply_membership_ops(users, ops), user_id) == net_joined(
            ops,
            user_id,
            is_member(users, user_id),
        ),
    decreases ops.len(),
{
    if ops.len() > 0 {
        let prev = apply_membership_ops(users, ops.drop_last());
        lemma_membership_after_ops(users, ops.drop_last(), user_id);
        match ops.last() {
            MembershipOp::Join(u) => {
                lemma_join_member(prev, u);
            },
            MembershipOp::Leave(u) => {
                lemma_remove_member(prev, u);
            },
        }
    }
}

/// Casting the same card index twice in a row — starting from any vote
/// state other than a pending vote for that very index, with no reveal or
/// reset in between (casting never touches the reveal gate) — first stores
/// the hidden vote and then returns the member to `NoVote`.
pub proof fn lemma_cast_same_index_twice(users: Seq<RoomUser>, user_id: UserId, card_index: u32)
    requires
        unique_members(users),
        is_member(users, user_id),
        vote_of(users, user_id) != Vote::Hidden(card_index),
    ensures
        ({
            let once = cast_vote_users(users, user_id, card_index);
            let twice = cast_vote_users(once, user_id, card_index);
            &&& unique_members(once)
            &&& is_member(once, user_id)
            &&& vote_of(once, user_id) == Vote::Hidden(card_index)
            &&& unique_members(twice)
            &&& is_member(twice, user_id)
            &&& vote_of(twice, user_id) == Vote::NoVote
        }),
{
    let k = member_index(users, user_id);
    assert(0 <= k < users.len() && users[k].user_id == user_id);
    let once = cast_vote_users(users, user_id, card_index);
    assert forall|a: int, b: int|
        0 <= a < b < once.len() implies (#[trigger] once[a]).user_id != (
    #[trigger] once[b]).user_id by {
        assert(once[a].user_id == users[a].user_id);
        assert(once[b].user_id == users[b].user_id);
    }
    lemma_member_index_unique(once, user_id, k);
    let twice = cast_vote_users(once, user_id, card_index);
    assert forall|a: int, b: int|
        0 <= a < b < twice.len() implies (#[trigger] twice[a]).user_id != (
    #[trigger] twice[b]).user_id by {
        assert(twice[a].user_id == once[a].user_id);
        assert(twice[b].user_id == once[b].user_id);
    }
    lemma_member_index_unique(twice, user_id, k);
}

impl RoomInfo {
    /// The room's structural invariant: each user appears at most once.
    pub open spec fn wf(self) -> bool {
        unique_members(self.users@)
    }

    /// A fresh room: no members, no deck yet, votes not revealed.
    pub fn new(id: RoomId, admin: UserId) -> (r: Self)
        ensures
            r.id == id,
            r.admin == admin,
            r.users@.len() == 0,
            r.cards@.len() == 0,
            !r.revealed,
            r.wf(),
    {
        Self { id, admin, users: Vec::new(), cards: Vec::new(), revealed: false }
    }

    /// Idempotent join: a newcomer enters with a not-yet-visible vote, a
    /// present member is left untouched.
    pub fn add_user(&mut self, user_id: UserId) -> (added: bool)
        requires
            old(self).wf(),
        ensures
            final(self).wf(),
            added == !is_member(old(self).users@, user_id),
            final(self).users@ == join_member_spec(old(self).users@, user_id),
            final(self).id == old(self).id,
            final(self).admin == old(self).admin,
            final(self).cards == old(self).cards,
            final(self).revealed == old(self).revealed,
            !added ==> *final(self) == *old(self),
    {
        let n = self.users.len();
        let mut i: usize = 0;
        while i < n
            invariant
                i <= n,
                n == self.users@.len(),
                *self == *old(self),
                old(self).wf(),
                forall|j: int| 0 <= j < i ==> (#[trigger] self.users@[j]).user_id != user_id,
            decreases n - i,
        {
            if self.users[i].user_id == user_id {
                return false;
            }
            i += 1;
        }
        proof {
            assert(!is_member(self.users@, user_id));
            lemma_unique_push(self.users@, (RoomUser { user_id, vote: Vote::NotYetVisible }));
        }
        self.users.push(RoomUser { user_id, vote: Vote::NotYetVisible });
        true
    }

    /// Removes the member if present; keeps everyone else in order.
    pub fn remove_user(&mut self, user_id: UserId)
        requires
            old(self).wf(),
        ensures
            final(self).wf(),
            final(self).users@ == remove_member_spec(old(self).users@, user_id),
            final(self).id == old(self).id,
            final(self).admin == old(self).admin,
            final(self).cards == old(self).cards,
            final(self).revealed == old(self).revealed,
    {
        proof {
            lemma_remove_member(self.users@, user_id);
        }
        let retained = retain_others(&self.users, user_id);
        self.users = retained;
    }

    /// A member's vote while the room is unrevealed: the same index again
    /// clears the vote, any other index stores a fresh hidden vote. A no-op
    /// for non-members or once the room is revealed.
    pub fn cast_vote(&mut self, user_id: UserId, card_index: u32) -> (changed: bool)
        requires
            old(self).wf(),
        ensures
            final(self).wf(),
            changed == (!old(self).revealed && is_member(old(self).users@, user_id)),
            !changed ==> *final(self) == *old(self),
            changed ==> final(self).users@ == cast_vote_users(
                old(self).users@,
                user_id,
                card_index,
            ),
            final(self).id == old(self).id,
            final(self).admin == old(self).admin,
            final(self).cards == old(self).cards,
            final(self).revealed == old(self).revealed,
    {
        if self.revealed {
            return false;
        }
        let n = self.users.len();
        let mut i: usize = 0;
        while i < n
            invariant
                i <= n,
                n == self.users@.len(),
                *self == *old(self),
                old(self).wf(),
                !old(self).revealed,
                forall|j: int| 0 <= j < i ==> (#[trigger] self.users@[j]).user_id != user_id,
            decreases n - i,
        {
            if self.users[i].user_id == user_id {
                proof {
                    lemma_member_index_unique(self.users@, user_id, i as int);
                }
                let old_vote = self.users[i].vote;
                let new_vote = if old_vote == Vote::Hidden(card_index) {
                    Vote::NoVote
                } else {
                    Vote::Hidden(card_index)
                };
                let m = &mut self.users[i];
                m.vote = new_vote;
                proof {
                    assert(self.users@ =~= cast_vote_users(
                        old(self).users@,
                        user_id,
                        card_index,
                    ));
                    assert forall|a: int, b: int|
                        0 <= a < b < self.users@.len() implies (
                        #[trigger] self.users@[a]).user_id != (#[trigger] self.users@[b]).user_id by {
                        assert(self.users@[a].user_id == old(self).users@[a].user_id);
                        assert(self.users@[b].user_id == old(self).users@[b].user_id);
                    }
                }
                return true;
            }
            i += 1;
        }
        proof {
            assert(!is_member(self.users@, user_id));
        }
        false
    }

    /// If the requester owns the room, every hidden vote becomes revealed;
    /// whoever asked, the reveal gate closes against further voting.
    pub fn reveal_votes(&mut self, requester: UserId)
        requires
            old(self).wf(),
        ensures
            final(self).wf(),
            final(self).revealed,
            final(self).id == old(self).id,
            final(self).admin == old(self).admin,
            final(self).cards == old(self).cards,
            old(self).admin == requester ==> final(self).users@.len() == old(self).users@.len()
                && forall|k: int|
                0 <= k < old(self).users@.len() ==> final(self).users@[k] == (RoomUser {
                    user_id: old(self).users@[k].user_id,
                    vote: reveal_vote(old(self).users@[k].vote),
                }),
            old(self).admin != requester ==> final(self).users == old(self).users,
    {
        if self.admin == requester {
            let n = self.users.len();
            let mut i: usize = 0;
            while i < n
                invariant
                    i <= n,
                    n == self.users@.len(),
                    self.id == old(self).id,
                    self.admin == old(self).admin,
                    self.cards == old(self).cards,
                    self.revealed == old(self).revealed,
                    forall|k: int|
                        0 <= k < i ==> self.users@[k] == (RoomUser {
                            user_id: old(self).users@[k].user_id,
                            vote: reveal_vote(old(self).users@[k].vote),
                        }),
                    forall|k: int| i <= k < n ==> self.users@[k] == old(self).users@[k],
                decreases n - i,
            {
                let v = self.users[i].vote;
                match v {
                    Vote::Hidden(idx) => {
                        let m = &mut self.users[i];
                        m.vote = Vote::Revealed(idx);
                    },
                    _ => {},
                }
                i += 1;
            }
        }
        self.revealed = true;
        proof {
            assert forall|a: int, b: int|
                0 <= a < b < self.users@.len() implies (#[trigger] self.users@[a]).user_id != (
            #[trigger] self.users@[b]).user_id by {
                assert(old(self).users@[a].user_id != old(self).users@[b].user_id);
            }
        }
    }

    /// If the requester owns the room, every vote is cleared; whoever asked,
    /// the reveal gate reopens.
    pub fn reset_votes(&mut self, requester: UserId)
        requires
            old(self).wf(),
        ensures
            final(self).wf(),
            !final(self).revealed,
            final(self).id == old(self).id,
            final(self).admin == old(self).admin,
            final(self).cards == old(self).cards,
            old(self).admin == requester ==> final(self).users@.len() == old(self).users@.len()
                && forall|k: int|
                0 <= k < old(self).users@.len() ==> final(self).users@[k] == (RoomUser {
                    user_id: old(self).users@[k].user_id,
                    vote: Vote::NoVote,
                }),
            old(self).admin != requester ==> final(self).users == old(self).users,
    {
        if self.admin == requester {
            let n = self.users.len();
            let mut i: usize = 0;
            while i < n
                invariant
                    i <= n,
                    n == self.users@.len(),
                    self.id == old(self).id,
                    self.admin == old(self).admin,
                    self.cards == old(self).cards,
                    self.revealed == old(self).revealed,
                    forall|k: int|
                        0 <= k < i ==> self.users@[k] == (RoomUser {
                            user_id: old(self).users@[k].user_id,
                            vote: Vote::NoVote,
                        }),
                    forall|k: int| i <= k < n ==> self.users@[k] == old(self).users@[k],
                decreases n - i,
            {
                let m = &mut self.users[i];
                m.vote = Vote::NoVote;
                i += 1;
            }
        }
        self.revealed = false;
        proof {
            assert forall|a: int, b: int|
                0 <= a < b < self.users@.len() implies (#[trigger] self.users@[a]).user_id != (
            #[trigger] self.users@[b]).user_id by {
                assert(old(self).users@[a].user_id != old(self).users@[b].user_id);
            }
        }
    }
}

impl Clone for RoomInfo {
    /// A snapshot carrying the same data (broadcasts send such snapshots).
    fn clone(&self) -> (r: Self)
        ensures
            room_like(r, *self),
    {
        RoomInfo {
            id: self.id,
            admin: self.admin,
            users: clone_users(&self.users),
            cards: clone_cards(&self.cards),
            revealed: self.revealed,
        }
    }
}

fn clone_users(users: &Vec<RoomUser>) -> (r: Vec<RoomUser>)
    ensures
        r@ == users@,
{
    let mut out: Vec<RoomUser> = Vec::new();
    let n = users.len();
    let mut i: usize = 0;
    while i < n
        invariant
            i <= n,
            n == users@.len(),
            out@ == users@.subrange(0, i as int),
        decreases n - i,
    {
        out.push(users[i]);
        proof {
            assert(out@ =~= users@.subrange(0, i + 1));
        }
        i += 1;
    }
    proof {
        assert(users@.subrange(0, n as int) =~= users@);
    }
    out
}

fn clone_cards(cards: &Vec<Card>) -> (r: Vec<Card>)
    ensures
        r@ == cards@,
{
    let mut out: Vec<Card> = Vec::new();
    let n = cards.len();
    let mut i: usize = 0;
    while i < n
        invariant
            i <= n,
            n == cards@.len(),
            out@ == cards@.subrange(0, i as int),
        decreases n - i,
    {
        out.push(cards[i].clone());
        proof {
            assert(out@ =~= cards@.subrange(0, i + 1));
        }
        i += 1;
    }
    proof {
        assert(cards@.subrange(0, n as int) =~= cards@);
    }
    out
}

/// Runtime counterpart of `is_member`.
pub fn member_of(users: &Vec<RoomUser>, user_id: UserId) -> (r: bool)
    ensures
        r == is_member(users@, user_id),
{
    let n = users.len();
    let mut i: usize = 0;
    while i < n
        invariant
            i <= n,
            n == users@.len(),
            forall|j: int| 0 <= j < i ==> (#[trigger] users@[j]).user_id != user_id,
        decreases n - i,
    {
        if users[i].user_id == user_id {
            return true;
        }
        i += 1;
    }
    false
}

fn retain_others(users: &Vec<RoomUser>, user_id: UserId) -> (r: Vec<RoomUser>)
    ensures
        r@ == remove_member_spec(users@, user_id),
{
    let pred = |u: RoomUser| u.user_id != user_id;
    let mut out: Vec<RoomUser> = Vec::new();
    let n = users.len();
    let mut i: usize = 0;
    proof {
        reveal(Seq::filter);
        assert(users@.subrange(0, 0).filter(|u: RoomUser| u.user_id != user_id)
            =~= Seq::<RoomUser>::empty());
    }
    while i < n
        invariant
            i <= n,
            n == users@.len(),
            out@ == users@.subrange(0, i as int).filter(|u: RoomUser| u.user_id != user_id),
        decreases n - i,
    {
        let u = users[i];
        proof {
            assert(users@.subrange(0, i + 1) =~= users@.subrange(0, i as int).push(
                users@[i as int],
            ));
            users@.subrange(0, i as int).lemma_filter_push(
                users@[i as int],
                |u: RoomUser| u.user_id != user_id,
            );
        }
        if u.user_id != user_id {
            out.push(u);
        }
        i += 1;
    }
    proof {
        assert(users@.subrange(0, n as int) =~= users@);
    }
    out
}

} // verus!
