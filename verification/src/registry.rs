use vstd::prelude::*;

use crate::cards::{default_deck, is_default_deck};
use crate::messages::{message_like, RoomMessage};
use crate::room::{
    cast_vote_users, is_member, join_member_spec, member_of, remove_member_spec, reveal_vote,
    room_like, RoomInfo, RoomUser,
};
use crate::votes::Vote;
use crate::{ConnId, RoomId, SessionId, UserId};

verus! {

/// Room ids are drawn from `0..MAX_ROOM_ID`.
pub const MAX_ROOM_ID: RoomId = 999999;

/// A known user: identity plus the durable token that lets a reconnecting
/// client resume it.
#[derive(Copy, Clone, Debug, PartialEq, Eq, Structural)]
pub struct User {
    pub id: UserId,
    pub session_id: SessionId,
}

/// Relies on uuid's `Uuid::new_v4` (read back through `as_u128`): a freshly
/// drawn random 128-bit identifier. Randomness allows nothing to be promised
/// of the value.
#[verifier::external_body]
fn random_id() -> u128 {
    uuid::Uuid::new_v4().as_u128()
}

/// Relies on rand's `random_range` over `0..MAX_ROOM_ID`: the draw lies in
/// the half-open range, hence below `MAX_ROOM_ID` (the range is non-empty,
/// so the call does not panic).
#[verifier::external_body]
fn random_room_id() -> (r: RoomId)
    ensures
        r < MAX_ROOM_ID,
{
    rand::random_range(0..MAX_ROOM_ID)
}

/// Whether some live room carries `room_id`.
pub open spec fn has_room_id(rooms: Seq<RoomInfo>, room_id: RoomId) -> bool {
    exists|i: int| 0 <= i < rooms.len() && (#[trigger] rooms[i]).id == room_id
}

/// The candidate id probed `k` steps after `start`, wrapping at
/// `MAX_ROOM_ID`.
pub open spec fn probe_candidate(start: RoomId, k: int) -> RoomId {
    if start + k < MAX_ROOM_ID {
        (start + k) as RoomId
    } else {
        (start + k - MAX_ROOM_ID) as RoomId
    }
}

/// Fewer rooms than ids means the probe sequence cannot exhaust: among the
/// `rooms.len() + 1` distinct candidates probed from `start`, at least one
/// id is free, for were all of them taken, the rooms' distinct ids would
/// number more than the rooms.
proof fn lemma_probe_finds_free(rooms: Seq<RoomInfo>, start: RoomId)
    requires
        forall|i: int, j: int|
            0 <= i < j < rooms.len() ==> (#[trigger] rooms[i]).id != (#[trigger] rooms[j]).id,
        rooms.len() < MAX_ROOM_ID as int,
        start < MAX_ROOM_ID,
    ensures
        exists|k: int|
            0 <= k <= rooms.len() && !(#[trigger] has_room_id(rooms, probe_candidate(start, k))),
{
    broadcast use vstd::set::group_set_axioms;

    if forall|k: int|
        0 <= k <= rooms.len() ==> #[trigger] has_room_id(rooms, probe_candidate(start, k)) {
        let n = rooms.len() as int;
        let ids = rooms.map_values(|r: RoomInfo| r.id);
        assert forall|a: int, b: int|
            0 <= a < ids.len() && 0 <= b < ids.len() && a != b implies ids[a] != ids[b] by {
            assert(ids[a] == rooms[a].id && ids[b] == rooms[b].id);
        }
        ids.unique_seq_to_set();
        vstd::seq_lib::seq_to_set_is_finite::<RoomId>(ids);
        let cands = Seq::new((n + 1) as nat, |k: int| probe_candidate(start, k));
        assert forall|a: int, b: int|
            0 <= a < cands.len() && 0 <= b < cands.len() && a != b implies cands[a] != cands[b] by {
            assert(cands[a] == probe_candidate(start, a));
            assert(cands[b] == probe_candidate(start, b));
        }
        cands.unique_seq_to_set();
        assert forall|x: RoomId| cands.to_set().contains(x) implies ids.to_set().contains(x) by {
            let k = choose|k: int| 0 <= k < cands.len() && cands[k] == x;
            assert(has_room_id(rooms, probe_candidate(start, k)));
            let i = choose|i: int|
                0 <= i < rooms.len() && (#[trigger] rooms[i]).id == probe_candidate(start, k);
            assert(ids[i] == x);
            assert(ids.contains(x));
        }
        vstd::set_lib::lemma_len_subset(cands.to_set(), ids.to_set());
        assert(cands.to_set().len() <= ids.to_set().len());
    }
}

/// The connections a broadcast about a room reaches: the connection of every
/// client entry whose user is on the room's roster, in registration order.
pub open spec fn recipients(clients: Seq<(UserId, ConnId)>, users: Seq<RoomUser>) -> Seq<ConnId> {
    clients.filter(|c: (UserId, ConnId)| is_member(users, c.0)).map_values(
        |c: (UserId, ConnId)| c.1,
    )
}

proof fn lemma_recipients_push(
    clients: Seq<(UserId, ConnId)>,
    c: (UserId, ConnId),
    users: Seq<RoomUser>,
)
    ensures
        recipients(clients.push(c), users) == if is_member(users, c.0) {
            recipients(clients, users).push(c.1)
        } else {
            recipients(clients, users)
        },
{
    let pred = |cc: (UserId, ConnId)| is_member(users, cc.0);
    let f = |cc: (UserId, ConnId)| cc.1;
    clients.lemma_filter_push(c, pred);
    if pred(c) {
        assert(clients.filter(pred).push(c).map_values(f) =~= clients.filter(pred).map_values(
            f,
        ).push(c.1));
    }
}

/// What one state change pushes out: the change notification to every live
/// connection of a room member, then the updated room snapshot to the same
/// connections, in the same order.
pub open spec fn update_outbox(
    outbox: Seq<(ConnId, RoomMessage)>,
    clients: Seq<(UserId, ConnId)>,
    room: RoomInfo,
    msg: RoomMessage,
) -> bool {
    let recips = recipients(clients, room.users@);
    &&& outbox.len() == 2 * recips.len()
    &&& forall|k: int|
        0 <= k < recips.len() ==> (#[trigger] outbox[k]).0 == recips[k] && message_like(
            outbox[k].1,
            msg,
        )
    &&& forall|k: int|
        recips.len() <= k < 2 * recips.len() ==> (#[trigger] outbox[k]).0 == recips[k
            - recips.len()] && (outbox[k].1 matches RoomMessage::RoomInfo(ri) && room_like(
            ri,
            room,
        ))
}

/// The registry after a join: the room's roster gained `user_id` (if new),
/// everything else is untouched, and the join plus the updated room view
/// went out to every connected member.
pub open spec fn user_joined_room(
    pre: AppState,
    post: AppState,
    user_id: UserId,
    room_id: RoomId,
    outbox: Seq<(ConnId, RoomMessage)>,
) -> bool {
    let i = pre.room_index(room_id);
    &&& post.rooms@.len() == pre.rooms@.len()
    &&& forall|j: int| 0 <= j < pre.rooms@.len() && j != i ==> post.rooms@[j] == pre.rooms@[j]
    &&& post.rooms@[i].users@ == join_member_spec(pre.rooms@[i].users@, user_id)
    &&& post.rooms@[i].id == pre.rooms@[i].id
    &&& post.rooms@[i].admin == pre.rooms@[i].admin
    &&& post.rooms@[i].cards == pre.rooms@[i].cards
    &&& post.rooms@[i].revealed == pre.rooms@[i].revealed
    &&& update_outbox(outbox, pre.clients@, post.rooms@[i], RoomMessage::UserJoined(user_id))
}

/// The registry after a leave: the room's roster lost `user_id`, everything
/// else is untouched, and the leave plus the updated room view went out to
/// the remaining connected members.
pub open spec fn user_left_room(
    pre: AppState,
    post: AppState,
    user_id: UserId,
    room_id: RoomId,
    outbox: Seq<(ConnId, RoomMessage)>,
) -> bool {
    let i = pre.room_index(room_id);
    &&& post.rooms@.len() == pre.rooms@.len()
    &&& forall|j: int| 0 <= j < pre.rooms@.len() && j != i ==> post.rooms@[j] == pre.rooms@[j]
    &&& post.rooms@[i].users@ == remove_member_spec(pre.rooms@[i].users@, user_id)
    &&& post.rooms@[i].id == pre.rooms@[i].id
    &&& post.rooms@[i].admin == pre.rooms@[i].admin
    &&& post.rooms@[i].cards == pre.rooms@[i].cards
    &&& post.rooms@[i].revealed == pre.rooms@[i].revealed
    &&& update_outbox(outbox, pre.clients@, post.rooms@[i], RoomMessage::UserLeft(user_id))
}

/// The registry after an accepted vote: the member's vote toggled, the rest
/// untouched, and the vote plus the updated room view went out to every
/// connected member.
pub open spec fn user_voted_room(
    pre: AppState,
    post: AppState,
    user_id: UserId,
    room_id: RoomId,
    vote: u32,
    outbox: Seq<(ConnId, RoomMessage)>,
) -> bool {
    let i = pre.room_index(room_id);
    &&& post.rooms@.len() == pre.rooms@.len()
    &&& forall|j: int| 0 <= j < pre.rooms@.len() && j != i ==> post.rooms@[j] == pre.rooms@[j]
    &&& post.rooms@[i].users@ == cast_vote_users(pre.rooms@[i].users@, user_id, vote)
    &&& post.rooms@[i].id == pre.rooms@[i].id
    &&& post.rooms@[i].admin == pre.rooms@[i].admin
    &&& post.rooms@[i].cards == pre.rooms@[i].cards
    &&& post.rooms@[i].revealed == pre.rooms@[i].revealed
    &&& update_outbox(outbox, pre.clients@, post.rooms@[i], RoomMessage::UserVoted(user_id))
}

/// The registry after a reveal: hidden votes promoted when the requester
/// owns the room, the reveal gate closed regardless, and the event plus the
/// updated room view went out to every connected member.
pub open spec fn votes_revealed_room(
    pre: AppState,
    post: AppState,
    user_id: UserId,
    room_id: RoomId,
    outbox: Seq<(ConnId, RoomMessage)>,
) -> bool {
    let i = pre.room_index(room_id);
    let room = pre.rooms@[i];
    &&& post.rooms@.len() == pre.rooms@.len()
    &&& forall|j: int| 0 <= j < pre.rooms@.len() && j != i ==> post.rooms@[j] == pre.rooms@[j]
    &&& post.rooms@[i].revealed
    &&& post.rooms@[i].id == room.id
    &&& post.rooms@[i].admin == room.admin
    &&& post.rooms@[i].cards == room.cards
    &&& room.admin == user_id ==> post.rooms@[i].users@.len() == room.users@.len() && forall|
        k: int,
    |
        0 <= k < room.users@.len() ==> post.rooms@[i].users@[k] == (RoomUser {
            user_id: room.users@[k].user_id,
            vote: reveal_vote(room.users@[k].vote),
        })
    &&& room.admin != user_id ==> post.rooms@[i].users == room.users
    &&& update_outbox(outbox, pre.clients@, post.rooms@[i], RoomMessage::CardsRevealed)
}

/// The registry after a reset: votes cleared when the requester owns the
/// room, the reveal gate reopened regardless, and the event plus the
/// updated room view went out to every connected member.
pub open spec fn votes_reset_room(
    pre: AppState,
    post: AppState,
    user_id: UserId,
    room_id: RoomId,
    outbox: Seq<(ConnId, RoomMessage)>,
) -> bool {
    let i = pre.room_index(room_id);
    let room = pre.rooms@[i];
    &&& post.rooms@.len() == pre.rooms@.len()
    &&& forall|j: int| 0 <= j < pre.rooms@.len() && j != i ==> post.rooms@[j] == pre.rooms@[j]
    &&& !post.rooms@[i].revealed
    &&& post.rooms@[i].id == room.id
    &&& post.rooms@[i].admin == room.admin
    &&& post.rooms@[i].cards == room.cards
    &&& room.admin == user_id ==> post.rooms@[i].users@.len() == room.users@.len() && forall|
        k: int,
    |
        0 <= k < room.users@.len() ==> post.rooms@[i].users@[k] == (RoomUser {
            user_id: room.users@[k].user_id,
            vote: Vote::NoVote,
        })
    &&& room.admin != user_id ==> post.rooms@[i].users == room.users
    &&& update_outbox(outbox, pre.clients@, post.rooms@[i], RoomMessage::Reset)
}

/// Appends one copy of `msg` for every live connection of a member of
/// `room` (the fan-out step of a broadcast).
fn push_broadcast(
    out: &mut Vec<(ConnId, RoomMessage)>,
    clients: &Vec<(UserId, ConnId)>,
    room: &RoomInfo,
    msg: &RoomMessage,
)
    ensures
        final(out)@.len() == old(out)@.len() + recipients(clients@, room.users@).len(),
        forall|k: int| 0 <= k < old(out)@.len() ==> final(out)@[k] == old(out)@[k],
        forall|k: int|
            old(out)@.len() <= k < final(out)@.len() ==> (#[trigger] final(out)@[k]).0
                == recipients(clients@, room.users@)[k - old(out)@.len()] && message_like(
                final(out)@[k].1,
                *msg,
            ),
{
    let n = clients.len();
    let mut i: usize = 0;
    proof {
        reveal(Seq::filter);
        assert(recipients(clients@.subrange(0, 0), room.users@) =~= Seq::<ConnId>::empty());
    }
    while i < n
        invariant
            i <= n,
            n == clients@.len(),
            out@.len() == old(out)@.len() + recipients(
                clients@.subrange(0, i as int),
                room.users@,
            ).len(),
            forall|k: int| 0 <= k < old(out)@.len() ==> out@[k] == old(out)@[k],
            forall|k: int|
                old(out)@.len() <= k < out@.len() ==> (#[trigger] out@[k]).0 == recipients(
                    clients@.subrange(0, i as int),
                    room.users@,
                )[k - old(out)@.len()] && message_like(out@[k].1, *msg),
        decreases n - i,
    {
        let user_id = clients[i].0;
        let conn = clients[i].1;
        proof {
            assert(clients@.subrange(0, i + 1) =~= clients@.subrange(0, i as int).push(
                clients@[i as int],
            ));
            lemma_recipients_push(clients@.subrange(0, i as int), clients@[i as int], room.users@);
        }
        if member_of(&room.users, user_id) {
            out.push((conn, msg.clone()));
        }
        i += 1;
    }
    proof {
        assert(clients@.subrange(0, n as int) =~= clients@);
    }
}

/// One full broadcast: `msg` to every live connection of a room member,
/// then the room snapshot to the same connections.
fn broadcast_room_update(
    clients: &Vec<(UserId, ConnId)>,
    room: &RoomInfo,
    msg: RoomMessage,
) -> (outbox: Vec<(ConnId, RoomMessage)>)
    ensures
        update_outbox(outbox@, clients@, *room, msg),
{
    let mut outbox: Vec<(ConnId, RoomMessage)> = Vec::new();
    push_broadcast(&mut outbox, clients, room, &msg);
    let snapshot = RoomMessage::RoomInfo(room.clone());
    push_broadcast(&mut outbox, clients, room, &snapshot);
    outbox
}

/// How many live connections a user holds.
pub open spec fn count_conns(clients: Seq<(UserId, ConnId)>, user_id: UserId) -> nat
    decreases clients.len(),
{
    if clients.len() == 0 {
        0
    } else {
        count_conns(clients.drop_last(), user_id) + if clients.last().0 == user_id {
            1nat
        } else {
            0nat
        }
    }
}

fn count_clients_of_user(clients: &Vec<(UserId, ConnId)>, user_id: UserId) -> (r: usize)
    ensures
        r == count_conns(clients@, user_id),
{
    let n = clients.len();
    let mut count: usize = 0;
    let mut i: usize = 0;
    proof {
        assert(clients@.subrange(0, 0) =~= Seq::<(UserId, ConnId)>::empty());
    }
    while i < n
        invariant
            i <= n,
            n == clients@.len(),
            count <= i,
            count == count_conns(clients@.subrange(0, i as int), user_id),
        decreases n - i,
    {
        proof {
            let whole = clients@.subrange(0, i + 1);
            assert(whole.drop_last() =~= clients@.subrange(0, i as int));
            assert(whole.last() == clients@[i as int]);
        }
        if clients[i].0 == user_id {
            count += 1;
        }
        i += 1;
    }
    proof {
        assert(clients@.subrange(0, n as int) =~= clients@);
    }
    count
}

/// The notifications a disconnect cascade pushes: for each room in order,
/// one full leave broadcast (the leave, then the updated room view, each to
/// every connected member left on that room's roster).
pub open spec fn cascade_outbox(
    outbox: Seq<(ConnId, RoomMessage)>,
    clients: Seq<(UserId, ConnId)>,
    rooms: Seq<RoomInfo>,
    user_id: UserId,
) -> bool
    decreases rooms.len(),
{
    if rooms.len() == 0 {
        outbox.len() == 0
    } else {
        let block_len = 2 * recipients(clients, rooms[0].users@).len();
        &&& outbox.len() >= block_len
        &&& update_outbox(
            outbox.take(block_len as int),
            clients,
            rooms[0],
            RoomMessage::UserLeft(user_id),
        )
        &&& cascade_outbox(outbox.skip(block_len as int), clients, rooms.skip(1), user_id)
    }
}

/// Extends a cascade by one more room's leave broadcast.
proof fn lemma_cascade_outbox_snoc(
    outbox: Seq<(ConnId, RoomMessage)>,
    block: Seq<(ConnId, RoomMessage)>,
    clients: Seq<(UserId, ConnId)>,
    rooms: Seq<RoomInfo>,
    room: RoomInfo,
    user_id: UserId,
)
    requires
        cascade_outbox(outbox, clients, rooms, user_id),
        update_outbox(block, clients, room, RoomMessage::UserLeft(user_id)),
    ensures
        cascade_outbox(outbox + block, clients, rooms.push(room), user_id),
    decreases rooms.len(),
{
    if rooms.len() == 0 {
        let bl = 2 * recipients(clients, room.users@).len();
        assert(rooms.push(room)[0] == room);
        assert(outbox + block =~= block);
        assert((outbox + block).take(bl as int) =~= block);
        assert((outbox + block).skip(bl as int) =~= Seq::<(ConnId, RoomMessage)>::empty());
        assert(rooms.push(room).skip(1) =~= Seq::<RoomInfo>::empty());
        assert(cascade_outbox(
            Seq::<(ConnId, RoomMessage)>::empty(),
            clients,
            Seq::<RoomInfo>::empty(),
            user_id,
        ));
    } else {
        let bl0 = 2 * recipients(clients, rooms[0].users@).len();
        lemma_cascade_outbox_snoc(
            outbox.skip(bl0 as int),
            block,
            clients,
            rooms.skip(1),
            room,
            user_id,
        );
        assert(rooms.push(room)[0] == rooms[0]);
        assert((outbox + block).take(bl0 as int) =~= outbox.take(bl0 as int));
        assert((outbox + block).skip(bl0 as int) =~= outbox.skip(bl0 as int) + block);
        assert(rooms.push(room).skip(1) =~= rooms.skip(1).push(room));
    }
}

/// Pins down `room_index` under `wf`: any index carrying `room_id` is the
/// room's index.
pub proof fn lemma_room_index_is(s: AppState, room_id: RoomId, i: int)
    requires
        s.wf(),
        0 <= i < s.rooms@.len(),
        s.rooms@[i].id == room_id,
    ensures
        s.spec_has_room(room_id),
        s.room_index(room_id) == i,
{
    assert(has_room_id(s.rooms@, room_id));
    let j = s.room_index(room_id);
    assert(0 <= j < s.rooms@.len() && s.rooms@[j].id == room_id);
    if j < i {
        assert(s.rooms@[j].id != s.rooms@[i].id);
    } else if i < j {
        assert(s.rooms@[i].id != s.rooms@[j].id);
    }
}

/// The single shared store of all rooms, all known users and all live
/// connections. Every mutating operation is one atomic step; each returns
/// the notifications to push, so the transport layer can fan them out
/// without the store ever waiting on a connection.
#[derive(Debug)]
pub struct AppState {
    pub clients: Vec<(UserId, ConnId)>,
    pub rooms: Vec<RoomInfo>,
    pub users: Vec<User>,
}

impl AppState {
    /// The registry's structural invariant: live room ids are unique, and
    /// each room's roster is well formed.
    pub open spec fn wf(self) -> bool {
        &&& forall|i: int, j: int|
            0 <= i < j < self.rooms@.len() ==> (#[trigger] self.rooms@[i]).id != (
            #[trigger] self.rooms@[j]).id
        &&& forall|i: int| 0 <= i < self.rooms@.len() ==> (#[trigger] self.rooms@[i]).wf()
    }

    pub open spec fn spec_has_room(self, room_id: RoomId) -> bool {
        has_room_id(self.rooms@, room_id)
    }

    /// The index of the room carrying `room_id`; meaningful when
    /// `spec_has_room` holds, and unique under `wf`.
    pub open spec fn room_index(self, room_id: RoomId) -> int {
        choose|i: int| 0 <= i < self.rooms@.len() && (#[trigger] self.rooms@[i]).id == room_id
    }

    /// An empty registry: no rooms, no users, no connections.
    pub fn new() -> (r: Self)
        ensures
            r.clients@.len() == 0,
            r.rooms@.len() == 0,
            r.users@.len() == 0,
            r.wf(),
    {
        Self { clients: Vec::new(), rooms: Vec::new(), users: Vec::new() }
    }

    /// Registers a live connection for `user_id`.
    pub fn add_client(&mut self, user_id: UserId, client: ConnId)
        ensures
            final(self).clients@ == old(self).clients@.push((user_id, client)),
            final(self).rooms == old(self).rooms,
            final(self).users == old(self).users,
    {
        self.clients.push((user_id, client));
    }

    /// Looks a user up by session token; `Some` exactly when a user carries
    /// the token, returning the first such record.
    pub fn user_with_session_id(&mut self, id: SessionId) -> (r: Option<User>)
        ensures
            *final(self) == *old(self),
            (r is Some) <==> exists|i: int|
                0 <= i < old(self).users@.len() && (#[trigger] old(self).users@[i]).session_id
                    == id,
            r matches Some(u) ==> u.session_id == id && exists|i: int|
                0 <= i < old(self).users@.len() && (#[trigger] old(self).users@[i]) == u,
    {
        let n = self.users.len();
        let mut i: usize = 0;
        while i < n
            invariant
                i <= n,
                n == self.users@.len(),
                forall|j: int| 0 <= j < i ==> (#[trigger] self.users@[j]).session_id != id,
            decreases n - i,
        {
            if self.users[i].session_id == id {
                return Some(self.users[i]);
            }
            i += 1;
        }
        None
    }

    /// Mints a fresh user with newly drawn id and session token and
    /// registers it. Never fails.
    pub fn create_user(&mut self) -> (r: User)
        ensures
            final(self).users@ == old(self).users@.push(r),
            final(self).clients == old(self).clients,
            final(self).rooms == old(self).rooms,
    {
        let user = User { id: random_id(), session_id: random_id() };
        self.users.push(user);
        user
    }

    /// Whether a live room carries `id`.
    pub fn has_room_with_id(&self, id: RoomId) -> (r: bool)
        ensures
            r == self.spec_has_room(id),
    {
        let n = self.rooms.len();
        let mut i: usize = 0;
        while i < n
            invariant
                i <= n,
                n == self.rooms@.len(),
                forall|j: int| 0 <= j < i ==> (#[trigger] self.rooms@[j]).id != id,
            decreases n - i,
        {
            if self.rooms[i].id == id {
                return true;
            }
            i += 1;
        }
        false
    }

    /// The first index holding `room_id`, if any.
    fn find_room_index(&self, room_id: RoomId) -> (r: Option<usize>)
        ensures
            (r is Some) <==> self.spec_has_room(room_id),
            r matches Some(i) ==> i < self.rooms@.len() && self.rooms@[i as int].id == room_id,
    {
        let n = self.rooms.len();
        let mut i: usize = 0;
        while i < n
            invariant
                i <= n,
                n == self.rooms@.len(),
                forall|j: int| 0 <= j < i ==> (#[trigger] self.rooms@[j]).id != room_id,
            decreases n - i,
        {
            if self.rooms[i].id == room_id {
                return Some(i);
            }
            i += 1;
        }
        None
    }

    /// A read-only view of the room carrying `room_id`, if live.
    pub fn room(&self, room_id: RoomId) -> (r: Option<&RoomInfo>)
        ensures
            (r is Some) <==> self.spec_has_room(room_id),
            r matches Some(room) ==> room.id == room_id && exists|i: int|
                0 <= i < self.rooms@.len() && (#[trigger] self.rooms@[i]) == *room,
    {
        match self.find_room_index(room_id) {
            Some(i) => Some(&self.rooms[i]),
            None => None,
        }
    }

    /// Creates a room under a randomly drawn id no live room carries
    /// (resampling by wrapped probing on collision), owned by `owner_id`,
    /// with the fixed default deck, no members and votes unrevealed.
    pub fn create_room(&mut self, owner_id: UserId) -> (r: RoomId)
        requires
            old(self).wf(),
            old(self).rooms@.len() < MAX_ROOM_ID as int,
        ensures
            final(self).wf(),
            r < MAX_ROOM_ID,
            !old(self).spec_has_room(r),
            final(self).clients == old(self).clients,
            final(self).users == old(self).users,
            final(self).rooms@.len() == old(self).rooms@.len() + 1,
            forall|j: int|
                0 <= j < old(self).rooms@.len() ==> final(self).rooms@[j] == old(self).rooms@[j],
            ({
                let room = final(self).rooms@.last();
                &&& room.id == r
                &&& room.admin == owner_id
                &&& room.users@.len() == 0
                &&& !room.revealed
                &&& is_default_deck(room.cards@)
            }),
    {
        let n = self.rooms.len();
        let start = random_room_id();
        let mut result: Option<RoomId> = None;
        let mut offset: usize = 0;
        while result.is_none() && offset <= n
            invariant
                n == self.rooms@.len(),
                n < MAX_ROOM_ID as int,
                *self == *old(self),
                old(self).wf(),
                start < MAX_ROOM_ID,
                offset <= n + 1,
                result is None ==> forall|k: int|
                    0 <= k < offset ==> #[trigger] has_room_id(
                        self.rooms@,
                        probe_candidate(start, k),
                    ),
                result matches Some(id) ==> !self.spec_has_room(id) && id < MAX_ROOM_ID,
            decreases n + 1 - offset,
        {
            let c: u64 = start as u64 + offset as u64;
            let candidate: RoomId = if c < MAX_ROOM_ID as u64 {
                c as u32
            } else {
                (c - MAX_ROOM_ID as u64) as u32
            };
            proof {
                assert(candidate == probe_candidate(start, offset as int));
            }
            if !self.has_room_with_id(candidate) {
                result = Some(candidate);
            }
            offset += 1;
        }
        let id = match result {
            Some(id) => id,
            None => {
                proof {
                    lemma_probe_finds_free(self.rooms@, start);
                }
                0
            },
        };
        let mut room = RoomInfo::new(id, owner_id);
        room.cards = default_deck();
        proof {
            let pushed = self.rooms@.push(room);
            assert forall|a: int, b: int|
                0 <= a < b < pushed.len() implies (#[trigger] pushed[a]).id != (
            #[trigger] pushed[b]).id by {
                if b < self.rooms@.len() {
                    assert(pushed[a] == self.rooms@[a] && pushed[b] == self.rooms@[b]);
                } else {
                    assert(pushed[b] == room);
                    assert(pushed[a] == self.rooms@[a]);
                    if self.rooms@[a].id == id {
                        assert(has_room_id(self.rooms@, id));
                    }
                }
            }
        }
        self.rooms.push(room);
        id
    }

    /// Adds `user_id` to the room (idempotently), then broadcasts the join
    /// and the updated room view to every connected member, joiner included.
    /// A no-op with no broadcast when no room carries `room_id`.
    pub fn add_user_to_room(&mut self, user_id: UserId, room_id: RoomId) -> (outbox: Vec<
        (ConnId, RoomMessage),
    >)
        requires
            old(self).wf(),
        ensures
            final(self).wf(),
            final(self).clients == old(self).clients,
            final(self).users == old(self).users,
            !old(self).spec_has_room(room_id) ==> *final(self) == *old(self) && outbox@.len()
                == 0,
            old(self).spec_has_room(room_id) ==> user_joined_room(
                *old(self),
                *final(self),
                user_id,
                room_id,
                outbox@,
            ),
    {
        match self.find_room_index(room_id) {
            None => Vec::new(),
            Some(i) => {
                proof {
                    lemma_room_index_is(*self, room_id, i as int);
                }
                let room_ref = &mut self.rooms[i];
                room_ref.add_user(user_id);
                proof {
                    self.lemma_wf_after_room_update(*old(self), i as int);
                }
                broadcast_room_update(
                    &self.clients,
                    &self.rooms[i],
                    RoomMessage::UserJoined(user_id),
                )
            },
        }
    }

    /// Drops `user_id` from the room, then broadcasts the leave and the
    /// updated room view to the remaining connected members. A no-op with no
    /// broadcast when no room carries `room_id`.
    pub fn remove_user_from_room(&mut self, user_id: UserId, room_id: RoomId) -> (outbox: Vec<
        (ConnId, RoomMessage),
    >)
        requires
            old(self).wf(),
        ensures
            final(self).wf(),
            final(self).clients == old(self).clients,
            final(self).users == old(self).users,
            !old(self).spec_has_room(room_id) ==> *final(self) == *old(self) && outbox@.len()
                == 0,
            old(self).spec_has_room(room_id) ==> user_left_room(
                *old(self),
                *final(self),
                user_id,
                room_id,
                outbox@,
            ),
    {
        match self.find_room_index(room_id) {
            None => Vec::new(),
            Some(i) => {
                proof {
                    lemma_room_index_is(*self, room_id, i as int);
                }
                let room_ref = &mut self.rooms[i];
                room_ref.remove_user(user_id);
                proof {
                    self.lemma_wf_after_room_update(*old(self), i as int);
                }
                broadcast_room_update(
                    &self.clients,
                    &self.rooms[i],
                    RoomMessage::UserLeft(user_id),
                )
            },
        }
    }

    /// Applies a member's vote (toggling on a repeated index), then
    /// broadcasts the vote and the updated room view. A no-op with no
    /// broadcast when the room is unknown, already revealed, or the user is
    /// not a member.
    pub fn vote(&mut self, user_id: UserId, room_id: RoomId, vote: u32) -> (outbox: Vec<
        (ConnId, RoomMessage),
    >)
        requires
            old(self).wf(),
        ensures
            final(self).wf(),
            final(self).clients == old(self).clients,
            final(self).users == old(self).users,
            !old(self).spec_has_room(room_id) ==> *final(self) == *old(self) && outbox@.len()
                == 0,
            old(self).spec_has_room(room_id) ==> ({
                let i = old(self).room_index(room_id);
                let room = old(self).rooms@[i];
                &&& (room.revealed || !is_member(room.users@, user_id)) ==> *final(self) == *old(
                    self,
                ) && outbox@.len() == 0
                &&& (!room.revealed && is_member(room.users@, user_id)) ==> user_voted_room(
                    *old(self),
                    *final(self),
                    user_id,
                    room_id,
                    vote,
                    outbox@,
                )
            }),
    {
        match self.find_room_index(room_id) {
            None => Vec::new(),
            Some(i) => {
                proof {
                    lemma_room_index_is(*self, room_id, i as int);
                }
                if self.rooms[i].revealed {
                    return Vec::new();
                }
                if !member_of(&self.rooms[i].users, user_id) {
                    return Vec::new();
                }
                let room_ref = &mut self.rooms[i];
                room_ref.cast_vote(user_id, vote);
                proof {
                    self.lemma_wf_after_room_update(*old(self), i as int);
                }
                broadcast_room_update(
                    &self.clients,
                    &self.rooms[i],
                    RoomMessage::UserVoted(user_id),
                )
            },
        }
    }

    /// Lets the owner reveal every hidden vote; whoever asked, the room's
    /// reveal gate closes, and the event plus the updated room view are
    /// broadcast. A no-op with no broadcast when no room carries `room_id`.
    pub fn reveal_votes(&mut self, user_id: UserId, room_id: RoomId) -> (outbox: Vec<
        (ConnId, RoomMessage),
    >)
        requires
            old(self).wf(),
        ensures
            final(self).wf(),
            final(self).clients == old(self).clients,
            final(self).users == old(self).users,
            !old(self).spec_has_room(room_id) ==> *final(self) == *old(self) && outbox@.len()
                == 0,
            old(self).spec_has_room(room_id) ==> votes_revealed_room(
                *old(self),
                *final(self),
                user_id,
                room_id,
                outbox@,
            ),
    {
        match self.find_room_index(room_id) {
            None => Vec::new(),
            Some(i) => {
                proof {
                    lemma_room_index_is(*self, room_id, i as int);
                }
                let room_ref = &mut self.rooms[i];
                room_ref.reveal_votes(user_id);
                proof {
                    self.lemma_wf_after_room_update(*old(self), i as int);
                }
                broadcast_room_update(&self.clients, &self.rooms[i], RoomMessage::CardsRevealed)
            },
        }
    }

    /// Lets the owner clear every vote; whoever asked, the room's reveal
    /// gate reopens, and the event plus the updated room view are broadcast.
    /// A no-op with no broadcast when no room carries `room_id`.
    pub fn reset_votes(&mut self, user_id: UserId, room_id: RoomId) -> (outbox: Vec<
        (ConnId, RoomMessage),
    >)
        requires
            old(self).wf(),
        ensures
            final(self).wf(),
            final(self).clients == old(self).clients,
            final(self).users == old(self).users,
            !old(self).spec_has_room(room_id) ==> *final(self) == *old(self) && outbox@.len()
                == 0,
            old(self).spec_has_room(room_id) ==> votes_reset_room(
                *old(self),
                *final(self),
                user_id,
                room_id,
                outbox@,
            ),
    {
        match self.find_room_index(room_id) {
            None => Vec::new(),
            Some(i) => {
                proof {
                    lemma_room_index_is(*self, room_id, i as int);
                }
                let room_ref = &mut self.rooms[i];
                room_ref.reset_votes(user_id);
                proof {
                    self.lemma_wf_after_room_update(*old(self), i as int);
                }
                broadcast_room_update(&self.clients, &self.rooms[i], RoomMessage::Reset)
            },
        }
    }

    /// Unregisters a live connection. If it was the user's last one, the
    /// user first leaves every room (each leave broadcast as usual); with
    /// another tab still open, no room membership changes.
    pub fn remove_client(&mut self, client: ConnId) -> (outbox: Vec<(ConnId, RoomMessage)>)
        requires
            old(self).wf(),
        ensures
            final(self).wf(),
            final(self).users == old(self).users,
            !(exists|i: int|
                0 <= i < old(self).clients@.len() && (#[trigger] old(self).clients@[i]).1
                    == client) ==> *final(self) == *old(self) && outbox@.len() == 0,
            (exists|i: int|
                0 <= i < old(self).clients@.len() && (#[trigger] old(self).clients@[i]).1
                    == client) ==> exists|ci: int|
                {
                    &&& 0 <= ci < old(self).clients@.len()
                    &&& (#[trigger] old(self).clients@[ci]).1 == client
                    &&& forall|j: int| 0 <= j < ci ==> old(self).clients@[j].1 != client
                    &&& final(self).clients@ == old(self).clients@.remove(ci)
                    &&& ({
                        let uid = old(self).clients@[ci].0;
                        if count_conns(old(self).clients@, uid) == 1 {
                            &&& final(self).rooms@.len() == old(self).rooms@.len()
                            &&& forall|j: int|
                                0 <= j < old(self).rooms@.len() ==> {
                                    &&& (#[trigger] final(self).rooms@[j]).users@
                                        == remove_member_spec(old(self).rooms@[j].users@, uid)
                                    &&& final(self).rooms@[j].id == old(self).rooms@[j].id
                                    &&& final(self).rooms@[j].admin == old(self).rooms@[j].admin
                                    &&& final(self).rooms@[j].cards == old(self).rooms@[j].cards
                                    &&& final(self).rooms@[j].revealed == old(self).rooms@[j].revealed
                                }
                            &&& cascade_outbox(
                                outbox@,
                                old(self).clients@,
                                final(self).rooms@,
                                uid,
                            )
                        } else {
                            final(self).rooms@ == old(self).rooms@ && outbox@.len() == 0
                        }
                    })
                },
    {
        let found = self.find_client_index(client);
        match found {
            None => Vec::new(),
            Some(ci) => {
                let uid = self.clients[ci].0;
                let cnt = count_clients_of_user(&self.clients, uid);
                let mut outbox: Vec<(ConnId, RoomMessage)> = Vec::new();
                if cnt == 1 {
                    let n = self.rooms.len();
                    let mut j: usize = 0;
                    proof {
                        assert(self.rooms@.subrange(0, 0) =~= Seq::<RoomInfo>::empty());
                    }
                    while j < n
                        invariant
                            j <= n,
                            n == self.rooms@.len(),
                            old(self).wf(),
                            self.wf(),
                            self.clients == old(self).clients,
                            self.users == old(self).users,
                            forall|k: int|
                                0 <= k < j ==> (#[trigger] self.rooms@[k]).users@
                                    == remove_member_spec(old(self).rooms@[k].users@, uid)
                                    && self.rooms@[k].id == old(self).rooms@[k].id
                                    && self.rooms@[k].admin == old(self).rooms@[k].admin
                                    && self.rooms@[k].cards == old(self).rooms@[k].cards
                                    && self.rooms@[k].revealed == old(self).rooms@[k].revealed,
                            forall|k: int| j <= k < n ==> self.rooms@[k] == old(self).rooms@[k],
                            cascade_outbox(
                                outbox@,
                                old(self).clients@,
                                self.rooms@.subrange(0, j as int),
                                uid,
                            ),
                        decreases n - j,
                    {
                        let room_id = self.rooms[j].id;
                        proof {
                            lemma_room_index_is(*self, room_id, j as int);
                        }
                        let ghost prefix = self.rooms@.subrange(0, j as int);
                        let ghost outbox_before = outbox@;
                        let mut block = self.remove_user_from_room(uid, room_id);
                        proof {
                            assert(self.rooms@.subrange(0, j as int) =~= prefix);
                            lemma_cascade_outbox_snoc(
                                outbox_before,
                                block@,
                                old(self).clients@,
                                prefix,
                                self.rooms@[j as int],
                                uid,
                            );
                            assert(self.rooms@.subrange(0, j + 1) =~= prefix.push(
                                self.rooms@[j as int],
                            ));
                        }
                        outbox.append(&mut block);
                        j += 1;
                    }
                    proof {
                        assert(self.rooms@.subrange(0, n as int) =~= self.rooms@);
                    }
                }
                self.clients.remove(ci);
                outbox
            },
        }
    }

    /// The first entry holding connection `client`, if any.
    fn find_client_index(&self, client: ConnId) -> (r: Option<usize>)
        ensures
            (r is Some) <==> exists|i: int|
                0 <= i < self.clients@.len() && (#[trigger] self.clients@[i]).1 == client,
            r matches Some(i) ==> i < self.clients@.len() && self.clients@[i as int].1 == client
                && forall|j: int| 0 <= j < i ==> (#[trigger] self.clients@[j]).1 != client,
    {
        let n = self.clients.len();
        let mut i: usize = 0;
        while i < n
            invariant
                i <= n,
                n == self.clients@.len(),
                forall|j: int| 0 <= j < i ==> (#[trigger] self.clients@[j]).1 != client,
            decreases n - i,
        {
            if self.clients[i].1 == client {
                return Some(i);
            }
            i += 1;
        }
        None
    }

    /// Re-establishes `wf` after one room was rewritten in place with its id
    /// kept and its roster still well formed.
    proof fn lemma_wf_after_room_update(self, prev: AppState, i: int)
        requires
            prev.wf(),
            0 <= i < prev.rooms@.len(),
            self.rooms@.len() == prev.rooms@.len(),
            forall|j: int| 0 <= j < prev.rooms@.len() && j != i ==> self.rooms@[j] == prev.rooms@[j],
            self.rooms@[i].id == prev.rooms@[i].id,
            self.rooms@[i].wf(),
        ensures
            self.wf(),
    {
        assert forall|a: int, b: int|
            0 <= a < b < self.rooms@.len() implies (#[trigger] self.rooms@[a]).id != (
        #[trigger] self.rooms@[b]).id by {
            assert(self.rooms@[a].id == prev.rooms@[a].id);
            assert(self.rooms@[b].id == prev.rooms@[b].id);
        }
        assert forall|a: int| 0 <= a < self.rooms@.len() implies (#[trigger] self.rooms@[a]).wf() by {
            if a != i {
                assert(self.rooms@[a] == prev.rooms@[a]);
            }
        }
    }
}

} // verus!
