//! The room registry: which rooms exist, which channel serves each, and which
//! sessions are subscribed to it.
use dashmap::DashMap;
use tokio::sync::broadcast::Sender;
use vstd::prelude::*;

verus! {

/// Capacity of each room's broadcast channel; a subscriber that falls further
/// behind loses the oldest messages.
pub const CHANNEL_CAPACITY: usize = 100;

#[verifier::external_type_specification]
#[verifier::external_body]
#[verifier::reject_recursive_types(T)]
pub struct ExSender<T>(Sender<T>);

#[verifier::external_type_specification]
#[verifier::external_body]
#[verifier::reject_recursive_types(K)]
#[verifier::reject_recursive_types(V)]
#[verifier::reject_recursive_types(S)]
pub struct ExDashMap<K, V, S>(DashMap<K, V, S>);

/// Relies on `tokio::sync::broadcast::channel`, which panics only on a capacity
/// of zero or above `usize::MAX / 2`; the receiver it also returns is dropped.
#[verifier::external_body]
fn open_channel(capacity: usize) -> (r: Sender<String>)
    requires
        0 < capacity <= usize::MAX / 2,
{
    tokio::sync::broadcast::channel::<String>(capacity).0
}

/// Relies on `Clone for tokio::sync::broadcast::Sender`: another handle to the
/// same channel.
#[verifier::external_body]
fn share_channel(s: &Sender<String>) -> (r: Sender<String>) {
    s.clone()
}

/// Rooms by id.
pub type RoomTable = DashMap<String, Room>;

/// What a table of rooms holds: for each room id, its channel number and its
/// members in the order they joined.
pub uninterp spec fn room_table(m: RoomTable) -> Map<Seq<char>, (u64, Seq<u64>)>;

/// Relies on `DashMap::new`: a map with no entries.
#[verifier::external_body]
fn table_new() -> (r: RoomTable)
    ensures
        room_table(r).dom() == Set::<Seq<char>>::empty(),
{
    DashMap::new()
}

/// Relies on `DashMap::get`: the entry under `id`, if any, handed out as its
/// fields (the channel as another handle to it).
#[verifier::external_body]
fn table_get(m: &RoomTable, id: &str) -> (r: Option<(u64, Vec<u64>, Sender<String>)>)
    ensures
        r is Some <==> room_table(*m).contains_key(id@),
        r matches Some((g, v, _)) ==> room_table(*m)[id@] == (g, v@),
{
    m.get(id).map(|e| (e.generation, e.members.clone(), e.channel.clone()))
}

/// Relies on `DashMap::insert`: the entry under `id` becomes `room`, keys
/// being compared as `String`s are.
#[verifier::external_body]
fn table_insert(m: &mut RoomTable, id: String, room: Room)
    ensures
        room_table(*final(m)) == room_table(*old(m)).insert(id@, (room.generation, room.members@)),
{
    m.insert(id, room);
}

/// Relies on `DashMap::remove`: the entry under `id`, if any, is gone.
#[verifier::external_body]
fn table_remove(m: &mut RoomTable, id: &str)
    ensures
        room_table(*final(m)) == room_table(*old(m)).remove(id@),
{
    m.remove(id);
}

/// What the registry knows of one room.
pub ghost struct RoomView {
    /// Number of the channel serving the room; a room made anew gets a new one.
    pub generation: u64,
    /// Sessions subscribed to the room.
    pub members: Set<u64>,
}

/// One live room, as the table holds it under its id.
pub struct Room {
    pub generation: u64,
    pub members: Vec<u64>,
    pub channel: Sender<String>,
}

/// A session's place in one room's channel: handed out on join and given
/// back on leave.
pub struct Ticket {
    pub room: String,
    pub generation: u64,
    pub session: u64,
}

/// Rooms by id, each created on first join and removed when its last
/// session leaves.
pub struct RoomRegistry {
    rooms: RoomTable,
    next_generation: u64,
    next_session: u64,
}

/// Sessions that see a message published by the holder of `t`: the members of
/// its room while the ticket is live, nobody otherwise.
pub open spec fn observers(m: Map<Seq<char>, RoomView>, t: Ticket) -> Set<u64> {
    if live(m, t) {
        m[t.room@].members
    } else {
        Set::empty()
    }
}

/// `t` names the current channel of its room and its session is subscribed.
pub open spec fn live(m: Map<Seq<char>, RoomView>, t: Ticket) -> bool {
    m.contains_key(t.room@) && m[t.room@].generation == t.generation
        && m[t.room@].members.contains(t.session)
}

/// The rooms after `session` joins `id`; a missing room is made with channel
/// number `fresh`.
pub open spec fn after_join(m: Map<Seq<char>, RoomView>, id: Seq<char>, session: u64, fresh: u64) -> Map<
    Seq<char>,
    RoomView,
> {
    if m.contains_key(id) {
        m.insert(
            id,
            RoomView { generation: m[id].generation, members: m[id].members.insert(session) },
        )
    } else {
        m.insert(id, RoomView { generation: fresh, members: set![session] })
    }
}

/// The rooms after the holder of `t` leaves: its session is dropped from the
/// room, and the room with it once empty. A ticket that is not live changes
/// nothing, so a departing session never touches a room made anew.
pub open spec fn after_leave(m: Map<Seq<char>, RoomView>, t: Ticket) -> Map<Seq<char>, RoomView> {
    if !live(m, t) {
        m
    } else if m[t.room@].members.remove(t.session).is_empty() {
        m.remove(t.room@)
    } else {
        m.insert(
            t.room@,
            RoomView {
                generation: t.generation,
                members: m[t.room@].members.remove(t.session),
            },
        )
    }
}

/// Number of sessions subscribed to `id`; zero for a missing room.
pub open spec fn count_of(m: Map<Seq<char>, RoomView>, id: Seq<char>) -> nat {
    if m.contains_key(id) {
        m[id].members.len()
    } else {
        0
    }
}

impl View for RoomRegistry {
    type V = Map<Seq<char>, RoomView>;

    closed spec fn view(&self) -> Map<Seq<char>, RoomView> {
        room_table(self.rooms).map_values(
            |e: (u64, Seq<u64>)| RoomView { generation: e.0, members: e.1.to_set() },
        )
    }
}

impl RoomRegistry {
    /// Channel number that the next new room gets.
    pub closed spec fn fresh_generation(&self) -> u64 {
        self.next_generation
    }

    /// Session number that the next join hands out.
    pub closed spec fn fresh_session(&self) -> u64 {
        self.next_session
    }

    /// Each room has members, none twice, all numbered below the next
    /// session and on a channel numbered below the next one; no session is
    /// in two rooms.
    pub closed spec fn wf(&self) -> bool {
        let t = room_table(self.rooms);
        &&& forall|id: Seq<char>|
            #![trigger t[id]]
            t.contains_key(id) ==> {
                &&& t[id].1.len() > 0
                &&& t[id].1.no_duplicates()
                &&& t[id].0 < self.next_generation
                &&& forall|k: int| 0 <= k < t[id].1.len() ==> t[id].1[k] < self.next_session
            }
        &&& forall|a: Seq<char>, b: Seq<char>, s: u64|
            t.contains_key(a) && t.contains_key(b) && a != b && #[trigger] t[a].1.contains(s)
                ==> !#[trigger] t[b].1.contains(s)
    }

    /// An empty registry.
    pub fn new() -> (r: Self)
        ensures
            r.wf(),
            r@ == Map::<Seq<char>, RoomView>::empty(),
            r.fresh_generation() == 0,
            r.fresh_session() == 0,
    {
        let r = RoomRegistry { rooms: table_new(), next_generation: 0, next_session: 0 };
        assert(room_table(r.rooms).dom() =~= Set::<Seq<char>>::empty());
        assert(r@ =~= Map::<Seq<char>, RoomView>::empty());
        r
    }

    /// Number of sessions subscribed to `room_id`; zero when the room does not exist.
    pub fn subscriber_count(&self, room_id: &str) -> (r: usize)
        requires
            self.wf(),
        ensures
            r == count_of(self@, room_id@),
    {
        match table_get(&self.rooms, room_id) {
            Some((_, members, _)) => {
                proof {
                    members@.unique_seq_to_set();
                }
                members.len()
            },
            None => 0,
        }
    }

    /// Whether `room_id` is a live room.
    pub fn contains_room(&self, room_id: &str) -> (r: bool)
        ensures
            r == self@.contains_key(room_id@),
    {
        table_get(&self.rooms, room_id).is_some()
    }

    /// Subscribes a new session to `room_id`, creating the room and its channel
    /// when it does not exist; returns the session's ticket and a handle to the
    /// room's channel. Fails only once session or channel numbers run out.
    pub fn join(&mut self, room_id: &str) -> (r: Option<(Ticket, Sender<String>)>)
        requires
            old(self).wf(),
        ensures
            final(self).wf(),
            r is Some <==> old(self).fresh_session() < u64::MAX && (old(self)@.contains_key(
                room_id@,
            ) || old(self).fresh_generation() < u64::MAX),
            match r {
                Some((t, _)) => {
                    &&& t.room@ == room_id@
                    &&& t.session == old(self).fresh_session()
                    &&& final(self)@ == after_join(
                        old(self)@,
                        room_id@,
                        t.session,
                        old(self).fresh_generation(),
                    )
                    &&& live(final(self)@, t)
                    &&& final(self).fresh_session() == old(self).fresh_session() + 1
                    &&& final(self).fresh_generation() == if old(self)@.contains_key(room_id@) {
                        old(self).fresh_generation() as int
                    } else {
                        old(self).fresh_generation() + 1
                    }
                },
                None => *final(self) == *old(self),
            },
    {
        let ghost old_t = room_table(self.rooms);
        let found = table_get(&self.rooms, room_id);
        if self.next_session == u64::MAX {
            return None;
        }
        let session = self.next_session;
        match found {
            Some((g, members, channel)) => {
                let mut members = members;
                proof {
                    members@.lemma_push_to_set_commute(session);
                }
                members.push(session);
                let ghost joined = members@;
                let handle = share_channel(&channel);
                table_insert(
                    &mut self.rooms,
                    room_id.to_owned(),
                    Room { generation: g, members, channel },
                );
                self.next_session = session + 1;
                proof {
                    let t = room_table(self.rooms);
                    assert(t == old_t.insert(room_id@, (g, joined)));
                    let before = old_t[room_id@].1;
                    assert(joined == before.push(session));
                    assert(!before.contains(session));
                    assert(joined.no_duplicates()) by {
                        assert forall|i: int, j: int|
                            0 <= i < j < joined.len() implies joined[i] != joined[j] by {
                            if j == before.len() {
                                assert(before[i] < session);
                            }
                        }
                    }
                    assert forall|id: Seq<char>| #![trigger t[id]] t.contains_key(id) implies {
                        &&& t[id].1.len() > 0
                        &&& t[id].1.no_duplicates()
                        &&& t[id].0 < self.next_generation
                        &&& forall|k: int| 0 <= k < t[id].1.len() ==> t[id].1[k] < self.next_session
                    } by {
                        if id != room_id@ {
                            assert(t[id] == old_t[id]);
                        } else {
                            assert forall|k: int| 0 <= k < joined.len() implies joined[k]
                                < self.next_session by {
                                if k < before.len() {
                                    assert(before[k] < session);
                                }
                            }
                        }
                    }
                    assert forall|a: Seq<char>, b: Seq<char>, s: u64|
                        t.contains_key(a) && t.contains_key(b) && a != b && #[trigger] t[a].1.contains(s)
                            implies !#[trigger] t[b].1.contains(s) by {
                        if a == room_id@ {
                            assert(t[b] == old_t[b]);
                            if s == session {
                                if old_t[b].1.contains(s) {
                                    let k = choose|k: int| 0 <= k < old_t[b].1.len() && old_t[b].1[k] == s;
                                    assert(old_t[b].1[k] < session);
                                }
                            } else {
                                let k = choose|k: int| 0 <= k < joined.len() && joined[k] == s;
                                assert(before[k] == s);
                                assert(old_t[a].1.contains(s));
                            }
                        } else if b == room_id@ {
                            assert(t[a] == old_t[a]);
                            let k = choose|k: int| 0 <= k < old_t[a].1.len() && old_t[a].1[k] == s;
                            assert(old_t[a].1[k] < session);
                            if joined.contains(s) {
                                let j = choose|j: int| 0 <= j < joined.len() && joined[j] == s;
                                if j < before.len() {
                                    assert(before.contains(s));
                                }
                            }
                        } else {
                            assert(t[a] == old_t[a]);
                            assert(t[b] == old_t[b]);
                        }
                    }
                    assert(self.wf());
                    assert(self@ =~= after_join(old(self)@, room_id@, session, self.next_generation));
                    assert(joined.to_set().contains(session));
                }
                Some((Ticket { room: room_id.to_owned(), generation: g, session }, handle))
            },
            None => {
                if self.next_generation == u64::MAX {
                    return None;
                }
                let g = self.next_generation;
                let mut members: Vec<u64> = Vec::new();
                members.push(session);
                let ghost joined = members@;
                let channel = open_channel(CHANNEL_CAPACITY);
                let handle = share_channel(&channel);
                table_insert(
                    &mut self.rooms,
                    room_id.to_owned(),
                    Room { generation: g, members, channel },
                );
                self.next_generation = g + 1;
                self.next_session = session + 1;
                proof {
                    assert(joined =~= seq![session]);
                    assert(joined.to_set() =~= set![session]) by {
                        assert(joined[0] == session);
                    }
                    assert(self.wf());
                    assert(self@ =~= after_join(old(self)@, room_id@, session, g));
                }
                Some((Ticket { room: room_id.to_owned(), generation: g, session }, handle))
            },
        }
    }

    /// Unsubscribes the holder of `t`, removing its room once empty; returns
    /// whether the room was removed. The removal checks that the room still
    /// runs the ticket's channel, so a ticket of a room since made anew
    /// leaves the new room untouched.
    pub fn leave(&mut self, t: &Ticket) -> (removed: bool)
        requires
            old(self).wf(),
        ensures
            final(self).wf(),
            final(self)@ == after_leave(old(self)@, *t),
            removed == (live(old(self)@, *t) && old(self)@[t.room@].members.remove(
                t.session,
            ).is_empty()),
            final(self).fresh_session() == old(self).fresh_session(),
            final(self).fresh_generation() == old(self).fresh_generation(),
    {
        let ghost old_t = room_table(self.rooms);
        let (g, members, channel) = match table_get(&self.rooms, t.room.as_str()) {
            Some(found) => found,
            None => return false,
        };
        if g != t.generation {
            return false;
        }
        let k = match member_index(&members, t.session) {
            Some(k) => k,
            None => {
                proof {
                    assert(!members@.to_set().contains(t.session));
                }
                return false;
            },
        };
        proof {
            lemma_remove_to_set(members@, k as int);
            assert(members@.to_set().contains(t.session));
        }
        if members.len() == 1 {
            table_remove(&mut self.rooms, t.room.as_str());
            proof {
                assert(members@.remove(k as int) =~= Seq::<u64>::empty());
                assert(self.wf());
                assert(self@ =~= old(self)@.remove(t.room@));
                assert(old(self)@[t.room@].members.remove(t.session) =~= Set::<u64>::empty());
            }
            true
        } else {
            let mut members = members;
            let ghost before = members@;
            members.remove(k);
            let ghost after = members@;
            table_insert(
                &mut self.rooms,
                t.room.clone(),
                Room { generation: g, members, channel },
            );
            proof {
                assert(room_table(self.rooms) == old_t.insert(t.room@, (g, after)));
                assert forall|s: u64| #[trigger] after.contains(s) implies before.contains(s) by {
                    assert(after.to_set().contains(s));
                }
                assert(self.wf());
                assert(after.to_set().contains(after[0]));
                assert(old(self)@[t.room@] == RoomView { generation: g, members: before.to_set() });
                assert(live(old(self)@, *t));
                assert(after.to_set() == before.to_set().remove(t.session));
                assert(!before.to_set().remove(t.session).is_empty());
                assert(self@ =~= after_leave(old(self)@, *t));
            }
            false
        }
    }

    /// What a well-formed registry guarantees of its rooms: each has a
    /// member and a channel number below the next one handed out, and no
    /// session is in two rooms.
    pub proof fn lemma_rooms_sound(&self)
        requires
            self.wf(),
        ensures
            forall|id: Seq<char>|
                #![trigger self@[id]]
                self@.contains_key(id) ==> self@[id].generation < self.fresh_generation()
                    && !self@[id].members.is_empty(),
            forall|id: Seq<char>, s: u64|
                self@.contains_key(id) && #[trigger] self@[id].members.contains(s) ==> s
                    < self.fresh_session(),
            forall|a: Seq<char>, b: Seq<char>, s: u64|
                self@.contains_key(a) && self@.contains_key(b) && a != b
                    && #[trigger] self@[a].members.contains(s) ==> !#[trigger] self@[b].members.contains(s),
    {
        let t = room_table(self.rooms);
        assert forall|id: Seq<char>| #![trigger self@[id]] self@.contains_key(id) implies self@[id].generation
            < self.fresh_generation() && !self@[id].members.is_empty() by {
            assert(t[id].1.to_set().contains(t[id].1[0]));
        }
        assert forall|id: Seq<char>, s: u64|
            self@.contains_key(id) && #[trigger] self@[id].members.contains(s) implies s
                < self.fresh_session() by {
            assert(t[id].1.contains(s));
        }
        assert forall|a: Seq<char>, b: Seq<char>, s: u64|
            self@.contains_key(a) && self@.contains_key(b) && a != b
                && #[trigger] self@[a].members.contains(s) implies !#[trigger] self@[b].members.contains(s) by {
            assert(t[a].1.contains(s));
        }
    }
}

fn member_index(members: &Vec<u64>, session: u64) -> (r: Option<usize>)
    ensures
        match r {
            Some(k) => k < members@.len() && members@[k as int] == session,
            None => !members@.contains(session),
        },
{
    let mut k: usize = 0;
    while k < members.len()
        invariant
            k <= members@.len(),
            forall|j: int| 0 <= j < k ==> members@[j] != session,
        decreases members@.len() - k,
    {
        if members[k] == session {
            return Some(k);
        }
        k = k + 1;
    }
    None
}

proof fn lemma_remove_to_set(s: Seq<u64>, k: int)
    requires
        s.no_duplicates(),
        0 <= k < s.len(),
    ensures
        s.remove(k).to_set() == s.to_set().remove(s[k]),
        s.remove(k).no_duplicates(),
        s.remove(k).len() == s.len() - 1,
{
    let r = s.remove(k);
    assert forall|x: u64| #[trigger] r.contains(x) implies s.to_set().remove(s[k]).contains(x) by {
        let j = choose|j: int| 0 <= j < r.len() && r[j] == x;
        if j < k {
            assert(s[j] == x);
        } else {
            assert(s[j + 1] == x);
        }
    }
    assert forall|x: u64| #[trigger] s.to_set().remove(s[k]).contains(x) implies r.contains(x) by {
        let j = choose|j: int| 0 <= j < s.len() && s[j] == x;
        if j < k {
            assert(r[j] == x);
        } else {
            assert(r[j - 1] == x);
        }
    }
    assert(r.to_set() =~= s.to_set().remove(s[k]));
}

/// Two live sessions of one room both see what either of them publishes,
/// the publisher included.
pub proof fn law_room_echo(m: Map<Seq<char>, RoomView>, a: Ticket, b: Ticket)
    requires
        live(m, a),
        live(m, b),
        a.room@ == b.room@,
    ensures
        observers(m, a).contains(a.session),
        observers(m, a).contains(b.session),
{
}

/// What a session publishes in one room is never seen by a session of
/// another room.
pub proof fn law_rooms_isolated(reg: &RoomRegistry, a: Ticket, b: Ticket)
    requires
        reg.wf(),
        live(reg@, a),
        live(reg@, b),
        a.room@ != b.room@,
    ensures
        !observers(reg@, a).contains(b.session),
{
    reg.lemma_rooms_sound();
    assert(reg@[b.room@].members.contains(b.session));
}

/// When the last session of a room leaves, the room is gone; the next join
/// of that id makes the room anew, with a channel number that differs from
/// the old one, so no message of the old channel reaches it.
pub proof fn law_last_leave_removes(reg: &RoomRegistry, t: Ticket, s: u64)
    requires
        reg.wf(),
        live(reg@, t),
        reg@[t.room@].members == set![t.session],
    ensures
        !after_leave(reg@, t).contains_key(t.room@),
        count_of(after_leave(reg@, t), t.room@) == 0,
        after_join(after_leave(reg@, t), t.room@, s, reg.fresh_generation())[t.room@] == (RoomView {
            generation: reg.fresh_generation(),
            members: set![s],
        }),
        reg.fresh_generation() != t.generation,
{
    reg.lemma_rooms_sound();
    assert(reg@[t.room@].members.remove(t.session) =~= Set::<u64>::empty());
}

} // verus!
