use vstd::prelude::*;
use crate::records::Account;

verus! {

/// Peers tuned to the same frequency hear each other within this distance, in metres.
pub const TALK_RADIUS_M: u64 = 10000;

/// The state of one live connection that the relay decides on. Its position is
/// kept beside it by the transport layer, which reports distances in metres.
#[derive(Debug)]
pub struct ConnectionData {
    /// Unique identifier for this connection, never reused.
    pub id: u32,
    /// The account that logged in on this connection.
    pub account: Account,
    /// The selected frequency.
    pub frequency: u8,
    /// The current room, if any; it overrides frequency and distance.
    pub room: Option<u32>,
    /// Cached ids of the peers that hear this connection, replaced at each reevaluation.
    pub broadcast: Vec<u32>,
}

/// What one pass of the audience engine reads of a registered connection.
#[derive(Debug, Clone, Copy, PartialEq, Eq, Structural)]
pub struct PeerState {
    pub id: u32,
    pub room: Option<u32>,
    pub frequency: u8,
    /// Great-circle distance from the connection being evaluated, in metres, rounded up.
    pub distance_m: u64,
}

/// Whether the connection `id`, in `room` and on `frequency`, is heard by `p`.
pub open spec fn hears(id: u32, room: Option<u32>, frequency: u8, p: PeerState) -> bool {
    p.id != id && match room {
        Some(r) => p.room == Some(r),
        None => p.frequency == frequency && p.distance_m <= TALK_RADIUS_M,
    }
}

/// The ids of the peers of a snapshot that hear the connection, in snapshot order.
pub open spec fn audience_of(id: u32, room: Option<u32>, frequency: u8, peers: Seq<PeerState>) -> Seq<u32>
    decreases peers.len(),
{
    if peers.len() == 0 {
        Seq::empty()
    } else {
        let rest = audience_of(id, room, frequency, peers.drop_last());
        if hears(id, room, frequency, peers.last()) {
            rest.push(peers.last().id)
        } else {
            rest
        }
    }
}

/// No two entries of a snapshot share an id.
pub open spec fn unique_ids(peers: Seq<PeerState>) -> bool {
    forall|i: int, j: int|
        0 <= i < peers.len() && 0 <= j < peers.len() && #[trigger] peers[i].id == #[trigger] peers[j].id ==> i == j
}

fn hears_peer(id: u32, room: Option<u32>, frequency: u8, p: &PeerState) -> (r: bool)
    ensures
        r == hears(id, room, frequency, *p),
{
    if p.id == id {
        return false;
    }
    match room {
        Some(r) => match p.room {
            Some(q) => q == r,
            None => false,
        },
        None => p.frequency == frequency && p.distance_m <= TALK_RADIUS_M,
    }
}

impl ConnectionData {
    /// A connection just admitted: frequency 0, no room, nobody in its audience.
    pub fn new(id: u32, account: Account) -> (r: ConnectionData)
        ensures
            r.id == id,
            r.account == account,
            r.frequency == 0,
            r.room.is_none(),
            r.broadcast@.len() == 0,
    {
        ConnectionData { id, account, frequency: 0, room: None, broadcast: Vec::new() }
    }

    /// Recomputes the peers that hear this connection from a snapshot of the
    /// registry and replaces the cached list with them.
    pub fn reevaluate_broadcast(&mut self, peers: &Vec<PeerState>)
        ensures
            final(self).broadcast@ == audience_of(old(self).id, old(self).room, old(self).frequency, peers@),
            final(self).id == old(self).id,
            final(self).account == old(self).account,
            final(self).frequency == old(self).frequency,
            final(self).room == old(self).room,
            !final(self).broadcast@.contains(old(self).id),
            forall|x: u32| #[trigger] final(self).broadcast@.contains(x) ==> exists|k: int|
                0 <= k < peers@.len() && (#[trigger] peers@[k]).id == x,
    {
        let mut results: Vec<u32> = Vec::new();
        let mut i: usize = 0;
        while i < peers.len()
            invariant
                i <= peers@.len(),
                results@ == audience_of(self.id, self.room, self.frequency, peers@.take(i as int)),
            decreases peers@.len() - i,
        {
            let p = peers[i];
            proof {
                assert(peers@.take(i + 1).drop_last() =~= peers@.take(i as int));
            }
            if hears_peer(self.id, self.room, self.frequency, &p) {
                results.push(p.id);
            }
            i = i + 1;
        }
        proof {
            assert(peers@.take(peers@.len() as int) =~= peers@);
        }
        proof {
            lemma_audience_excludes_self(self.id, self.room, self.frequency, peers@);
            assert forall|x: u32| #[trigger] results@.contains(x) implies exists|k: int|
                0 <= k < peers@.len() && (#[trigger] peers@[k]).id == x by {
                lemma_audience_membership(self.id, self.room, self.frequency, peers@, x);
            }
        }
        self.broadcast = results;
    }
}

/// An id is in the audience exactly when some peer of the snapshot with that id hears the connection.
pub proof fn lemma_audience_membership(id: u32, room: Option<u32>, frequency: u8, peers: Seq<PeerState>, x: u32)
    ensures
        audience_of(id, room, frequency, peers).contains(x) <==> exists|k: int|
            0 <= k < peers.len() && (#[trigger] peers[k]).id == x && hears(id, room, frequency, peers[k]),
    decreases peers.len(),
{
    if peers.len() > 0 {
        let init = peers.drop_last();
        lemma_audience_membership(id, room, frequency, init, x);
        if audience_of(id, room, frequency, peers).contains(x) {
            if audience_of(id, room, frequency, init).contains(x) {
                let k = choose|k: int| 0 <= k < init.len() && (#[trigger] init[k]).id == x && hears(id, room, frequency, init[k]);
                assert(peers[k] == init[k]);
            } else {
                let rest = audience_of(id, room, frequency, init);
                assert(hears(id, room, frequency, peers.last()));
                assert(rest.push(peers.last().id).contains(x));
                let j = choose|j: int| 0 <= j < rest.len() + 1 && rest.push(peers.last().id)[j] == x;
                assert(j == rest.len());
                assert(peers[peers.len() - 1].id == x);
            }
        }
        if exists|k: int| 0 <= k < peers.len() && (#[trigger] peers[k]).id == x && hears(id, room, frequency, peers[k]) {
            let k = choose|k: int| 0 <= k < peers.len() && (#[trigger] peers[k]).id == x && hears(id, room, frequency, peers[k]);
            let rest = audience_of(id, room, frequency, init);
            if k < peers.len() - 1 {
                assert(init[k] == peers[k]);
                let j = choose|j: int| 0 <= j < rest.len() && rest[j] == x;
                if hears(id, room, frequency, peers.last()) {
                    assert(rest.push(peers.last().id)[j] == x);
                }
            } else {
                assert(rest.push(peers.last().id)[rest.len() as int] == x);
            }
        }
    }
}

/// The audience of a connection never holds the connection's own id.
pub proof fn lemma_audience_excludes_self(id: u32, room: Option<u32>, frequency: u8, peers: Seq<PeerState>)
    ensures
        !audience_of(id, room, frequency, peers).contains(id),
{
    lemma_audience_membership(id, room, frequency, peers, id);
}

/// In room mode two connections of the same room hear each other, whatever their
/// frequencies and distances, and neither is heard by a connection without a room.
pub proof fn lemma_room_mode(a: PeerState, b: PeerState, c: PeerState, peers: Seq<PeerState>)
    requires
        a.room is Some,
        b.room == a.room,
        c.room is None,
        a.id != b.id,
        unique_ids(peers),
        peers.contains(a),
        peers.contains(b),
        peers.contains(c),
    ensures
        audience_of(a.id, a.room, a.frequency, peers).contains(b.id),
        audience_of(b.id, b.room, b.frequency, peers).contains(a.id),
        !audience_of(a.id, a.room, a.frequency, peers).contains(c.id),
        !audience_of(b.id, b.room, b.frequency, peers).contains(c.id),
{
    lemma_audience_membership(a.id, a.room, a.frequency, peers, b.id);
    lemma_audience_membership(b.id, b.room, b.frequency, peers, a.id);
    lemma_audience_membership(a.id, a.room, a.frequency, peers, c.id);
    lemma_audience_membership(b.id, b.room, b.frequency, peers, c.id);
    let ib = choose|i: int| 0 <= i < peers.len() && peers[i] == b;
    let ia = choose|i: int| 0 <= i < peers.len() && peers[i] == a;
    let ic = choose|i: int| 0 <= i < peers.len() && peers[i] == c;
    assert(hears(a.id, a.room, a.frequency, peers[ib]));
    assert(hears(b.id, b.room, b.frequency, peers[ia]));
    assert forall|k: int| 0 <= k < peers.len() && (#[trigger] peers[k]).id == c.id implies k == ic by {}
}

/// In frequency mode, with neither connection in a room: `seen_by_a` is a snapshot
/// taken for `a`, holding `b` with its distance from `a`, and `seen_by_b` one taken
/// for `b`. On one frequency and within the radius they hear each other; beyond
/// the radius, or on different frequencies, they do not.
pub proof fn lemma_frequency_mode(a: PeerState, b: PeerState, seen_by_a: Seq<PeerState>, seen_by_b: Seq<PeerState>)
    requires
        a.room is None,
        b.room is None,
        a.id != b.id,
        unique_ids(seen_by_a),
        unique_ids(seen_by_b),
        seen_by_a.contains(b),
        seen_by_b.contains(a),
    ensures
        a.frequency == b.frequency && b.distance_m <= TALK_RADIUS_M
            ==> audience_of(a.id, a.room, a.frequency, seen_by_a).contains(b.id),
        a.frequency == b.frequency && a.distance_m <= TALK_RADIUS_M
            ==> audience_of(b.id, b.room, b.frequency, seen_by_b).contains(a.id),
        b.distance_m > TALK_RADIUS_M ==> !audience_of(a.id, a.room, a.frequency, seen_by_a).contains(b.id),
        a.distance_m > TALK_RADIUS_M ==> !audience_of(b.id, b.room, b.frequency, seen_by_b).contains(a.id),
        a.frequency != b.frequency ==> !audience_of(a.id, a.room, a.frequency, seen_by_a).contains(b.id),
        a.frequency != b.frequency ==> !audience_of(b.id, b.room, b.frequency, seen_by_b).contains(a.id),
{
    lemma_audience_membership(a.id, a.room, a.frequency, seen_by_a, b.id);
    lemma_audience_membership(b.id, b.room, b.frequency, seen_by_b, a.id);
    let ib = choose|i: int| 0 <= i < seen_by_a.len() && seen_by_a[i] == b;
    let ia = choose|i: int| 0 <= i < seen_by_b.len() && seen_by_b[i] == a;
    assert forall|k: int| 0 <= k < seen_by_a.len() && (#[trigger] seen_by_a[k]).id == b.id implies k == ib by {}
    assert forall|k: int| 0 <= k < seen_by_b.len() && (#[trigger] seen_by_b[k]).id == a.id implies k == ia by {}
}

} // verus!
