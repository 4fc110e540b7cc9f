//! The world, as far as the transport touches it: which peers it knows, what
//! it tells them when peers come and go, and what it sends on every tick.

use crate::message::{
    Message, Object, ObjectInfo, ReliableMessage, ReliableMessageView, Scalar, SignedMessage, Tree,
};
use crate::table::{enumerates, key_list, lemma_prefix_grows, lemma_push_holds, member_list};
use crate::text::{decimal, decimal_text};
use std::collections::{HashMap, HashSet};
use vstd::prelude::*;
use vstd::string::*;

verus! {

broadcast use vstd::std_specs::hash::group_hash_axioms;

/// The number of trees that the world starts with.
pub const INITIAL_TREES: usize = 20;

/// The time between two ticks of the world, in milliseconds.
pub const TICK_MILLIS: u64 = 16;

/// Where the world stands with a peer.
#[derive(Debug, Clone, Copy, PartialEq, Eq, Structural)]
pub enum ConnectionState {
    Connecting,
    Connected,
    Disconnected,
}

/// A position in the plane.
pub type Position = (Scalar, Scalar);

/// The position of a player who has just joined: both coordinates zero.
pub open spec fn origin() -> Position {
    (Scalar { bits: 0 }, Scalar { bits: 0 })
}

/// The player that stands for a peer: the peer's id, cut to 32 bits.
pub open spec fn player_of(client: usize) -> u32 {
    client as u32
}

/// The world's table of peers after a snapshot of the connected peers has
/// come in: who is missing from the snapshot is disconnected, who is new in
/// it is connecting, and everybody else stays as they were.
pub open spec fn refreshed(
    known: Map<usize, ConnectionState>,
    present: Set<usize>,
) -> Map<usize, ConnectionState> {
    Map::new(
        |k: usize| known.contains_key(k) || present.contains(k),
        |k: usize|
            if !known.contains_key(k) {
                ConnectionState::Connecting
            } else if present.contains(k) {
                known[k]
            } else {
                ConnectionState::Disconnected
            },
    )
}

/// The peers of a table that are in a given state.
pub open spec fn in_state(
    clients: Map<usize, ConnectionState>,
    state: ConnectionState,
) -> Set<usize> {
    Set::new(|k: usize| clients.contains_key(k) && clients[k] == state)
}

/// The table after a tick: who was disconnected is forgotten, everybody else
/// is connected.
pub open spec fn settled(clients: Map<usize, ConnectionState>) -> Map<usize, ConnectionState> {
    Map::new(
        |k: usize| clients.contains_key(k) && clients[k] != ConnectionState::Disconnected,
        |k: usize| ConnectionState::Connected,
    )
}

/// Whether player `p` stands for one of the peers of `joined`.
pub open spec fn stands_for_one_of(p: u32, joined: Set<usize>) -> bool {
    exists|n: usize| joined.contains(n) && #[trigger] player_of(n) == p
}

/// The players after the peers of `joined` have each got a player at the
/// origin.
pub open spec fn with_new_players(
    players: Map<u32, Position>,
    joined: Set<usize>,
) -> Map<u32, Position> {
    Map::new(
        |p: u32| players.contains_key(p) || stands_for_one_of(p, joined),
        |p: u32|
            if stands_for_one_of(p, joined) {
                origin()
            } else {
                players[p]
            },
    )
}

/// An outbox as a sequence of recipients and what each is told.
pub open spec fn outbox_view(outbox: Seq<SignedMessage<ReliableMessage>>) -> Seq<
    (usize, ReliableMessageView),
> {
    Seq::new(outbox.len(), |i: int| (outbox[i].id, outbox[i].message@))
}

/// One message for each of `recipients`, in their order.
pub open spec fn fan_out(recipients: Seq<usize>, message: ReliableMessageView) -> Seq<
    (usize, ReliableMessageView),
> {
    Seq::new(recipients.len(), |i: int| (recipients[i], message))
}

/// For each peer that left, in turn: its decimal name in a `Disconnected`
/// notice to each of the peers that stay.
pub open spec fn leave_notices(left: Seq<usize>, current: Seq<usize>) -> Seq<
    (usize, ReliableMessageView),
>
    decreases left.len(),
{
    if left.len() == 0 {
        Seq::empty()
    } else {
        leave_notices(left.drop_last(), current) + fan_out(
            current,
            ReliableMessageView::Disconnected(decimal(left.last() as nat)),
        )
    }
}

/// For each peer that joined, in turn: `Connect` to it, then the whole world
/// to it, then its decimal name in a `Connected` notice to each of the peers
/// that were connected before.
pub open spec fn join_notices(
    joined: Seq<usize>,
    current: Seq<usize>,
    world: Map<u32, Object>,
) -> Seq<(usize, ReliableMessageView)>
    decreases joined.len(),
{
    if joined.len() == 0 {
        Seq::empty()
    } else {
        join_notices(joined.drop_last(), current, world) + seq![
            (joined.last(), ReliableMessageView::Connect),
            (joined.last(), ReliableMessageView::State(world)),
        ] + fan_out(current, ReliableMessageView::Connected(decimal(joined.last() as nat)))
    }
}

/// All that a tick sends: the notices for the peers that left, then those for
/// the peers that joined.
pub open spec fn notice_plan(
    left: Seq<usize>,
    joined: Seq<usize>,
    current: Seq<usize>,
    world: Map<u32, Object>,
) -> Seq<(usize, ReliableMessageView)> {
    leave_notices(left, current) + join_notices(joined, current, world)
}

/// That `sent` is what a tick sends on the table `table`: the notices for
/// some listing of the peers that left, of those that joined and of those
/// that stay.
pub open spec fn is_tick_outbox(
    table: Map<usize, ConnectionState>,
    world: Map<u32, Object>,
    left: Seq<usize>,
    joined: Seq<usize>,
    current: Seq<usize>,
    sent: Seq<(usize, ReliableMessageView)>,
) -> bool {
    &&& enumerates(left, in_state(table, ConnectionState::Disconnected))
    &&& enumerates(joined, in_state(table, ConnectionState::Connecting))
    &&& enumerates(current, in_state(table, ConnectionState::Connected))
    &&& sent == notice_plan(left, joined, current, world)
}

/// For each player, in turn: its position to each of `clients`.
pub open spec fn player_plan(
    players: Seq<u32>,
    clients: Seq<usize>,
    positions: Map<u32, Position>,
) -> Seq<SignedMessage<Message>>
    decreases players.len(),
{
    if players.len() == 0 {
        Seq::empty()
    } else {
        player_plan(players.drop_last(), clients, positions) + Seq::new(
            clients.len(),
            |i: int|
                SignedMessage {
                    id: clients[i],
                    message: Message::Player(players.last(), positions[players.last()]),
                },
        )
    }
}

/// The text that tells everybody of a click: who clicked, and where, each
/// coordinate as the caller has written it out.
pub open spec fn click_text_of(from: usize, x: Seq<char>, y: Seq<char>) -> Seq<char> {
    "Client "@ + decimal(from as nat) + " clicked ("@ + x + ","@ + y + ")"@
}

/// The view of an outbox after one more message.
proof fn lemma_outbox_push(
    outbox: Seq<SignedMessage<ReliableMessage>>,
    m: SignedMessage<ReliableMessage>,
)
    ensures
        outbox_view(outbox.push(m)) == outbox_view(outbox).push((m.id, m.message@)),
{
    assert(outbox_view(outbox.push(m)) =~= outbox_view(outbox).push((m.id, m.message@)));
}

/// Appends `message` for each of `recipients` to `outbox`.
fn fan_out_into(
    outbox: &mut Vec<SignedMessage<ReliableMessage>>,
    recipients: &Vec<usize>,
    message: &ReliableMessage,
)
    ensures
        outbox_view(final(outbox)@) == outbox_view(old(outbox)@) + fan_out(recipients@, message@),
{
    let ghost base = outbox_view(outbox@);
    let mut next: usize = 0;
    assert(outbox_view(outbox@) =~= base + fan_out(recipients@.take(0), message@));
    while next < recipients.len()
        invariant
            next <= recipients.len(),
            outbox_view(outbox@) == base + fan_out(recipients@.take(next as int), message@),
        decreases recipients.len() - next,
    {
        let copy = message.clone();
        let signed = SignedMessage { id: recipients[next], message: copy };
        proof {
            lemma_outbox_push(outbox@, signed);
            assert(base + fan_out(recipients@.take(next as int + 1), message@) =~= (base + fan_out(
                recipients@.take(next as int),
                message@,
            )).push((signed.id, signed.message@)));
        }
        outbox.push(signed);
        next = next + 1;
    }
}

/// The world's side of the transport.
pub struct Universe {
    state: HashMap<u32, Object>,
    players: HashMap<u32, Position>,
    connected_clients: HashMap<usize, ConnectionState>,
}

impl Universe {
    /// The objects of the world, by their ids.
    pub closed spec fn world(&self) -> Map<u32, Object> {
        self.state@
    }

    /// The positions of the players.
    pub closed spec fn players(&self) -> Map<u32, Position> {
        self.players@
    }

    /// The peers that the world knows, each with its state.
    pub closed spec fn clients(&self) -> Map<usize, ConnectionState> {
        self.connected_clients@
    }

    /// The tree that object `id` is.
    pub fn make_tree(id: u32, tree: Tree) -> (object: Object)
        ensures
            object == (Object { id, object_info: ObjectInfo::Tree(tree) }),
    {
        Object { id, object_info: ObjectInfo::Tree(tree) }
    }

    /// The world at its start: the given trees, twenty of them, numbered from
    /// 0 in the order given, without players and without peers.
    pub fn new(trees: [Tree; INITIAL_TREES]) -> (universe: Self)
        ensures
            universe.world().dom() == Set::new(|id: u32| id < INITIAL_TREES),
            universe.world().len() == INITIAL_TREES,
            forall|id: u32|
                id < INITIAL_TREES ==> universe.world()[id] == (Object {
                    id,
                    object_info: ObjectInfo::Tree(trees@[id as int]),
                }),
            universe.players() == Map::<u32, Position>::empty(),
            universe.clients() == Map::<usize, ConnectionState>::empty(),
    {
        let mut state: HashMap<u32, Object> = HashMap::new();
        let mut next: usize = 0;
        assert(state@.dom() =~= Set::new(|id: u32| id < 0));
        while next < INITIAL_TREES
            invariant
                next <= INITIAL_TREES,
                trees@.len() == INITIAL_TREES,
                state@.dom() == Set::new(|id: u32| id < next),
                state@.len() == next,
                forall|id: u32|
                    id < next ==> state@[id] == (Object {
                        id,
                        object_info: ObjectInfo::Tree(trees@[id as int]),
                    }),
            decreases INITIAL_TREES - next,
        {
            let id: u32 = next as u32;
            assert(!state@.contains_key(id));
            state.insert(id, Universe::make_tree(id, trees[next]));
            next = next + 1;
            assert(state@.dom() =~= Set::new(|id: u32| id < next));
        }
        Universe { state, players: HashMap::new(), connected_clients: HashMap::new() }
    }

    /// Takes a snapshot of the connected peers into the table of peers.
    pub fn refresh_clients(&mut self, clients: &HashSet<usize>)
        ensures
            final(self).clients() == refreshed(old(self).clients(), clients@),
            final(self).world() == old(self).world(),
            final(self).players() == old(self).players(),
    {
        let ghost before = self.connected_clients@;
        let known = key_list(&self.connected_clients);
        let mut next: usize = 0;
        while next < known.len()
            invariant
                next <= known.len(),
                enumerates(known@, before.dom()),
                self.state == old(self).state,
                self.players == old(self).players,
                self.connected_clients@.dom() == before.dom(),
                forall|k: usize| #[trigger]
                    before.contains_key(k) ==> self.connected_clients@[k] == (if !clients@.contains(
                        k,
                    ) && known@.take(next as int).contains(k) {
                        ConnectionState::Disconnected
                    } else {
                        before[k]
                    }),
            decreases known.len() - next,
        {
            let k = known[next];
            assert(known@.contains(k));
            if !clients.contains(&k) {
                self.connected_clients.insert(k, ConnectionState::Disconnected);
            }
            proof {
                lemma_prefix_grows(known@, next as int);
            }
            next = next + 1;
        }
        assert(known@.take(known.len() as int) =~= known@);
        let ghost marked = self.connected_clients@;
        assert forall|k: usize| #[trigger] before.contains_key(k) implies marked[k] == (
        if clients@.contains(k) {
            before[k]
        } else {
            ConnectionState::Disconnected
        }) by {
            assert(known@.contains(k));
        }
        let present = member_list(clients);
        let mut next: usize = 0;
        while next < present.len()
            invariant
                next <= present.len(),
                enumerates(present@, clients@),
                marked.dom() == before.dom(),
                forall|k: usize| #[trigger]
                    before.contains_key(k) ==> marked[k] == (if clients@.contains(k) {
                        before[k]
                    } else {
                        ConnectionState::Disconnected
                    }),
                self.state == old(self).state,
                self.players == old(self).players,
                forall|k: usize|
                    self.connected_clients@.contains_key(k) <==> (marked.contains_key(k)
                        || present@.take(next as int).contains(k)),
                forall|k: usize| #[trigger]
                    self.connected_clients@.contains_key(k) ==> self.connected_clients@[k] == (
                    if marked.contains_key(k) {
                        marked[k]
                    } else {
                        ConnectionState::Connecting
                    }),
            decreases present.len() - next,
        {
            let k = present[next];
            let ghost prior = self.connected_clients@;
            if !self.connected_clients.contains_key(&k) {
                self.connected_clients.insert(k, ConnectionState::Connecting);
            }
            proof {
                let grown = present@.take(next as int + 1);
                lemma_prefix_grows(present@, next as int);
                assert forall|q: usize|
                    self.connected_clients@.contains_key(q) <==> (marked.contains_key(q)
                        || grown.contains(q)) by {
                    assert(prior.contains_key(q) <==> (marked.contains_key(q) || present@.take(
                        next as int,
                    ).contains(q)));
                }
            }
            next = next + 1;
        }
        assert(present@.take(present.len() as int) =~= present@);
        assert forall|k: usize| #[trigger]
            self.connected_clients@.contains_key(k) <==> refreshed(
                before,
                clients@,
            ).contains_key(k) by {
            assert(marked.contains_key(k) <==> before.contains_key(k));
        }
    }

    /// The objects of the world, by their ids.
    pub fn objects(&self) -> (objects: &HashMap<u32, Object>)
        ensures
            objects@ == self.world(),
    {
        &self.state
    }

    /// The positions of the players.
    pub fn player_positions(&self) -> (positions: &HashMap<u32, Position>)
        ensures
            positions@ == self.players(),
    {
        &self.players
    }

    /// The peers that the world knows, each with its state.
    pub fn peer_states(&self) -> (states: &HashMap<usize, ConnectionState>)
        ensures
            states@ == self.clients(),
    {
        &self.connected_clients
    }

    /// The peers that the world knows, each of them once.
    pub fn client_ids(&self) -> (list: Vec<usize>)
        ensures
            enumerates(list@, self.clients().dom()),
    {
        key_list(&self.connected_clients)
    }

    /// The peers that are in `state`, each of them once.
    pub fn clients_in(&self, state: ConnectionState) -> (list: Vec<usize>)
        ensures
            enumerates(list@, in_state(self.clients(), state)),
    {
        let known = key_list(&self.connected_clients);
        let mut list: Vec<usize> = Vec::new();
        let mut next: usize = 0;
        while next < known.len()
            invariant
                next <= known.len(),
                enumerates(known@, self.connected_clients@.dom()),
                list@.no_duplicates(),
                forall|k: usize|
                    list@.contains(k) <==> (known@.take(next as int).contains(k)
                        && self.connected_clients@[k] == state),
            decreases known.len() - next,
        {
            let k = known[next];
            assert(known@.contains(k));
            proof {
                lemma_prefix_grows(known@, next as int);
                lemma_push_holds(list@, k);
            }
            match self.connected_clients.get(&k) {
                Some(found) => {
                    if *found == state {
                        list.push(k);
                    }
                },
                None => {},
            }
            next = next + 1;
        }
        assert(known@.take(known.len() as int) =~= known@);
        list
    }

    /// The whole world, for peer `target`.
    pub fn game_state_for(&self, target: usize) -> (signed: SignedMessage<ReliableMessage>)
        ensures
            signed.id == target,
            signed.message@ == ReliableMessageView::State(self.world()),
    {
        SignedMessage { id: target, message: ReliableMessage::State(self.state.clone()) }
    }

    /// What the world sends when the peers of `left` have gone and those of
    /// `joined` have come, while those of `current` stay.
    pub fn notices(
        &self,
        left: &Vec<usize>,
        joined: &Vec<usize>,
        current: &Vec<usize>,
    ) -> (outbox: Vec<SignedMessage<ReliableMessage>>)
        ensures
            outbox_view(outbox@) == notice_plan(left@, joined@, current@, self.world()),
    {
        let mut outbox: Vec<SignedMessage<ReliableMessage>> = Vec::new();
        let mut next: usize = 0;
        assert(outbox_view(outbox@) =~= leave_notices(left@.take(0), current@));
        while next < left.len()
            invariant
                next <= left.len(),
                outbox_view(outbox@) == leave_notices(left@.take(next as int), current@),
            decreases left.len() - next,
        {
            let message = ReliableMessage::Disconnected(decimal_text(left[next]));
            fan_out_into(&mut outbox, current, &message);
            proof {
                lemma_prefix_grows(left@, next as int);
                assert(left@.take(next as int + 1).drop_last() =~= left@.take(next as int));
            }
            next = next + 1;
        }
        assert(left@.take(left.len() as int) =~= left@);
        let ghost leave = outbox_view(outbox@);
        let mut next: usize = 0;
        assert(outbox_view(outbox@) =~= leave + join_notices(
            joined@.take(0),
            current@,
            self.state@,
        ));
        while next < joined.len()
            invariant
                next <= joined.len(),
                outbox_view(outbox@) == leave + join_notices(
                    joined@.take(next as int),
                    current@,
                    self.state@,
                ),
            decreases joined.len() - next,
        {
            let ghost before = outbox_view(outbox@);
            let newcomer = joined[next];
            let connect = SignedMessage { id: newcomer, message: ReliableMessage::Connect };
            proof {
                lemma_outbox_push(outbox@, connect);
            }
            outbox.push(connect);
            let snapshot = self.game_state_for(newcomer);
            proof {
                lemma_outbox_push(outbox@, snapshot);
            }
            outbox.push(snapshot);
            let message = ReliableMessage::Connected(decimal_text(newcomer));
            fan_out_into(&mut outbox, current, &message);
            proof {
                lemma_prefix_grows(joined@, next as int);
                assert(joined@.take(next as int + 1).drop_last() =~= joined@.take(next as int));
                let greeting = seq![
                    (newcomer, ReliableMessageView::Connect),
                    (newcomer, ReliableMessageView::State(self.state@)),
                ];
                assert(before.push((newcomer, ReliableMessageView::Connect)).push(
                    (newcomer, ReliableMessageView::State(self.state@)),
                ) =~= before + greeting);
                assert(outbox_view(outbox@) =~= leave + join_notices(
                    joined@.take(next as int + 1),
                    current@,
                    self.state@,
                ));
            }
            next = next + 1;
        }
        assert(joined@.take(joined.len() as int) =~= joined@);
        outbox
    }

    /// Gives peer `client_id` a player at the origin.
    pub fn initialize_new_client(&mut self, client_id: usize)
        ensures
            final(self).players() == old(self).players().insert(player_of(client_id), origin()),
            final(self).world() == old(self).world(),
            final(self).clients() == old(self).clients(),
    {
        let player: u32 = #[verifier::truncate]
        (client_id as u32);
        self.players.insert(player, (Scalar { bits: 0 }, Scalar { bits: 0 }));
    }

    /// One tick of the peer table. `clients` is the snapshot of the connected
    /// peers that has come in. The world takes it into its table, tells the
    /// peers that stay of those that left and of those that joined, greets
    /// each peer that joined with the whole world and gives it a player, and
    /// forgets the peers that left. The table hands the peers out in an order
    /// of its own, so the notices come in the order of some listing of each
    /// of the three groups.
    pub fn client_tick(&mut self, clients: &HashSet<usize>) -> (outbox: Vec<
        SignedMessage<ReliableMessage>,
    >)
        ensures
            final(self).world() == old(self).world(),
            final(self).clients() == settled(refreshed(old(self).clients(), clients@)),
            final(self).players() == with_new_players(
                old(self).players(),
                in_state(refreshed(old(self).clients(), clients@), ConnectionState::Connecting),
            ),
            exists|left: Seq<usize>, joined: Seq<usize>, current: Seq<usize>| #[trigger]
                is_tick_outbox(
                    refreshed(old(self).clients(), clients@),
                    old(self).world(),
                    left,
                    joined,
                    current,
                    outbox_view(outbox@),
                ),
    {
        self.refresh_clients(clients);
        let ghost table = self.connected_clients@;
        let ghost players = self.players@;
        let ghost world = self.state@;
        let left = self.clients_in(ConnectionState::Disconnected);
        let joined = self.clients_in(ConnectionState::Connecting);
        let current = self.clients_in(ConnectionState::Connected);
        let outbox = self.notices(&left, &joined, &current);
        assert(is_tick_outbox(
            table,
            self.state@,
            left@,
            joined@,
            current@,
            outbox_view(outbox@),
        ));
        self.connected_clients.clear();
        let mut next: usize = 0;
        assert(self.players@ =~= with_new_players(players, joined@.take(0).to_set()));
        while next < joined.len()
            invariant
                next <= joined.len(),
                self.state@ == world,
                forall|k: usize|
                    self.connected_clients@.contains_key(k) <==> joined@.take(next as int).contains(
                        k,
                    ),
                forall|k: usize| #[trigger]
                    self.connected_clients@.contains_key(k) ==> self.connected_clients@[k]
                        == ConnectionState::Connected,
                self.players@ == with_new_players(players, joined@.take(next as int).to_set()),
            decreases joined.len() - next,
        {
            let newcomer = joined[next];
            let ghost seated = self.players@;
            self.initialize_new_client(newcomer);
            self.connected_clients.insert(newcomer, ConnectionState::Connected);
            proof {
                lemma_prefix_grows(joined@, next as int);
                let shorter = joined@.take(next as int).to_set();
                let longer = joined@.take(next as int + 1).to_set();
                assert forall|n: usize| longer.contains(n) <==> (shorter.contains(n) || n
                    == newcomer) by {}
                assert forall|p: u32| #[trigger]
                    stands_for_one_of(p, longer) <==> (stands_for_one_of(p, shorter) || p
                        == player_of(newcomer)) by {
                    if stands_for_one_of(p, longer) {
                        let n = choose|n: usize| longer.contains(n) && #[trigger] player_of(n) == p;
                        if n != newcomer {
                            assert(shorter.contains(n));
                        }
                    }
                    if stands_for_one_of(p, shorter) {
                        let n = choose|n: usize|
                            shorter.contains(n) && #[trigger] player_of(n) == p;
                        assert(longer.contains(n));
                    }
                }
                assert(seated.insert(player_of(newcomer), origin()) =~= with_new_players(
                    players,
                    longer,
                ));
            }
            next = next + 1;
        }
        let mut next: usize = 0;
        assert(joined@.take(joined.len() as int) =~= joined@);
        while next < current.len()
            invariant
                next <= current.len(),
                enumerates(joined@, in_state(table, ConnectionState::Connecting)),
                enumerates(current@, in_state(table, ConnectionState::Connected)),
                self.state@ == world,
                self.players@ == with_new_players(
                    players,
                    in_state(table, ConnectionState::Connecting),
                ),
                forall|k: usize| #[trigger]
                    self.connected_clients@.contains_key(k) <==> (joined@.contains(k)
                        || current@.take(next as int).contains(k)),
                forall|k: usize| #[trigger]
                    self.connected_clients@.contains_key(k) ==> self.connected_clients@[k]
                        == ConnectionState::Connected,
            decreases current.len() - next,
        {
            let ghost prior = self.connected_clients@;
            let stays = current[next];
            self.connected_clients.insert(stays, ConnectionState::Connected);
            proof {
                lemma_prefix_grows(current@, next as int);
                let grown = current@.take(next as int + 1);
                assert forall|k: usize| #[trigger]
                    self.connected_clients@.contains_key(k) <==> (joined@.contains(k)
                        || grown.contains(k)) by {
                    assert(prior.contains_key(k) <==> (joined@.contains(k) || current@.take(
                        next as int,
                    ).contains(k)));
                    assert(self.connected_clients@.contains_key(k) <==> (prior.contains_key(k)
                        || k == stays));
                    assert(grown.contains(k) <==> (current@.take(next as int).contains(k) || k
                        == stays));
                }
            }
            next = next + 1;
        }
        assert(current@.take(current.len() as int) =~= current@);
        assert forall|k: usize| #[trigger]
            self.connected_clients@.contains_key(k) <==> settled(table).contains_key(k) by {
            assert(joined@.contains(k) <==> in_state(table, ConnectionState::Connecting).contains(
                k,
            ));
            assert(current@.contains(k) <==> in_state(table, ConnectionState::Connected).contains(
                k,
            ));
        }
        outbox
    }

    /// The place of a click, where `message` is one.
    pub fn click_of(message: &Message) -> (place: Option<Position>)
        ensures
            place == (match *message {
                Message::Position(x, y) => Some((x, y)),
                _ => None,
            }),
    {
        match message {
            Message::Position(x, y) => Some((*x, *y)),
            _ => None,
        }
    }

    /// The text that tells of a click of peer `from` at `(x, y)`, each
    /// coordinate as the caller has written it out.
    pub fn click_text(from: usize, x: &str, y: &str) -> (text: String)
        ensures
            text@ == click_text_of(from, x@, y@),
    {
        let name = decimal_text(from);
        String::from_str("Client ").concat(name.as_str()).concat(" clicked (").concat(x).concat(
            ",",
        ).concat(y).concat(")")
    }

    /// `text` for every peer that the world knows, whatever its state.
    pub fn announce(&self, text: &str) -> (outbox: Vec<SignedMessage<ReliableMessage>>)
        ensures
            exists|recipients: Seq<usize>|
                #[trigger] enumerates(recipients, self.clients().dom()) && outbox_view(outbox@)
                    == fan_out(recipients, ReliableMessageView::Text(text@)),
    {
        let recipients = key_list(&self.connected_clients);
        let message = ReliableMessage::Text(String::from_str(text));
        let mut outbox: Vec<SignedMessage<ReliableMessage>> = Vec::new();
        fan_out_into(&mut outbox, &recipients, &message);
        assert(enumerates(recipients@, self.clients().dom()) && outbox_view(outbox@) == fan_out(
            recipients@,
            ReliableMessageView::Text(text@),
        ));
        outbox
    }

    /// The position of every player for every peer that the world knows: for
    /// each player of some listing, in turn, one message to each peer of some
    /// listing.
    pub fn player_updates(&self) -> (outbox: Vec<SignedMessage<Message>>)
        ensures
            exists|players: Seq<u32>, recipients: Seq<usize>|
                enumerates(players, self.players().dom()) && enumerates(
                    recipients,
                    self.clients().dom(),
                ) && outbox@ == #[trigger] player_plan(players, recipients, self.players()),
    {
        let players = key_list(&self.players);
        let recipients = key_list(&self.connected_clients);
        let mut outbox: Vec<SignedMessage<Message>> = Vec::new();
        let mut next: usize = 0;
        assert(outbox@ =~= player_plan(players@.take(0), recipients@, self.players@));
        while next < players.len()
            invariant
                next <= players.len(),
                enumerates(players@, self.players@.dom()),
                outbox@ == player_plan(players@.take(next as int), recipients@, self.players@),
            decreases players.len() - next,
        {
            let player = players[next];
            assert(players@.contains(player));
            let position = *self.players.get(&player).unwrap();
            let ghost base = outbox@;
            let mut to: usize = 0;
            while to < recipients.len()
                invariant
                    to <= recipients.len(),
                    outbox@ == base + Seq::new(
                        to as nat,
                        |i: int|
                            SignedMessage {
                                id: recipients@[i],
                                message: Message::Player(player, position),
                            },
                    ),
                decreases recipients.len() - to,
            {
                outbox.push(
                    SignedMessage { id: recipients[to], message: Message::Player(player, position) },
                );
                to = to + 1;
                assert(outbox@ =~= base + Seq::new(
                    to as nat,
                    |i: int|
                        SignedMessage {
                            id: recipients@[i],
                            message: Message::Player(player, position),
                        },
                ));
            }
            proof {
                lemma_prefix_grows(players@, next as int);
                assert(players@.take(next as int + 1).drop_last() =~= players@.take(next as int));
                assert(outbox@ =~= player_plan(
                    players@.take(next as int + 1),
                    recipients@,
                    self.players@,
                ));
            }
            next = next + 1;
        }
        assert(players@.take(players.len() as int) =~= players@);
        assert(enumerates(players@, self.players().dom()) && enumerates(
            recipients@,
            self.clients().dom(),
        ) && outbox@ == player_plan(players@, recipients@, self.players()));
        outbox
    }
}

} // verus!
