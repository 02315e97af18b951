use vstd::prelude::*;

use crate::game::{Card, CardV, EndStatus, EndStatusV, GameStatistics, Player, PlayerId, card_matches};
use crate::packets::{PacketType, PacketV, pairs_view};

verus! {

/// Where the session stands in its lifecycle. `Unregistered`, `Registered`,
/// `Active` and `Ended` are the connected phases; `Ended` is terminal until a
/// fresh connection is made.
#[derive(Clone, Copy, PartialEq, Eq, Debug, Structural)]
pub enum Phase {
    Idle,
    Connecting,
    Unregistered,
    Registered,
    Active,
    Ended,
    Disconnected,
}

/// The connected phases: a socket is open and server events can arrive.
pub open spec fn is_connected(p: Phase) -> bool {
    p == Phase::Unregistered || p == Phase::Registered || p == Phase::Active || p == Phase::Ended
}

/// One entry of the notification log shown as chat.
#[derive(Clone, PartialEq, Eq, Debug)]
pub enum ServerMessage {
    /// a participant joined
    Join(String),
    /// a participant left
    Leave(String),
    /// sender, content
    Message(String, String),
    /// an error body, from the server or raised locally
    Error(String),
}

/// The mathematical value of a `ServerMessage`.
pub enum MessageV {
    Join(Seq<char>),
    Leave(Seq<char>),
    Message(Seq<char>, Seq<char>),
    Error(Seq<char>),
}

impl View for ServerMessage {
    type V = MessageV;

    open spec fn view(&self) -> MessageV {
        match self {
            ServerMessage::Join(u) => MessageV::Join(u@),
            ServerMessage::Leave(u) => MessageV::Leave(u@),
            ServerMessage::Message(s, c) => MessageV::Message(s@, c@),
            ServerMessage::Error(b) => MessageV::Error(b@),
        }
    }
}

impl DeepView for ServerMessage {
    type V = MessageV;

    open spec fn deep_view(&self) -> MessageV {
        self.view()
    }
}

/// One inbound signal: a gateway lifecycle notice, a decoded server event, or
/// a local user intent. The synchronizer consumes exactly one per reduction.
#[derive(Clone, Debug)]
pub enum Msg {
    /// user intent: open the gateway to the stored room
    Connect,
    /// gateway signal: the socket is open
    Connected,
    /// gateway signal: the socket closed or failed
    Disconnected,
    /// user input: remember the username to register under
    UsernameInput(String),
    /// user input: remember the room identifier
    RoomIDInput(String),
    /// user intent: announce the stored username to the server
    Register,
    /// user intent: ask the server to start the game
    StartGame,
    /// a decoded server event
    Received(PacketType),
    /// a frame that would not decode; the body describes it
    DecodeFailed(String),
    /// user intent: play the first card of the hand showing this face
    PlaceCard(Card),
    /// user intent: draw one card
    DrawCard,
    /// user intent: end the turn
    EndTurn,
    /// user intent: choose a color after playing a wild card
    SwitchColor(String),
    /// a locally raised error to surface in the log
    Error(String),
}

/// The mathematical value of a `Msg`.
pub enum MsgV {
    Connect,
    Connected,
    Disconnected,
    UsernameInput(Seq<char>),
    RoomIDInput(Seq<char>),
    Register,
    StartGame,
    Received(PacketV),
    DecodeFailed(Seq<char>),
    PlaceCard(CardV),
    DrawCard,
    EndTurn,
    SwitchColor(Seq<char>),
    Error(Seq<char>),
}

impl View for Msg {
    type V = MsgV;

    open spec fn view(&self) -> MsgV {
        match self {
            Msg::Connect => MsgV::Connect,
            Msg::Connected => MsgV::Connected,
            Msg::Disconnected => MsgV::Disconnected,
            Msg::UsernameInput(u) => MsgV::UsernameInput(u@),
            Msg::RoomIDInput(r) => MsgV::RoomIDInput(r@),
            Msg::Register => MsgV::Register,
            Msg::StartGame => MsgV::StartGame,
            Msg::Received(p) => MsgV::Received(p@),
            Msg::DecodeFailed(b) => MsgV::DecodeFailed(b@),
            Msg::PlaceCard(c) => MsgV::PlaceCard(c@),
            Msg::DrawCard => MsgV::DrawCard,
            Msg::EndTurn => MsgV::EndTurn,
            Msg::SwitchColor(c) => MsgV::SwitchColor(c@),
            Msg::Error(b) => MsgV::Error(b@),
        }
    }
}

/// What a reduction asks the gateway to do: open the socket to a room, or
/// encode and send one packet. The synchronizer never touches the socket.
#[derive(Clone, PartialEq, Eq, Debug)]
pub enum Action {
    Open(String),
    Send(PacketType),
}

/// The mathematical value of an `Action`.
pub enum ActionV {
    Open(Seq<char>),
    Send(PacketV),
}

impl View for Action {
    type V = ActionV;

    open spec fn view(&self) -> ActionV {
        match self {
            Action::Open(r) => ActionV::Open(r@),
            Action::Send(p) => ActionV::Send(p@),
        }
    }
}

/// One roster entry together with the id it is keyed under.
#[verifier::ext_equal]
pub struct EntryV {
    pub id: PlayerId,
    pub username: Seq<char>,
    pub card_count: usize,
    pub index: usize,
    pub turn: bool,
    pub next: bool,
}

/// The mathematical value of one roster pair.
pub open spec fn entry_view(e: (PlayerId, Player)) -> EntryV {
    EntryV {
        id: e.0,
        username: e.1.username@,
        card_count: e.1.card_count,
        index: e.1.index,
        turn: e.1.turn,
        next: e.1.next,
    }
}

/// The mathematical value of the whole roster.
pub open spec fn roster_view(r: Seq<(PlayerId, Player)>) -> Seq<EntryV> {
    r.map_values(|e: (PlayerId, Player)| entry_view(e))
}

/// The synchronizer's whole state, reconstructed from the event stream alone.
pub struct Session {
    /// lifecycle phase
    pub phase: Phase,
    /// the username the local player registers under
    pub username: Option<String>,
    /// the room the gateway is asked to open
    pub room_id: Option<String>,
    /// whether the server granted host privileges
    pub host: bool,
    /// whether it is the local player's turn
    pub turn: bool,
    /// whether the local player is announced as next
    pub next: bool,
    /// whether a wild card was played and a color must be chosen
    pub selecting: bool,
    /// the append-only notification log
    pub chat: Vec<ServerMessage>,
    /// the opposing participants, keyed by id; never holds the local player
    pub connections: Vec<(PlayerId, Player)>,
    /// the running participant counter that seeds seat indices
    pub connection_count: usize,
    /// the local player's cards, replaced wholesale by the server
    pub cards: Vec<Card>,
    /// the subset of the hand the server declared legal this turn
    pub allowed_cards: Vec<Card>,
    /// the card on top of the discard pile
    pub current: Option<Card>,
    /// the final standing, set once when the game ends
    pub end_status: Option<EndStatus>,
}

/// The mathematical value of a `Session`.
#[verifier::ext_equal]
pub struct SessionV {
    pub phase: Phase,
    pub username: Option<Seq<char>>,
    pub room_id: Option<Seq<char>>,
    pub host: bool,
    pub turn: bool,
    pub next: bool,
    pub selecting: bool,
    pub chat: Seq<MessageV>,
    pub roster: Seq<EntryV>,
    pub connection_count: usize,
    pub hand: Seq<CardV>,
    pub allowed: Seq<CardV>,
    pub current: Option<CardV>,
    pub end_status: Option<EndStatusV>,
}

impl View for Session {
    type V = SessionV;

    open spec fn view(&self) -> SessionV {
        SessionV {
            phase: self.phase,
            username: self.username.deep_view(),
            room_id: self.room_id.deep_view(),
            host: self.host,
            turn: self.turn,
            next: self.next,
            selecting: self.selecting,
            chat: self.chat.deep_view(),
            roster: roster_view(self.connections@),
            connection_count: self.connection_count,
            hand: self.cards.deep_view(),
            allowed: self.allowed_cards.deep_view(),
            current: self.current.deep_view(),
            end_status: self.end_status.deep_view(),
        }
    }
}

/// The state a fresh synchronizer starts in: nothing known, counter seeded at
/// one for the local player.
pub open spec fn init_session() -> SessionV {
    SessionV {
        phase: Phase::Idle,
        username: None,
        room_id: None,
        host: false,
        turn: false,
        next: false,
        selecting: false,
        chat: Seq::empty(),
        roster: Seq::empty(),
        connection_count: 1,
        hand: Seq::empty(),
        allowed: Seq::empty(),
        current: None,
        end_status: None,
    }
}

// ---------------------------------------------------------------------------
// Spec-level helpers over the roster, the hand and the allowed set.
// ---------------------------------------------------------------------------

/// Whether some roster entry is keyed under `id`.
pub open spec fn roster_has(r: Seq<EntryV>, id: PlayerId) -> bool {
    exists|i: int| 0 <= i < r.len() && r[i].id == id
}

/// The participant counter moves by one and stops at the ends of `usize`
/// rather than wrap: a session never has that many participants, and the
/// reducer must stay total.
pub open spec fn sat_inc(n: usize) -> usize {
    if n == usize::MAX {
        n
    } else {
        (n + 1) as usize
    }
}

/// See `sat_inc`.
pub open spec fn sat_dec(n: usize) -> usize {
    if n == 0 {
        n
    } else {
        (n - 1) as usize
    }
}

/// Whether the hand holds a card of the same face as `c`.
pub open spec fn hand_has_match(hand: Seq<CardV>, c: CardV) -> bool {
    exists|i: int| 0 <= i < hand.len() && card_matches(hand[i], c)
}

/// The position of the first card of the hand showing the same face as `c`.
/// Two structurally equal cards can share a hand, so placing by value is
/// ambiguous; the first match is the documented tie-break. Meaningful only
/// when `hand_has_match(hand, c)` holds.
pub open spec fn first_match_index(hand: Seq<CardV>, c: CardV) -> int
    decreases hand.len(),
{
    if hand.len() == 0 {
        0
    } else if card_matches(hand[0], c) {
        0
    } else {
        1 + first_match_index(hand.skip(1), c)
    }
}

/// The cards of `cards`, in order, whose face also appears in `hand`: how an
/// incoming allowed set is matched by value against the hand.
pub open spec fn filter_to_hand(cards: Seq<CardV>, hand: Seq<CardV>) -> Seq<CardV>
    decreases cards.len(),
{
    if cards.len() == 0 {
        Seq::empty()
    } else {
        let pre = filter_to_hand(cards.drop_last(), hand);
        if hand_has_match(hand, cards.last()) {
            pre.push(cards.last())
        } else {
            pre
        }
    }
}

/// The roster without the entries keyed under `id`. Remaining seat indices
/// are untouched: a seat is assigned once and stays for the entry's lifetime.
pub open spec fn roster_remove(r: Seq<EntryV>, id: PlayerId) -> Seq<EntryV>
    decreases r.len(),
{
    if r.len() == 0 {
        Seq::empty()
    } else {
        let pre = roster_remove(r.drop_last(), id);
        if r.last().id == id {
            pre
        } else {
            pre.push(r.last())
        }
    }
}

/// A fresh roster entry as a join or a snapshot inserts it.
pub open spec fn fresh_entry(id: PlayerId, name: Seq<char>, card_count: usize, seat: usize) -> EntryV {
    EntryV { id, username: name, card_count, index: seat, turn: false, next: false }
}

/// The roster after an initial snapshot: every listed participant other than
/// the local player is inserted if absent, with seats handed out from `seat`
/// upward in list order. Present entries are left whole, so a repeated
/// snapshot changes nothing.
pub open spec fn roster_snapshot(
    r: Seq<EntryV>,
    list: Seq<(PlayerId, Seq<char>)>,
    self_id: PlayerId,
    seat: usize,
) -> Seq<EntryV>
    decreases list.len(),
{
    if list.len() == 0 {
        r
    } else {
        let id = list[0].0;
        let name = list[0].1;
        if id != self_id && !roster_has(r, id) {
            roster_snapshot(
                r.push(fresh_entry(id, name, 0, seat)),
                list.skip(1),
                self_id,
                sat_inc(seat),
            )
        } else {
            roster_snapshot(r, list.skip(1), self_id, seat)
        }
    }
}

/// Turn flags recomputed wholesale: an entry holds the turn iff it is the
/// announced current participant, and is next iff it is the announced next.
/// One entry with its flags recomputed against the announced ids.
pub open spec fn flagged_entry(e: EntryV, current: PlayerId, next: PlayerId) -> EntryV {
    EntryV {
        id: e.id,
        username: e.username,
        card_count: e.card_count,
        index: e.index,
        turn: e.id == current,
        next: e.id == next,
    }
}

pub open spec fn roster_turn_flags(r: Seq<EntryV>, current: PlayerId, next: PlayerId) -> Seq<
    EntryV,
> {
    Seq::new(r.len(), |j: int| flagged_entry(r[j], current, next))
}

/// All roster turn flags lowered: the local player was granted the turn, and
/// the turn is exclusive.
/// One entry with its turn flag lowered.
pub open spec fn unflagged_entry(e: EntryV) -> EntryV {
    EntryV {
        id: e.id,
        username: e.username,
        card_count: e.card_count,
        index: e.index,
        turn: false,
        next: e.next,
    }
}

pub open spec fn roster_clear_turn(r: Seq<EntryV>) -> Seq<EntryV> {
    Seq::new(r.len(), |j: int| unflagged_entry(r[j]))
}

/// The entry keyed under `id` with its card count overwritten; other entries
/// are left whole.
/// One entry with its card count overwritten when it is the named one.
pub open spec fn counted_entry(e: EntryV, id: PlayerId, n: usize) -> EntryV {
    EntryV {
        id: e.id,
        username: e.username,
        card_count: if e.id == id {
            n
        } else {
            e.card_count
        },
        index: e.index,
        turn: e.turn,
        next: e.next,
    }
}

pub open spec fn roster_set_count(r: Seq<EntryV>, id: PlayerId, n: usize) -> Seq<EntryV> {
    Seq::new(r.len(), |j: int| counted_entry(r[j], id, n))
}

/// The card kinds whose play must be followed by a color selection: the
/// color-changing kinds and the draw-four-equivalent kinds.
pub open spec fn is_wild_kind(kind: Seq<char>) -> bool {
    kind == "Switch"@ || kind == "Wild"@ || kind == "DrawFour"@ || kind == "WildDrawFour"@
}

/// The body under which a server error doubles as a host-privilege grant.
pub open spec fn host_sentinel() -> Seq<char> {
    "you are the host"@
}

/// The note surfaced when a place intent names a face the hand does not hold.
pub open spec fn no_match_note() -> Seq<char> {
    "no matching card in hand"@
}

// ---------------------------------------------------------------------------
// The transition function, one spec function per event rule.
// ---------------------------------------------------------------------------

/// Everything a session learned is dropped; only the entered identity
/// survives, ready for a fresh connection.
pub open spec fn clear_session(s: SessionV, p: Phase) -> SessionV {
    SessionV { phase: p, username: s.username, room_id: s.room_id, ..init_session() }
}

/// A connect intent is honoured in the phases with no live socket, and only
/// with a non-empty room identifier to open.
pub open spec fn can_connect(s: SessionV) -> bool {
    &&& s.phase == Phase::Idle || s.phase == Phase::Disconnected
    &&& match s.room_id {
        Some(r) => r.len() > 0,
        None => false,
    }
}

/// Status events mark the game as running once registration is behind us.
pub open spec fn promote_active(p: Phase) -> Phase {
    if p == Phase::Unregistered || p == Phase::Registered {
        Phase::Active
    } else {
        p
    }
}

/// The initial roster snapshot; also the server-confirmed registration.
pub open spec fn sv_game_data(
    s: SessionV,
    self_id: PlayerId,
    list: Seq<(PlayerId, Seq<char>)>,
) -> SessionV {
    SessionV {
        phase: if s.phase == Phase::Unregistered {
            Phase::Registered
        } else {
            s.phase
        },
        roster: roster_snapshot(s.roster, list, self_id, s.connection_count),
        ..s
    }
}

/// A participant joined: count it, log it, insert it if absent with the seat
/// the counter now stands at.
pub open spec fn sv_join(s: SessionV, id: PlayerId, name: Seq<char>) -> SessionV {
    let cc = sat_inc(s.connection_count);
    SessionV {
        connection_count: cc,
        chat: s.chat.push(MessageV::Join(name)),
        roster: if roster_has(s.roster, id) {
            s.roster
        } else {
            s.roster.push(fresh_entry(id, name, 0, cc))
        },
        ..s
    }
}

/// A participant left: count it, log it, drop its entry. Remaining seat
/// indices are not renumbered.
pub open spec fn sv_leave(s: SessionV, id: PlayerId, name: Seq<char>) -> SessionV {
    SessionV {
        connection_count: sat_dec(s.connection_count),
        chat: s.chat.push(MessageV::Leave(name)),
        roster: roster_remove(s.roster, id),
        ..s
    }
}

/// A chat message is logged and changes nothing else.
pub open spec fn sv_message(s: SessionV, sender: Seq<char>, content: Seq<char>) -> SessionV {
    SessionV { chat: s.chat.push(MessageV::Message(sender, content)), ..s }
}

/// A server-reported error is logged; the recognized sentinel body doubles as
/// the host-privilege grant.
pub open spec fn sv_error(s: SessionV, body: Seq<char>) -> SessionV {
    SessionV {
        host: s.host || body == host_sentinel(),
        chat: s.chat.push(MessageV::Error(body)),
        ..s
    }
}

/// A public status update: the named participant's card count is overwritten
/// (the entry is inserted first if the server speaks of a stranger), the
/// discard is overwritten, and the game counts as running.
pub open spec fn sv_status_public(
    s: SessionV,
    id: PlayerId,
    name: Seq<char>,
    count: usize,
    card: CardV,
) -> SessionV {
    let known = roster_has(s.roster, id);
    SessionV {
        phase: promote_active(s.phase),
        roster: if known {
            roster_set_count(s.roster, id, count)
        } else {
            s.roster.push(fresh_entry(id, name, count, sat_inc(s.connection_count)))
        },
        connection_count: if known {
            s.connection_count
        } else {
            sat_inc(s.connection_count)
        },
        current: Some(card),
        ..s
    }
}

/// A private status update: the hand is replaced wholesale, the allowed set
/// is re-matched against the new hand so it never names a card the hand lost,
/// the discard is overwritten, and the game counts as running.
pub open spec fn sv_status_private(s: SessionV, hand: Seq<CardV>, card: CardV) -> SessionV {
    SessionV {
        phase: promote_active(s.phase),
        hand: hand,
        allowed: filter_to_hand(s.allowed, hand),
        current: Some(card),
        ..s
    }
}

/// An allowed-moves update: the allowed set is replaced wholesale, matched by
/// value against the hand. This is the sole grant of the local turn, so every
/// roster turn flag is lowered to keep the turn exclusive.
pub open spec fn sv_allowed(s: SessionV, cards: Seq<CardV>) -> SessionV {
    SessionV {
        allowed: filter_to_hand(cards, s.hand),
        turn: true,
        roster: roster_clear_turn(s.roster),
        ..s
    }
}

/// An end-turn event revokes legality: nothing may be played and the local
/// turn is over.
pub open spec fn sv_end_turn(s: SessionV) -> SessionV {
    SessionV { allowed: Seq::empty(), turn: false, ..s }
}

/// A turn update recomputes every flag wholesale. The local player is next
/// iff the announced next id is no known opponent: the local id is the one id
/// deliberately absent from the roster. An announced opponent turn withdraws
/// the local turn; the local turn itself is only ever granted by an
/// allowed-moves update.
pub open spec fn sv_turn_update(s: SessionV, current: PlayerId, next: PlayerId) -> SessionV {
    SessionV {
        roster: roster_turn_flags(s.roster, current, next),
        next: !roster_has(s.roster, next),
        turn: if roster_has(s.roster, current) {
            false
        } else {
            s.turn
        },
        ..s
    }
}

/// A win update stores the final standing once and ends the session.
pub open spec fn sv_win(
    s: SessionV,
    id: PlayerId,
    name: Seq<char>,
    placements: Seq<Seq<char>>,
    stats: GameStatistics,
) -> SessionV {
    SessionV {
        phase: Phase::Ended,
        end_status: Some(
            EndStatusV { winner_id: id, winner: name, placements, statistics: stats },
        ),
        ..s
    }
}

/// A place intent: honoured only with no color selection pending. The first
/// hand card of the given face is the one played; a wild face leaves the
/// session waiting for a color. A face the hand does not hold is a local
/// protocol violation: nothing changes but a logged note.
pub open spec fn sv_place(s: SessionV, c: CardV) -> SessionV {
    if !is_connected(s.phase) || s.selecting {
        s
    } else if hand_has_match(s.hand, c) {
        SessionV { selecting: is_wild_kind(c.kind), ..s }
    } else {
        SessionV { chat: s.chat.push(MessageV::Error(no_match_note())), ..s }
    }
}

/// One decoded server event applied to the state. Events can only arrive in
/// the connected phases. In the terminal phase the log still fills and an
/// end-turn may still revoke legality, but the roster, the hand and the
/// stored standing are frozen until a fresh connection.
pub open spec fn step_packet(s: SessionV, p: PacketV) -> SessionV {
    if !is_connected(s.phase) {
        s
    } else {
        let ended = s.phase == Phase::Ended;
        match p {
            PacketV::Register(_) => s,
            PacketV::StartGame(_) => s,
            PacketV::DrawCard(_) => s,
            PacketV::PlaceCard(_) => s,
            PacketV::ColorSwitch(_) => s,
            PacketV::GameData(self_id, _self_name, list) => if ended {
                s
            } else {
                sv_game_data(s, self_id, list)
            },
            PacketV::Connect(id, name) => if ended {
                s
            } else {
                sv_join(s, id, name)
            },
            PacketV::Disconnect(id, name) => if ended {
                s
            } else {
                sv_leave(s, id, name)
            },
            PacketV::Message(sender, content) => sv_message(s, sender, content),
            PacketV::Error(_code, body) => sv_error(s, body),
            PacketV::StatusUpdatePublic(id, name, count, card) => if ended {
                s
            } else {
                sv_status_public(s, id, name, count, card)
            },
            PacketV::StatusUpdatePrivate(hand, card) => if ended {
                s
            } else {
                sv_status_private(s, hand, card)
            },
            PacketV::AllowedCardsUpdate(cards) => if ended {
                s
            } else {
                sv_allowed(s, cards)
            },
            PacketV::EndTurn => sv_end_turn(s),
            PacketV::TurnUpdate(current, next) => if ended {
                s
            } else {
                sv_turn_update(s, current, next)
            },
            PacketV::WinUpdate(id, name, placements, stats) => if ended {
                s
            } else {
                sv_win(s, id, name, placements, stats)
            },
        }
    }
}

/// The whole reducer on states: one inbound signal, the next state.
pub open spec fn step(s: SessionV, m: MsgV) -> SessionV {
    match m {
        MsgV::Connect => if can_connect(s) {
            SessionV { phase: Phase::Connecting, ..s }
        } else {
            s
        },
        MsgV::Connected => if s.phase == Phase::Connecting {
            SessionV { phase: Phase::Unregistered, ..s }
        } else {
            s
        },
        MsgV::Disconnected => clear_session(s, Phase::Disconnected),
        MsgV::UsernameInput(u) => SessionV { username: Some(u), ..s },
        MsgV::RoomIDInput(r) => SessionV { room_id: Some(r), ..s },
        MsgV::Register => s,
        MsgV::StartGame => s,
        MsgV::Received(p) => step_packet(s, p),
        MsgV::DecodeFailed(b) => SessionV { chat: s.chat.push(MessageV::Error(b)), ..s },
        MsgV::PlaceCard(c) => sv_place(s, c),
        MsgV::DrawCard => s,
        MsgV::EndTurn => s,
        MsgV::SwitchColor(_c) => if is_connected(s.phase) {
            SessionV { selecting: false, ..s }
        } else {
            s
        },
        MsgV::Error(b) => SessionV { chat: s.chat.push(MessageV::Error(b)), ..s },
    }
}

/// The username an outbound registration announces: the entered one, or the
/// placeholder when none was entered.
pub open spec fn register_name(s: SessionV) -> Seq<char> {
    match s.username {
        Some(u) => u,
        None => "player"@,
    }
}

/// The whole reducer on effects: one inbound signal, the requests handed to
/// the gateway. Intents are honoured only while a socket is open (or, for a
/// connect intent, can be opened); everything else emits nothing.
pub open spec fn emits(s: SessionV, m: MsgV) -> Seq<ActionV> {
    match m {
        MsgV::Connect => if can_connect(s) {
            seq![ActionV::Open(match s.room_id {
                Some(r) => r,
                None => Seq::empty(),
            })]
        } else {
            Seq::empty()
        },
        MsgV::Register => if is_connected(s.phase) {
            seq![ActionV::Send(PacketV::Register(register_name(s)))]
        } else {
            Seq::empty()
        },
        MsgV::StartGame => if is_connected(s.phase) {
            seq![ActionV::Send(PacketV::StartGame("None"@))]
        } else {
            Seq::empty()
        },
        MsgV::PlaceCard(c) => if is_connected(s.phase) && !s.selecting && hand_has_match(
            s.hand,
            c,
        ) {
            seq![ActionV::Send(PacketV::PlaceCard(first_match_index(s.hand, c) as usize))]
        } else {
            Seq::empty()
        },
        MsgV::DrawCard => if is_connected(s.phase) {
            seq![ActionV::Send(PacketV::DrawCard(1))]
        } else {
            Seq::empty()
        },
        MsgV::EndTurn => if is_connected(s.phase) {
            seq![ActionV::Send(PacketV::EndTurn)]
        } else {
            Seq::empty()
        },
        MsgV::SwitchColor(c) => if is_connected(s.phase) {
            seq![ActionV::Send(PacketV::ColorSwitch(c))]
        } else {
            Seq::empty()
        },
        _ => Seq::empty(),
    }
}

// ---------------------------------------------------------------------------
// Executable helpers, each tied to its spec-level counterpart.
// ---------------------------------------------------------------------------

/// `sat_inc`, executably.
fn bump(n: usize) -> (r: usize)
    ensures
        r == sat_inc(n),
{
    if n == usize::MAX {
        n
    } else {
        n + 1
    }
}

/// `sat_dec`, executably.
fn drop_one(n: usize) -> (r: usize)
    ensures
        r == sat_dec(n),
{
    if n == 0 {
        0
    } else {
        n - 1
    }
}

/// A copy of a roster entry with the same value.
fn clone_player(p: &Player) -> (r: Player)
    ensures
        r@ == p@,
{
    Player {
        username: p.username.clone(),
        card_count: p.card_count,
        index: p.index,
        turn: p.turn,
        next: p.next,
    }
}

/// Whether the roster holds an entry keyed under `id`.
fn roster_contains(r: &Vec<(PlayerId, Player)>, id: PlayerId) -> (b: bool)
    ensures
        b == roster_has(roster_view(r@), id),
{
    let mut i: usize = 0;
    while i < r.len()
        invariant
            i <= r@.len(),
            forall|j: int| 0 <= j < i ==> roster_view(r@)[j].id != id,
        decreases r@.len() - i,
    {
        if r[i].0 == id {
            proof {
                assert(roster_view(r@)[i as int].id == id);
            }
            return true;
        }
        proof {
            assert(roster_view(r@)[i as int].id == r@[i as int].0);
        }
        i += 1;
    }
    false
}

/// Whether the hand holds a card showing the same face as `c`.
fn hand_contains(hand: &Vec<Card>, c: &Card) -> (b: bool)
    ensures
        b == hand_has_match(hand.deep_view(), c@),
{
    let mut i: usize = 0;
    while i < hand.len()
        invariant
            i <= hand@.len(),
            forall|j: int| 0 <= j < i ==> !card_matches(hand.deep_view()[j], c@),
        decreases hand@.len() - i,
    {
        if crate::game::cards_match(&hand[i], c) {
            proof {
                assert(card_matches(hand.deep_view()[i as int], c@));
            }
            return true;
        }
        i += 1;
    }
    false
}

/// The first match wins: a prefix free of matches pins `first_match_index`.
proof fn lemma_first_match_at(hand: Seq<CardV>, c: CardV, i: int)
    requires
        0 <= i < hand.len(),
        card_matches(hand[i], c),
        forall|j: int| 0 <= j < i ==> !card_matches(hand[j], c),
    ensures
        first_match_index(hand, c) == i,
    decreases i,
{
    if i == 0 {
    } else {
        lemma_first_match_at(hand.skip(1), c, i - 1);
    }
}

/// The position of the first card of the hand showing the face of `c`, if any.
fn find_first_match(hand: &Vec<Card>, c: &Card) -> (r: Option<usize>)
    ensures
        match r {
            Some(i) => hand_has_match(hand.deep_view(), c@) && i == first_match_index(
                hand.deep_view(),
                c@,
            ),
            None => !hand_has_match(hand.deep_view(), c@),
        },
{
    let mut i: usize = 0;
    while i < hand.len()
        invariant
            i <= hand@.len(),
            forall|j: int| 0 <= j < i ==> !card_matches(hand.deep_view()[j], c@),
        decreases hand@.len() - i,
    {
        if crate::game::cards_match(&hand[i], c) {
            proof {
                assert(card_matches(hand.deep_view()[i as int], c@));
                lemma_first_match_at(hand.deep_view(), c@, i as int);
            }
            return Some(i);
        }
        i += 1;
    }
    None
}

/// Whether the phase has a live socket.
fn phase_connected(p: Phase) -> (b: bool)
    ensures
        b == is_connected(p),
{
    p == Phase::Unregistered || p == Phase::Registered || p == Phase::Active || p == Phase::Ended
}

/// Whether playing this card demands a follow-up color selection.
fn is_wild(c: &Card) -> (b: bool)
    ensures
        b == is_wild_kind(c@.kind),
{
    let switch = String::from_str("Switch");
    let wild = String::from_str("Wild");
    let draw_four = String::from_str("DrawFour");
    let wild_draw_four = String::from_str("WildDrawFour");
    c.kind == switch || c.kind == wild || c.kind == draw_four || c.kind == wild_draw_four
}

/// The cards of `cards` whose face also appears in `hand`, in order.
fn filter_matching(cards: &Vec<Card>, hand: &Vec<Card>) -> (r: Vec<Card>)
    ensures
        r.deep_view() == filter_to_hand(cards.deep_view(), hand.deep_view()),
{
    let ghost cv = cards.deep_view();
    let mut r: Vec<Card> = Vec::new();
    let mut i: usize = 0;
    proof {
        assert(r.deep_view() =~= filter_to_hand(cv.take(0), hand.deep_view()));
    }
    while i < cards.len()
        invariant
            i <= cards@.len(),
            cv == cards.deep_view(),
            r.deep_view() == filter_to_hand(cv.take(i as int), hand.deep_view()),
        decreases cards@.len() - i,
    {
        proof {
            assert(cv.take(i + 1).drop_last() =~= cv.take(i as int));
            assert(cv.take(i + 1).last() == cv[i as int]);
        }
        if hand_contains(hand, &cards[i]) {
            let c = crate::game::clone_card(&cards[i]);
            r.push(c);
            proof {
                assert(r.deep_view() =~= filter_to_hand(cv.take(i + 1), hand.deep_view()));
            }
        } else {
            proof {
                assert(r.deep_view() =~= filter_to_hand(cv.take(i + 1), hand.deep_view()));
            }
        }
        i += 1;
    }
    proof {
        assert(cv.take(cards@.len() as int) =~= cv);
    }
    r
}

impl Session {
    /// A synchronizer for a session not yet connected.
    pub fn new() -> (s: Session)
        ensures
            s@ == init_session(),
    {
        let s = Session {
            phase: Phase::Idle,
            username: None,
            room_id: None,
            host: false,
            turn: false,
            next: false,
            selecting: false,
            chat: Vec::new(),
            connections: Vec::new(),
            connection_count: 1,
            cards: Vec::new(),
            allowed_cards: Vec::new(),
            current: None,
            end_status: None,
        };
        proof {
            assert(s@ =~~= init_session());
        }
        s
    }

    /// A chat message is logged, nothing else moves.
    fn on_message(&mut self, sender: String, content: String)
        ensures
            final(self)@ == sv_message(old(self)@, sender@, content@),
    {
        self.chat.push(ServerMessage::Message(sender, content));
        proof {
            assert(self@.chat =~= old(self)@.chat.push(
                MessageV::Message(sender@, content@),
            ));
            assert(self@ =~~= sv_message(old(self)@, sender@, content@));
        }
    }

    /// A server-reported error is logged; the sentinel body grants host
    /// privileges on the side.
    fn on_error(&mut self, body: String)
        ensures
            final(self)@ == sv_error(old(self)@, body@),
    {
        let sentinel = String::from_str("you are the host");
        if body == sentinel {
            self.host = true;
        }
        self.chat.push(ServerMessage::Error(body));
        proof {
            assert(self@.chat =~= old(self)@.chat.push(MessageV::Error(body@)));
            assert(self@ =~~= sv_error(old(self)@, body@));
        }
    }

    /// An end-turn event revokes all legality.
    fn on_end_turn(&mut self)
        ensures
            final(self)@ == sv_end_turn(old(self)@),
    {
        self.allowed_cards = Vec::new();
        self.turn = false;
        proof {
            assert(self@.allowed =~= Seq::<CardV>::empty());
            assert(self@ =~~= sv_end_turn(old(self)@));
        }
    }

    /// A win update stores the standing and ends the session.
    fn on_win(
        &mut self,
        id: PlayerId,
        username: String,
        placements: Vec<String>,
        statistics: GameStatistics,
    )
        ensures
            final(self)@ == sv_win(old(self)@, id, username@, placements.deep_view(), statistics),
    {
        self.end_status = Some(
            EndStatus { winner_id: id, winner: username, placements, statistics },
        );
        self.phase = Phase::Ended;
        proof {
            assert(self@ =~~= sv_win(
                old(self)@,
                id,
                username@,
                placements.deep_view(),
                statistics,
            ));
        }
    }

    /// A participant left: counter, notification, entry dropped without
    /// renumbering the seats that stay.
    fn on_leave(&mut self, id: PlayerId, username: String)
        ensures
            final(self)@ == sv_leave(old(self)@, id, username@),
    {
        self.connection_count = drop_one(self.connection_count);
        self.chat.push(ServerMessage::Leave(username));
        let ghost r0 = roster_view(self.connections@);
        let mut kept: Vec<(PlayerId, Player)> = Vec::new();
        let mut i: usize = 0;
        proof {
            assert(roster_view(kept@) =~= roster_remove(r0.take(0), id));
        }
        while i < self.connections.len()
            invariant
                i <= self.connections@.len(),
                r0 == roster_view(self.connections@),
                roster_view(kept@) == roster_remove(r0.take(i as int), id),
            decreases self.connections@.len() - i,
        {
            proof {
                assert(r0.take(i + 1).drop_last() =~= r0.take(i as int));
                assert(r0.take(i + 1).last() == r0[i as int]);
            }
            if self.connections[i].0 != id {
                let entry_id = self.connections[i].0;
                let p = clone_player(&self.connections[i].1);
                kept.push((entry_id, p));
            }
            proof {
                assert(roster_view(kept@) =~= roster_remove(r0.take(i + 1), id));
            }
            i += 1;
        }
        proof {
            assert(r0.take(self.connections@.len() as int) =~= r0);
        }
        self.connections = kept;
        proof {
            assert(self@.chat =~= old(self)@.chat.push(MessageV::Leave(username@)));
            assert(self@ =~~= sv_leave(old(self)@, id, username@));
        }
    }

    /// The initial roster snapshot: server-confirmed registration, and every
    /// listed stranger inserted with seats handed out in list order.
    fn on_game_data(&mut self, self_id: PlayerId, list: Vec<(PlayerId, String)>)
        ensures
            final(self)@ == sv_game_data(old(self)@, self_id, pairs_view(list@)),
    {
        if self.phase == Phase::Unregistered {
            self.phase = Phase::Registered;
        }
        let ghost lv = pairs_view(list@);
        let mut conn: Vec<(PlayerId, Player)> = Vec::new();
        core::mem::swap(&mut conn, &mut self.connections);
        let ghost target = roster_snapshot(roster_view(conn@), lv, self_id, self.connection_count);
        let mut seat = self.connection_count;
        let mut i: usize = 0;
        proof {
            assert(lv.skip(0) =~= lv);
        }
        while i < list.len()
            invariant
                i <= list@.len(),
                lv == pairs_view(list@),
                roster_snapshot(roster_view(conn@), lv.skip(i as int), self_id, seat) == target,
            decreases list@.len() - i,
        {
            proof {
                assert(lv.skip(i as int)[0] == lv[i as int]);
                assert(lv.skip(i as int).skip(1) =~= lv.skip(i + 1));
            }
            let id = list[i].0;
            if id != self_id && !roster_contains(&conn, id) {
                let ghost before = roster_view(conn@);
                let name = list[i].1.clone();
                let p = Player::new(name, 0, seat);
                conn.push((id, p));
                proof {
                    assert(roster_view(conn@) =~= before.push(
                        fresh_entry(id, lv[i as int].1, 0, seat),
                    ));
                }
                seat = bump(seat);
            }
            i += 1;
        }
        proof {
            assert(lv.skip(list@.len() as int) =~= Seq::<(PlayerId, Seq<char>)>::empty());
        }
        core::mem::swap(&mut conn, &mut self.connections);
        proof {
            assert(self@ =~~= sv_game_data(old(self)@, self_id, lv));
        }
    }

    /// A public status update: the named entry's card count is overwritten, a
    /// stranger is inserted defensively, the discard is replaced, and the game
    /// counts as running.
    fn on_status_public(&mut self, id: PlayerId, username: String, count: usize, card: Card)
        ensures
            final(self)@ == sv_status_public(old(self)@, id, username@, count, card@),
    {
        if self.phase == Phase::Unregistered || self.phase == Phase::Registered {
            self.phase = Phase::Active;
        }
        let known = roster_contains(&self.connections, id);
        if known {
            let ghost r0 = roster_view(self.connections@);
            let ghost rt = roster_set_count(r0, id, count);
            let mut updated: Vec<(PlayerId, Player)> = Vec::new();
            let mut i: usize = 0;
            while i < self.connections.len()
                invariant
                    i <= self.connections@.len(),
                    r0 == roster_view(self.connections@),
                    rt == roster_set_count(r0, id, count),
                    roster_view(updated@) == rt.take(i as int),
                decreases self.connections@.len() - i,
            {
                let entry_id = self.connections[i].0;
                let pr = &self.connections[i].1;
                let new_count = if entry_id == id {
                    count
                } else {
                    pr.card_count
                };
                let p = Player {
                    username: pr.username.clone(),
                    card_count: new_count,
                    index: pr.index,
                    turn: pr.turn,
                    next: pr.next,
                };
                let ghost before = roster_view(updated@);
                updated.push((entry_id, p));
                proof {
                    assert(roster_view(updated@) =~= before.push(entry_view((entry_id, p))));
                    assert(entry_view((entry_id, p)) == counted_entry(r0[i as int], id, count));
                    assert(rt.take(i + 1) =~= rt.take(i as int).push(rt[i as int]));
                    assert(roster_view(updated@) =~= rt.take(i + 1));
                }
                i += 1;
            }
            proof {
                assert(rt.take(self.connections@.len() as int) =~= rt);
            }
            self.connections = updated;
        } else {
            let cc = bump(self.connection_count);
            self.connection_count = cc;
            let p = Player::new(username, count, cc);
            self.connections.push((id, p));
            proof {
                assert(roster_view(self.connections@) =~= roster_view(
                    old(self).connections@,
                ).push(fresh_entry(id, username@, count, cc)));
            }
        }
        self.current = Some(card);
        proof {
            assert(self@ =~~= sv_status_public(old(self)@, id, username@, count, card@));
        }
    }

    /// A private status update: the hand is replaced wholesale, the allowed
    /// set re-matched against it, the discard replaced, the game running.
    fn on_status_private(&mut self, cards: Vec<Card>, card: Card)
        ensures
            final(self)@ == sv_status_private(old(self)@, cards.deep_view(), card@),
    {
        if self.phase == Phase::Unregistered || self.phase == Phase::Registered {
            self.phase = Phase::Active;
        }
        let filtered = filter_matching(&self.allowed_cards, &cards);
        self.allowed_cards = filtered;
        self.cards = cards;
        self.current = Some(card);
        proof {
            assert(self@ =~~= sv_status_private(old(self)@, cards.deep_view(), card@));
        }
    }

    /// An allowed-moves update: the sole grant of the local turn. The allowed
    /// set is matched by value against the hand; every roster turn flag is
    /// lowered so the turn stays exclusive.
    fn on_allowed(&mut self, cards: Vec<Card>)
        ensures
            final(self)@ == sv_allowed(old(self)@, cards.deep_view()),
    {
        let filtered = filter_matching(&cards, &self.cards);
        self.allowed_cards = filtered;
        self.turn = true;
        let ghost r0 = roster_view(self.connections@);
        let ghost rt = roster_clear_turn(r0);
        let mut updated: Vec<(PlayerId, Player)> = Vec::new();
        let mut i: usize = 0;
        while i < self.connections.len()
            invariant
                i <= self.connections@.len(),
                r0 == roster_view(self.connections@),
                rt == roster_clear_turn(r0),
                roster_view(updated@) == rt.take(i as int),
            decreases self.connections@.len() - i,
        {
            let entry_id = self.connections[i].0;
            let pr = &self.connections[i].1;
            let p = Player {
                username: pr.username.clone(),
                card_count: pr.card_count,
                index: pr.index,
                turn: false,
                next: pr.next,
            };
            let ghost before = roster_view(updated@);
            updated.push((entry_id, p));
            proof {
                assert(roster_view(updated@) =~= before.push(entry_view((entry_id, p))));
                assert(entry_view((entry_id, p)) == unflagged_entry(r0[i as int]));
                assert(rt.take(i + 1) =~= rt.take(i as int).push(rt[i as int]));
                assert(rt[i as int] == unflagged_entry(r0[i as int]));
                assert(roster_view(updated@) =~= rt.take(i + 1));
            }
            i += 1;
        }
        proof {
            assert(rt.take(self.connections@.len() as int) =~= rt);
        }
        self.connections = updated;
        proof {
            assert(self@ =~~= sv_allowed(old(self)@, cards.deep_view()));
        }
    }

    /// A turn update: every flag recomputed wholesale; the local player is
    /// next iff the announced next id is no known opponent; an announced
    /// opponent turn withdraws the local turn.
    fn on_turn_update(&mut self, current: PlayerId, next: PlayerId)
        ensures
            final(self)@ == sv_turn_update(old(self)@, current, next),
    {
        let has_cur = roster_contains(&self.connections, current);
        let has_next = roster_contains(&self.connections, next);
        let ghost r0 = roster_view(self.connections@);
        let ghost rt = roster_turn_flags(r0, current, next);
        let mut updated: Vec<(PlayerId, Player)> = Vec::new();
        let mut i: usize = 0;
        while i < self.connections.len()
            invariant
                i <= self.connections@.len(),
                r0 == roster_view(self.connections@),
                rt == roster_turn_flags(r0, current, next),
                roster_view(updated@) == rt.take(i as int),
            decreases self.connections@.len() - i,
        {
            let entry_id = self.connections[i].0;
            let pr = &self.connections[i].1;
            let p = Player {
                username: pr.username.clone(),
                card_count: pr.card_count,
                index: pr.index,
                turn: entry_id == current,
                next: entry_id == next,
            };
            let ghost before = roster_view(updated@);
            updated.push((entry_id, p));
            proof {
                assert(roster_view(updated@) =~= before.push(entry_view((entry_id, p))));
                assert(entry_view((entry_id, p)) == flagged_entry(r0[i as int], current, next));
                assert(rt.take(i + 1) =~= rt.take(i as int).push(rt[i as int]));
                assert(roster_view(updated@) =~= rt.take(i + 1));
            }
            i += 1;
        }
        proof {
            assert(rt.take(self.connections@.len() as int) =~= rt);
        }
        self.connections = updated;
        self.next = !has_next;
        if has_cur {
            self.turn = false;
        }
        proof {
            assert(self@ =~~= sv_turn_update(old(self)@, current, next));
        }
    }

    /// One decoded server event, dispatched to its transition rule. Events
    /// land only in the connected phases; in the terminal phase everything
    /// that would move the roster, the hand or the standing is ignored.
    fn on_packet(&mut self, packet: PacketType)
        ensures
            final(self)@ == step_packet(old(self)@, packet@),
    {
        if !phase_connected(self.phase) {
            return ;
        }
        let ended = self.phase == Phase::Ended;
        match packet {
            PacketType::Register(_u) => {},
            PacketType::StartGame(_o) => {},
            PacketType::DrawCard(_n) => {},
            PacketType::PlaceCard(_i) => {},
            PacketType::ColorSwitch(_c) => {},
            PacketType::GameData(self_id, _name, list) => {
                if !ended {
                    self.on_game_data(self_id, list);
                }
            },
            PacketType::Connect(id, name) => {
                if !ended {
                    self.on_join(id, name);
                }
            },
            PacketType::Disconnect(id, name) => {
                if !ended {
                    self.on_leave(id, name);
                }
            },
            PacketType::Message(sender, content) => self.on_message(sender, content),
            PacketType::Error(_code, body) => self.on_error(body),
            PacketType::StatusUpdatePublic(id, name, count, card) => {
                if !ended {
                    self.on_status_public(id, name, count, card);
                }
            },
            PacketType::StatusUpdatePrivate(cards, card) => {
                if !ended {
                    self.on_status_private(cards, card);
                }
            },
            PacketType::AllowedCardsUpdate(cards) => {
                if !ended {
                    self.on_allowed(cards);
                }
            },
            PacketType::EndTurn => self.on_end_turn(),
            PacketType::TurnUpdate(current, next) => {
                if !ended {
                    self.on_turn_update(current, next);
                }
            },
            PacketType::WinUpdate(id, name, placements, stats) => {
                if !ended {
                    self.on_win(id, name, placements, stats);
                }
            },
        }
    }

    /// One reduction: the state moves to `step` of itself and the signal, and
    /// the returned actions are exactly `emits` of the state and the signal.
    /// The reducer is total: it never panics and asks nothing of its caller.
    pub fn reduce(&mut self, msg: Msg) -> (actions: Vec<Action>)
        ensures
            final(self)@ == step(old(self)@, msg@),
            actions@.map_values(|a: Action| a@) == emits(old(self)@, msg@),
    {
        let mut actions: Vec<Action> = Vec::new();
        proof {
            assert(actions@.map_values(|a: Action| a@) =~= Seq::<ActionV>::empty());
        }
        match msg {
            Msg::Connect => {
                let ok_phase = self.phase == Phase::Idle || self.phase == Phase::Disconnected;
                let room = match &self.room_id {
                    Some(r) => if r.as_str().is_empty() {
                        None
                    } else {
                        Some(r.clone())
                    },
                    None => None,
                };
                if ok_phase {
                    if let Some(room) = room {
                        self.phase = Phase::Connecting;
                        actions.push(Action::Open(room));
                        proof {
                            assert(actions@.map_values(|a: Action| a@) =~= emits(
                                old(self)@,
                                msg@,
                            ));
                        }
                    }
                }
            },
            Msg::Connected => {
                if self.phase == Phase::Connecting {
                    self.phase = Phase::Unregistered;
                }
            },
            Msg::Disconnected => {
                self.phase = Phase::Disconnected;
                self.host = false;
                self.turn = false;
                self.next = false;
                self.selecting = false;
                self.chat = Vec::new();
                self.connections = Vec::new();
                self.connection_count = 1;
                self.cards = Vec::new();
                self.allowed_cards = Vec::new();
                self.current = None;
                self.end_status = None;
                proof {
                    assert(self@ =~~= clear_session(old(self)@, Phase::Disconnected));
                }
            },
            Msg::UsernameInput(u) => {
                self.username = Some(u);
            },
            Msg::RoomIDInput(r) => {
                self.room_id = Some(r);
            },
            Msg::Register => {
                if phase_connected(self.phase) {
                    let name = match &self.username {
                        Some(u) => u.clone(),
                        None => String::from_str("player"),
                    };
                    actions.push(Action::Send(PacketType::Register(name)));
                    proof {
                        assert(actions@.map_values(|a: Action| a@) =~= emits(old(self)@, msg@));
                    }
                }
            },
            Msg::StartGame => {
                if phase_connected(self.phase) {
                    actions.push(Action::Send(PacketType::StartGame(String::from_str("None"))));
                    proof {
                        assert(actions@.map_values(|a: Action| a@) =~= emits(old(self)@, msg@));
                    }
                }
            },
            Msg::Received(packet) => {
                self.on_packet(packet);
            },
            Msg::DecodeFailed(b) => {
                self.chat.push(ServerMessage::Error(b));
                proof {
                    assert(self@.chat =~= old(self)@.chat.push(MessageV::Error(b@)));
                }
            },
            Msg::PlaceCard(card) => {
                if phase_connected(self.phase) && !self.selecting {
                    match find_first_match(&self.cards, &card) {
                        Some(i) => {
                            actions.push(Action::Send(PacketType::PlaceCard(i)));
                            let wild = is_wild(&card);
                            self.selecting = wild;
                            proof {
                                assert(actions@.map_values(|a: Action| a@) =~= emits(
                                    old(self)@,
                                    msg@,
                                ));
                            }
                        },
                        None => {
                            self.chat.push(
                                ServerMessage::Error(String::from_str("no matching card in hand")),
                            );
                            proof {
                                assert(self@.chat =~= old(self)@.chat.push(
                                    MessageV::Error(no_match_note()),
                                ));
                            }
                        },
                    }
                }
            },
            Msg::DrawCard => {
                if phase_connected(self.phase) {
                    actions.push(Action::Send(PacketType::DrawCard(1)));
                    proof {
                        assert(actions@.map_values(|a: Action| a@) =~= emits(old(self)@, msg@));
                    }
                }
            },
            Msg::EndTurn => {
                if phase_connected(self.phase) {
                    actions.push(Action::Send(PacketType::EndTurn));
                    proof {
                        assert(actions@.map_values(|a: Action| a@) =~= emits(old(self)@, msg@));
                    }
                }
            },
            Msg::SwitchColor(color) => {
                if phase_connected(self.phase) {
                    actions.push(Action::Send(PacketType::ColorSwitch(color)));
                    self.selecting = false;
                    proof {
                        assert(actions@.map_values(|a: Action| a@) =~= emits(old(self)@, msg@));
                    }
                }
            },
            Msg::Error(b) => {
                self.chat.push(ServerMessage::Error(b));
                proof {
                    assert(self@.chat =~= old(self)@.chat.push(MessageV::Error(b@)));
                }
            },
        }
        proof {
            assert(self@ =~~= step(old(self)@, msg@));
        }
        actions
    }

    /// A participant joined: counter, notification, insert if absent.
    fn on_join(&mut self, id: PlayerId, username: String)
        ensures
            final(self)@ == sv_join(old(self)@, id, username@),
    {
        let cc = bump(self.connection_count);
        self.connection_count = cc;
        self.chat.push(ServerMessage::Join(username.clone()));
        if !roster_contains(&self.connections, id) {
            let p = Player::new(username, 0, cc);
            self.connections.push((id, p));
            proof {
                assert(self@.roster =~= old(self)@.roster.push(
                    fresh_entry(id, username@, 0, cc),
                ));
            }
        }
        proof {
            assert(self@.chat =~= old(self)@.chat.push(MessageV::Join(username@)));
            assert(self@ =~~= sv_join(old(self)@, id, username@));
        }
    }
}

} // verus!
