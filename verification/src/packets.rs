use vstd::prelude::*;

use crate::game::{Card, CardV, GameStatistics, PlayerId};

verus! {

/// The closed set of wire messages exchanged with the game server. Inbound
/// and outbound kinds share the one union; kinds the client only sends are
/// ignored when they arrive, and the other way round.
#[derive(Clone, PartialEq, Eq, Debug)]
pub enum PacketType {
    /// username (outbound)
    Register(String),
    /// self id, self username, roster of (id, username) (inbound)
    GameData(PlayerId, String, Vec<(PlayerId, String)>),
    /// id, username (inbound)
    Connect(PlayerId, String),
    /// id, username (inbound)
    Disconnect(PlayerId, String),
    /// sender, content (inbound)
    Message(String, String),
    /// option (outbound)
    StartGame(String),
    /// id, username, card count, current discard (inbound)
    StatusUpdatePublic(PlayerId, String, usize, Card),
    /// own cards, current discard (inbound)
    StatusUpdatePrivate(Vec<Card>, Card),
    /// cards legal to play this turn (inbound)
    AllowedCardsUpdate(Vec<Card>),
    /// amount (outbound)
    DrawCard(u8),
    /// index into the hand (outbound)
    PlaceCard(usize),
    /// (outbound and inbound)
    EndTurn,
    /// color (outbound)
    ColorSwitch(String),
    /// current turn id, next turn id (inbound)
    TurnUpdate(PlayerId, PlayerId),
    /// winner id, winner username, placements, statistics (inbound)
    WinUpdate(PlayerId, String, Vec<String>, GameStatistics),
    /// error code, body (inbound)
    Error(u64, String),
}

/// The mathematical value of a roster list as the wire carries it.
pub open spec fn pairs_view(l: Seq<(PlayerId, String)>) -> Seq<(PlayerId, Seq<char>)> {
    l.map_values(|e: (PlayerId, String)| (e.0, e.1@))
}

/// The mathematical value of a `PacketType`.
pub enum PacketV {
    Register(Seq<char>),
    GameData(PlayerId, Seq<char>, Seq<(PlayerId, Seq<char>)>),
    Connect(PlayerId, Seq<char>),
    Disconnect(PlayerId, Seq<char>),
    Message(Seq<char>, Seq<char>),
    StartGame(Seq<char>),
    StatusUpdatePublic(PlayerId, Seq<char>, usize, CardV),
    StatusUpdatePrivate(Seq<CardV>, CardV),
    AllowedCardsUpdate(Seq<CardV>),
    DrawCard(u8),
    PlaceCard(usize),
    EndTurn,
    ColorSwitch(Seq<char>),
    TurnUpdate(PlayerId, PlayerId),
    WinUpdate(PlayerId, Seq<char>, Seq<Seq<char>>, GameStatistics),
    Error(u64, Seq<char>),
}

impl View for PacketType {
    type V = PacketV;

    open spec fn view(&self) -> PacketV {
        match self {
            PacketType::Register(u) => PacketV::Register(u@),
            PacketType::GameData(id, u, roster) => PacketV::GameData(*id, u@, pairs_view(roster@)),
            PacketType::Connect(id, u) => PacketV::Connect(*id, u@),
            PacketType::Disconnect(id, u) => PacketV::Disconnect(*id, u@),
            PacketType::Message(s, c) => PacketV::Message(s@, c@),
            PacketType::StartGame(o) => PacketV::StartGame(o@),
            PacketType::StatusUpdatePublic(id, u, n, c) => PacketV::StatusUpdatePublic(
                *id,
                u@,
                *n,
                c@,
            ),
            PacketType::StatusUpdatePrivate(cards, c) => PacketV::StatusUpdatePrivate(
                cards.deep_view(),
                c@,
            ),
            PacketType::AllowedCardsUpdate(cards) => PacketV::AllowedCardsUpdate(cards.deep_view()),
            PacketType::DrawCard(n) => PacketV::DrawCard(*n),
            PacketType::PlaceCard(i) => PacketV::PlaceCard(*i),
            PacketType::EndTurn => PacketV::EndTurn,
            PacketType::ColorSwitch(c) => PacketV::ColorSwitch(c@),
            PacketType::TurnUpdate(cur, nxt) => PacketV::TurnUpdate(*cur, *nxt),
            PacketType::WinUpdate(id, u, placements, stats) => PacketV::WinUpdate(
                *id,
                u@,
                placements.deep_view(),
                *stats,
            ),
            PacketType::Error(code, body) => PacketV::Error(*code, body@),
        }
    }
}

} // verus!
