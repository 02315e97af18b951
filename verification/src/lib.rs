//! Client-side session synchronizer for a turn-based card game.
//!
//! A remote server owns the rules; the client sees an ordered stream of
//! decoded events and must rebuild from it who is playing, whose turn it is,
//! what the local hand holds, which moves are legal, and how the game ended.
//! The heart of the crate is [`session::Session::reduce`]: a total, pure
//! reducer from one inbound signal to the next state and the outbound
//! requests, specified exactly by the spec-level [`session::step`] and
//! [`session::emits`] functions. The laws the synchronizer obeys — an
//! inductive invariant with exclusive turn flags and an allowed set contained
//! in the hand, idempotent roster snapshots, and a frozen terminal state —
//! are stated and proved in [`laws`].

use vstd::prelude::*;

pub mod game;
pub mod laws;
pub mod packets;
pub mod session;

pub use game::{
    Card, CardV, EndStatus, EndStatusV, GameStatistics, Player, PlayerId, PlayerV, card_matches,
    cards_match, clone_card, dec_digits, decimal_string, duration_parts, placement_line,
    placement_rank,
};
pub use laws::{
    allowed_in_hand, ended_iff_result, lemma_allowed_containment, lemma_end_turn_clears,
    lemma_roster_snapshot_idempotent, lemma_terminal_state, lemma_turn_flags_exclusive,
    lemma_wf_init, lemma_wf_step, next_exclusive, offline_clear, roster_ids_unique,
    turn_exclusive, wf,
};
pub use packets::{PacketType, PacketV, pairs_view};
pub use session::{
    Action, ActionV, EntryV, MessageV, Msg, MsgV, Phase, ServerMessage, Session, SessionV, emits,
    entry_view, init_session, is_connected, step, step_packet,
};

verus! {

} // verus!
