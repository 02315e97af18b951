use vstd::prelude::*;

use crate::game::{CardV, PlayerId};
use crate::session::{
    EntryV, MessageV, MsgV, Phase, SessionV, clear_session, filter_to_hand, hand_has_match,
    init_session, is_connected, roster_clear_turn, roster_has, roster_remove, roster_snapshot,
    roster_set_count, roster_turn_flags, sat_inc, step, step_packet, sv_allowed, sv_end_turn,
    sv_game_data, sv_join, sv_leave, sv_status_private, sv_status_public, sv_turn_update, sv_win,
    counted_entry, flagged_entry, fresh_entry, unflagged_entry,
};
use crate::packets::PacketV;

verus! {

// ---------------------------------------------------------------------------
// The session invariant: what holds of every reachable state.
// ---------------------------------------------------------------------------

/// No two roster entries share an id: the roster is a map.
pub open spec fn roster_ids_unique(r: Seq<EntryV>) -> bool {
    forall|i: int, j: int|
        0 <= i < r.len() && 0 <= j < r.len() && i != j ==> r[i].id != r[j].id
}

/// How many roster entries claim the turn.
pub open spec fn turn_count(r: Seq<EntryV>) -> nat
    decreases r.len(),
{
    if r.len() == 0 {
        0
    } else {
        turn_count(r.drop_last()) + if r.last().turn {
            1nat
        } else {
            0nat
        }
    }
}

/// How many roster entries claim to be next.
pub open spec fn next_count(r: Seq<EntryV>) -> nat
    decreases r.len(),
{
    if r.len() == 0 {
        0
    } else {
        next_count(r.drop_last()) + if r.last().next {
            1nat
        } else {
            0nat
        }
    }
}

/// The turn is exclusive: the local claim and all roster claims together
/// never exceed one.
pub open spec fn turn_exclusive(s: SessionV) -> bool {
    (if s.turn {
        1nat
    } else {
        0nat
    }) + turn_count(s.roster) <= 1
}

/// Being next is exclusive in the same way.
pub open spec fn next_exclusive(s: SessionV) -> bool {
    (if s.next {
        1nat
    } else {
        0nat
    }) + next_count(s.roster) <= 1
}

/// Every allowed card is value-equal to some card of the hand.
pub open spec fn allowed_in_hand(s: SessionV) -> bool {
    forall|i: int| 0 <= i < s.allowed.len() ==> hand_has_match(s.hand, #[trigger] s.allowed[i])
}

/// Outside the connected phases nothing is known: the state is as fresh as a
/// new session, but for the entered identity and the log, which may hold
/// locally raised notes.
pub open spec fn offline_clear(s: SessionV) -> bool {
    !is_connected(s.phase) ==> {
        &&& s.roster.len() == 0
        &&& s.hand.len() == 0
        &&& s.allowed.len() == 0
        &&& !s.turn
        &&& !s.next
        &&& !s.selecting
        &&& !s.host
        &&& s.current is None
        &&& s.end_status is None
        &&& s.connection_count == 1
    }
}

/// The standing is stored exactly while the session is in its terminal phase.
pub open spec fn ended_iff_result(s: SessionV) -> bool {
    (s.end_status is Some) <==> s.phase == Phase::Ended
}

/// The inductive invariant of the synchronizer: it holds of a fresh session
/// and every reduction preserves it, so it holds of every reachable state.
pub open spec fn wf(s: SessionV) -> bool {
    &&& roster_ids_unique(s.roster)
    &&& turn_exclusive(s)
    &&& next_exclusive(s)
    &&& allowed_in_hand(s)
    &&& offline_clear(s)
    &&& ended_iff_result(s)
}

// ---------------------------------------------------------------------------
// Counting lemmas: how the flag counts move under each roster operation.
// ---------------------------------------------------------------------------

/// A pushed entry adds its own flags and nothing else.
proof fn lemma_push_counts(r: Seq<EntryV>, e: EntryV)
    ensures
        turn_count(r.push(e)) == turn_count(r) + if e.turn {
            1nat
        } else {
            0nat
        },
        next_count(r.push(e)) == next_count(r) + if e.next {
            1nat
        } else {
            0nat
        },
{
    assert(r.push(e).drop_last() =~= r);
}

/// No flags at all means a zero count, and the other way round.
proof fn lemma_turn_count_zero(r: Seq<EntryV>)
    ensures
        (turn_count(r) == 0) <==> (forall|i: int| 0 <= i < r.len() ==> !r[i].turn),
    decreases r.len(),
{
    if r.len() > 0 {
        lemma_turn_count_zero(r.drop_last());
        assert(forall|i: int| 0 <= i < r.len() - 1 ==> r.drop_last()[i] == r[i]);
        assert(r.last() == r[r.len() - 1]);
    }
}

/// See `lemma_turn_count_zero`.
proof fn lemma_next_count_zero(r: Seq<EntryV>)
    ensures
        (next_count(r) == 0) <==> (forall|i: int| 0 <= i < r.len() ==> !r[i].next),
    decreases r.len(),
{
    if r.len() > 0 {
        lemma_next_count_zero(r.drop_last());
        assert(forall|i: int| 0 <= i < r.len() - 1 ==> r.drop_last()[i] == r[i]);
        assert(r.last() == r[r.len() - 1]);
    }
}

/// A count of at most one is the same as pairwise exclusivity.
proof fn lemma_turn_count_exclusive(r: Seq<EntryV>)
    requires
        turn_count(r) <= 1,
    ensures
        forall|i: int, j: int|
            0 <= i < r.len() && 0 <= j < r.len() && r[i].turn && r[j].turn ==> i == j,
    decreases r.len(),
{
    if r.len() > 0 {
        lemma_turn_count_exclusive(r.drop_last());
        assert(forall|i: int| 0 <= i < r.len() - 1 ==> r.drop_last()[i] == r[i]);
        assert(r.last() == r[r.len() - 1]);
        if r.last().turn {
            lemma_turn_count_zero(r.drop_last());
        }
    }
}

/// Dropping entries never raises a flag count.
proof fn lemma_remove_counts(r: Seq<EntryV>, id: PlayerId)
    ensures
        turn_count(roster_remove(r, id)) <= turn_count(r),
        next_count(roster_remove(r, id)) <= next_count(r),
    decreases r.len(),
{
    if r.len() > 0 {
        lemma_remove_counts(r.drop_last(), id);
        if r.last().id != id {
            lemma_push_counts(roster_remove(r.drop_last(), id), r.last());
        }
    }
}

/// Lowering every turn flag leaves none, and the next flags untouched.
proof fn lemma_clear_turn_counts(r: Seq<EntryV>)
    ensures
        turn_count(roster_clear_turn(r)) == 0,
        next_count(roster_clear_turn(r)) == next_count(r),
    decreases r.len(),
{
    if r.len() > 0 {
        lemma_clear_turn_counts(r.drop_last());
        assert(roster_clear_turn(r).drop_last() =~= roster_clear_turn(r.drop_last()));
        assert(roster_clear_turn(r).last() == unflagged_entry(r.last()));
    }
}

/// Overwriting a card count touches no flag.
proof fn lemma_set_count_counts(r: Seq<EntryV>, id: PlayerId, n: usize)
    ensures
        turn_count(roster_set_count(r, id, n)) == turn_count(r),
        next_count(roster_set_count(r, id, n)) == next_count(r),
    decreases r.len(),
{
    if r.len() > 0 {
        lemma_set_count_counts(r.drop_last(), id, n);
        assert(roster_set_count(r, id, n).drop_last() =~= roster_set_count(
            r.drop_last(),
            id,
            n,
        ));
        assert(roster_set_count(r, id, n).last() == counted_entry(r.last(), id, n));
    }
}

/// Recomputed flags: when the announced id is no roster id the count is zero,
/// and with unique ids it never exceeds one. The same for next flags.
proof fn lemma_turn_flags_counts(r: Seq<EntryV>, current: PlayerId, next: PlayerId)
    requires
        roster_ids_unique(r),
    ensures
        !roster_has(r, current) ==> turn_count(roster_turn_flags(r, current, next)) == 0,
        turn_count(roster_turn_flags(r, current, next)) <= 1,
        !roster_has(r, next) ==> next_count(roster_turn_flags(r, current, next)) == 0,
        next_count(roster_turn_flags(r, current, next)) <= 1,
    decreases r.len(),
{
    if r.len() > 0 {
        let pre = r.drop_last();
        assert(forall|i: int| 0 <= i < r.len() - 1 ==> pre[i] == r[i]);
        assert(roster_ids_unique(pre));
        lemma_turn_flags_counts(pre, current, next);
        assert(roster_turn_flags(r, current, next).drop_last() =~= roster_turn_flags(
            pre,
            current,
            next,
        ));
        assert(roster_turn_flags(r, current, next).last() == flagged_entry(
            r.last(),
            current,
            next,
        ));
        assert(r.last() == r[r.len() - 1]);
        if r.last().id == current {
            assert(roster_has(r, current));
            assert(!roster_has(pre, current)) by {
                if roster_has(pre, current) {
                    let i = choose|i: int| 0 <= i < pre.len() && pre[i].id == current;
                    assert(r[i].id == current);
                }
            }
        } else {
            if roster_has(r, current) {
                let i = choose|i: int| 0 <= i < r.len() && r[i].id == current;
                assert(pre[i] == r[i]);
                assert(roster_has(pre, current));
            }
        }
        if r.last().id == next {
            assert(roster_has(r, next));
            assert(!roster_has(pre, next)) by {
                if roster_has(pre, next) {
                    let i = choose|i: int| 0 <= i < pre.len() && pre[i].id == next;
                    assert(r[i].id == next);
                }
            }
        } else {
            if roster_has(r, next) {
                let i = choose|i: int| 0 <= i < r.len() && r[i].id == next;
                assert(pre[i] == r[i]);
                assert(roster_has(pre, next));
            }
        }
    }
}

// ---------------------------------------------------------------------------
// Structural lemmas: what each roster operation does to ids and entries.
// ---------------------------------------------------------------------------

/// A snapshot insert keeps what was there, adds only flagless strangers, and
/// afterwards knows every listed participant but the local player.
proof fn lemma_snapshot_props(
    r: Seq<EntryV>,
    list: Seq<(PlayerId, Seq<char>)>,
    self_id: PlayerId,
    seat: usize,
)
    requires
        roster_ids_unique(r),
    ensures
        roster_ids_unique(roster_snapshot(r, list, self_id, seat)),
        turn_count(roster_snapshot(r, list, self_id, seat)) == turn_count(r),
        next_count(roster_snapshot(r, list, self_id, seat)) == next_count(r),
        r.len() <= roster_snapshot(r, list, self_id, seat).len(),
        forall|i: int| 0 <= i < r.len() ==> roster_snapshot(r, list, self_id, seat)[i] == r[i],
        forall|x: PlayerId|
            roster_has(r, x) ==> roster_has(roster_snapshot(r, list, self_id, seat), x),
        forall|k: int|
            0 <= k < list.len() && (#[trigger] list[k]).0 != self_id ==> roster_has(
                roster_snapshot(r, list, self_id, seat),
                list[k].0,
            ),
    decreases list.len(),
{
    if list.len() > 0 {
        let id = list[0].0;
        let name = list[0].1;
        assert(forall|k: int| 1 <= k < list.len() ==> list.skip(1)[k - 1] == list[k]);
        if id != self_id && !roster_has(r, id) {
            let e = fresh_entry(id, name, 0, seat);
            let r2 = r.push(e);
            assert(roster_ids_unique(r2)) by {
                assert(forall|i: int| 0 <= i < r.len() ==> r2[i] == r[i]);
                assert(r2[r.len() as int] == e);
                assert(forall|i: int| 0 <= i < r.len() ==> r[i].id != id);
            }
            lemma_push_counts(r, e);
            lemma_snapshot_props(r2, list.skip(1), self_id, sat_inc(seat));
            let out = roster_snapshot(r2, list.skip(1), self_id, sat_inc(seat));
            assert(roster_snapshot(r, list, self_id, seat) == out);
            assert forall|i: int| 0 <= i < r.len() implies out[i] == r[i] by {
                assert(out[i] == r2[i]);
                assert(r2[i] == r[i]);
            }
            assert(roster_has(r2, id)) by {
                assert(r2[r.len() as int].id == id);
            }
            assert(forall|x: PlayerId| roster_has(r, x) ==> roster_has(r2, x)) by {
                assert(forall|i: int| 0 <= i < r.len() ==> r2[i] == r[i]);
            }
        } else {
            lemma_snapshot_props(r, list.skip(1), self_id, seat);
        }
    }
}

/// A snapshot whose every listed stranger is already present changes nothing:
/// the idempotence of the initial-roster rule.
proof fn lemma_snapshot_noop(
    r: Seq<EntryV>,
    list: Seq<(PlayerId, Seq<char>)>,
    self_id: PlayerId,
    seat: usize,
)
    requires
        forall|k: int|
            0 <= k < list.len() && (#[trigger] list[k]).0 != self_id ==> roster_has(r, list[k].0),
    ensures
        roster_snapshot(r, list, self_id, seat) == r,
    decreases list.len(),
{
    if list.len() > 0 {
        assert(forall|k: int| 1 <= k < list.len() ==> list.skip(1)[k - 1] == list[k]);
        lemma_snapshot_noop(r, list.skip(1), self_id, seat);
    }
}

/// Removal keeps the ids a map and invents no id.
proof fn lemma_remove_ids(r: Seq<EntryV>, id: PlayerId)
    requires
        roster_ids_unique(r),
    ensures
        roster_ids_unique(roster_remove(r, id)),
        forall|x: PlayerId| roster_has(roster_remove(r, id), x) ==> roster_has(r, x),
    decreases r.len(),
{
    if r.len() > 0 {
        let pre_r = r.drop_last();
        assert(forall|i: int| 0 <= i < r.len() - 1 ==> pre_r[i] == r[i]);
        assert(roster_ids_unique(pre_r));
        lemma_remove_ids(pre_r, id);
        let pre = roster_remove(pre_r, id);
        let last = r.last();
        assert(last == r[r.len() - 1]);
        assert(forall|x: PlayerId| roster_has(pre_r, x) ==> roster_has(r, x));
        if last.id != id {
            let out = pre.push(last);
            assert(forall|i: int| 0 <= i < pre.len() ==> out[i] == pre[i]);
            assert(out[pre.len() as int] == last);
            assert(!roster_has(pre, last.id)) by {
                if roster_has(pre, last.id) {
                    assert(roster_has(pre_r, last.id));
                    let i = choose|i: int| 0 <= i < pre_r.len() && pre_r[i].id == last.id;
                    assert(r[i].id == r[r.len() - 1].id);
                }
            }
            assert(roster_ids_unique(out));
            assert(forall|x: PlayerId| roster_has(out, x) ==> roster_has(r, x)) by {
                assert forall|x: PlayerId| roster_has(out, x) implies roster_has(r, x) by {
                    let i = choose|i: int| 0 <= i < out.len() && out[i].id == x;
                    if i < pre.len() {
                        assert(roster_has(pre, x));
                    } else {
                        assert(out[i] == last);
                        assert(r[r.len() - 1].id == x);
                    }
                }
            }
        }
    }
}

/// Everything the value-matching filter keeps has a match in the hand.
proof fn lemma_filter_in_hand(cards: Seq<CardV>, hand: Seq<CardV>)
    ensures
        forall|i: int|
            0 <= i < filter_to_hand(cards, hand).len() ==> hand_has_match(
                hand,
                #[trigger] filter_to_hand(cards, hand)[i],
            ),
    decreases cards.len(),
{
    if cards.len() > 0 {
        lemma_filter_in_hand(cards.drop_last(), hand);
        let pre = filter_to_hand(cards.drop_last(), hand);
        if hand_has_match(hand, cards.last()) {
            assert(forall|i: int|
                0 <= i < pre.len() ==> filter_to_hand(cards, hand)[i] == pre[i]);
            assert(filter_to_hand(cards, hand)[pre.len() as int] == cards.last());
        }
    }
}

// ---------------------------------------------------------------------------
// The laws of the synchronizer.
// ---------------------------------------------------------------------------

/// A fresh session is well formed: the base of the reachability induction.
pub proof fn lemma_wf_init()
    ensures
        wf(init_session()),
{
}

/// One decoded server event preserves well-formedness.
proof fn lemma_wf_step_packet(s: SessionV, p: PacketV)
    requires
        wf(s),
    ensures
        wf(step_packet(s, p)),
{
    if is_connected(s.phase) {
        let ended = s.phase == Phase::Ended;
        match p {
            PacketV::GameData(self_id, _name, list) => {
                if !ended {
                    lemma_snapshot_props(s.roster, list, self_id, s.connection_count);
                }
            },
            PacketV::Connect(id, name) => {
                if !ended {
                    let t = sv_join(s, id, name);
                    if !roster_has(s.roster, id) {
                        let e = fresh_entry(id, name, 0, sat_inc(s.connection_count));
                        lemma_push_counts(s.roster, e);
                        assert(roster_ids_unique(t.roster)) by {
                            assert(forall|i: int|
                                0 <= i < s.roster.len() ==> t.roster[i] == s.roster[i]);
                            assert(t.roster[s.roster.len() as int] == e);
                            assert(forall|i: int| 0 <= i < s.roster.len() ==> s.roster[i].id != id);
                        }
                    }
                }
            },
            PacketV::Disconnect(id, _name) => {
                if !ended {
                    lemma_remove_ids(s.roster, id);
                    lemma_remove_counts(s.roster, id);
                }
            },
            PacketV::StatusUpdatePublic(id, name, count, _card) => {
                if !ended {
                    let t = sv_status_public(s, id, name, count, _card);
                    if roster_has(s.roster, id) {
                        lemma_set_count_counts(s.roster, id, count);
                        assert(roster_ids_unique(t.roster)) by {
                            assert(forall|i: int|
                                0 <= i < s.roster.len() ==> t.roster[i] == counted_entry(
                                    s.roster[i],
                                    id,
                                    count,
                                ));
                        }
                    } else {
                        let e = fresh_entry(id, name, count, sat_inc(s.connection_count));
                        lemma_push_counts(s.roster, e);
                        assert(roster_ids_unique(t.roster)) by {
                            assert(forall|i: int|
                                0 <= i < s.roster.len() ==> t.roster[i] == s.roster[i]);
                            assert(t.roster[s.roster.len() as int] == e);
                            assert(forall|i: int| 0 <= i < s.roster.len() ==> s.roster[i].id != id);
                        }
                    }
                }
            },
            PacketV::StatusUpdatePrivate(hand, _card) => {
                if !ended {
                    lemma_filter_in_hand(s.allowed, hand);
                }
            },
            PacketV::AllowedCardsUpdate(cards) => {
                if !ended {
                    let t = sv_allowed(s, cards);
                    lemma_filter_in_hand(cards, s.hand);
                    lemma_clear_turn_counts(s.roster);
                    assert(roster_ids_unique(t.roster)) by {
                        assert(forall|i: int|
                            0 <= i < s.roster.len() ==> t.roster[i] == unflagged_entry(
                                s.roster[i],
                            ));
                    }
                }
            },
            PacketV::TurnUpdate(current, next) => {
                if !ended {
                    let t = sv_turn_update(s, current, next);
                    lemma_turn_flags_counts(s.roster, current, next);
                    assert(roster_ids_unique(t.roster)) by {
                        assert(forall|i: int|
                            0 <= i < s.roster.len() ==> t.roster[i] == flagged_entry(
                                s.roster[i],
                                current,
                                next,
                            ));
                    }
                }
            },
            _ => {},
        }
    }
}

/// One reduction step preserves well-formedness: together with
/// `lemma_wf_init` this says the invariant holds of every reachable state,
/// and with it the exclusivity of the turn and next flags and the containment
/// of the allowed set in the hand.
pub proof fn lemma_wf_step(s: SessionV, m: MsgV)
    requires
        wf(s),
    ensures
        wf(step(s, m)),
{
    match m {
        MsgV::Received(p) => lemma_wf_step_packet(s, p),
        _ => {},
    }
}

/// The turn flags of a well-formed state, read pairwise: at most one roster
/// entry holds the turn, and never together with the local player. The next
/// flags behave the same way.
pub proof fn lemma_turn_flags_exclusive(s: SessionV)
    requires
        wf(s),
    ensures
        forall|i: int, j: int|
            0 <= i < s.roster.len() && 0 <= j < s.roster.len() && s.roster[i].turn
                && s.roster[j].turn ==> i == j,
        s.turn ==> forall|i: int| 0 <= i < s.roster.len() ==> !s.roster[i].turn,
        forall|i: int, j: int|
            0 <= i < s.roster.len() && 0 <= j < s.roster.len() && s.roster[i].next
                && s.roster[j].next ==> i == j,
        s.next ==> forall|i: int| 0 <= i < s.roster.len() ==> !s.roster[i].next,
{
    lemma_turn_count_exclusive(s.roster);
    if s.turn {
        lemma_turn_count_zero(s.roster);
    }
    lemma_next_count_exclusive(s.roster);
    if s.next {
        lemma_next_count_zero(s.roster);
    }
}

/// See `lemma_turn_count_exclusive`.
proof fn lemma_next_count_exclusive(r: Seq<EntryV>)
    requires
        next_count(r) <= 1,
    ensures
        forall|i: int, j: int|
            0 <= i < r.len() && 0 <= j < r.len() && r[i].next && r[j].next ==> i == j,
    decreases r.len(),
{
    if r.len() > 0 {
        lemma_next_count_exclusive(r.drop_last());
        assert(forall|i: int| 0 <= i < r.len() - 1 ==> r.drop_last()[i] == r[i]);
        assert(r.last() == r[r.len() - 1]);
        if r.last().next {
            lemma_next_count_zero(r.drop_last());
        }
    }
}

/// Applying one initial-roster snapshot twice is the same as applying it
/// once: no duplicate entries, no reseated players, nothing else moved.
pub proof fn lemma_roster_snapshot_idempotent(
    s: SessionV,
    self_id: PlayerId,
    self_name: Seq<char>,
    list: Seq<(PlayerId, Seq<char>)>,
)
    requires
        wf(s),
    ensures
        ({
            let p = PacketV::GameData(self_id, self_name, list);
            step_packet(step_packet(s, p), p) == step_packet(s, p)
        }),
{
    let p = PacketV::GameData(self_id, self_name, list);
    let once = step_packet(s, p);
    if is_connected(s.phase) && s.phase != Phase::Ended {
        lemma_snapshot_props(s.roster, list, self_id, s.connection_count);
        lemma_snapshot_noop(once.roster, list, self_id, once.connection_count);
        assert(step_packet(once, p) =~~= once);
    }
}

/// After an allowed-moves update, every element of the allowed set is
/// value-equal to some element of the hand.
pub proof fn lemma_allowed_containment(s: SessionV, cards: Seq<CardV>)
    requires
        wf(s),
    ensures
        ({
            let t = step_packet(s, PacketV::AllowedCardsUpdate(cards));
            forall|i: int|
                0 <= i < t.allowed.len() ==> hand_has_match(t.hand, #[trigger] t.allowed[i])
        }),
{
    if is_connected(s.phase) && s.phase != Phase::Ended {
        lemma_filter_in_hand(cards, s.hand);
    }
}

/// An end-turn event on a state that holds the turn with moves still allowed
/// leaves nothing allowed and the turn surrendered.
pub proof fn lemma_end_turn_clears(s: SessionV)
    requires
        wf(s),
        s.allowed.len() > 0,
        s.turn,
    ensures
        step_packet(s, PacketV::EndTurn).allowed.len() == 0,
        !step_packet(s, PacketV::EndTurn).turn,
{
}

/// Once the standing is stored, no further server event moves the hand, the
/// roster or the standing: the session is frozen until a fresh connection.
pub proof fn lemma_terminal_state(s: SessionV, p: PacketV)
    requires
        wf(s),
        s.end_status is Some,
    ensures
        step_packet(s, p).hand == s.hand,
        step_packet(s, p).roster == s.roster,
        step_packet(s, p).end_status == s.end_status,
{
}

} // verus!
