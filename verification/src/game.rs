use vstd::prelude::*;

verus! {

/// A participant identifier assigned by the server: an opaque 128-bit value,
/// stable for the lifetime of a connection. Only equality is ever asked of it.
#[derive(Clone, Copy, PartialEq, Eq, Hash, Debug, Structural)]
pub struct PlayerId(pub u128);

/// One playing card. Two cards denote the same face iff `kind` and `color`
/// agree; `owner` is metadata and takes no part in hand matching.
#[derive(Clone, PartialEq, Eq, Hash, Debug)]
pub struct Card {
    pub kind: String,
    pub color: String,
    pub owner: Option<PlayerId>,
}

/// The mathematical value of a `Card`.
pub struct CardV {
    pub kind: Seq<char>,
    pub color: Seq<char>,
    pub owner: Option<PlayerId>,
}

impl View for Card {
    type V = CardV;

    open spec fn view(&self) -> CardV {
        CardV { kind: self.kind@, color: self.color@, owner: self.owner }
    }
}

impl DeepView for Card {
    type V = CardV;

    open spec fn deep_view(&self) -> CardV {
        self.view()
    }
}

/// Face equality: the identity used for hand lookup and for membership in the
/// allowed set. The owner field is deliberately left out.
pub open spec fn card_matches(a: CardV, b: CardV) -> bool {
    a.kind == b.kind && a.color == b.color
}

impl Card {
    pub fn new(kind: &str, color: &str, owner: PlayerId) -> (c: Card)
        ensures
            c@.kind == kind@,
            c@.color == color@,
            c@.owner == Some(owner),
    {
        Card { kind: kind.to_owned(), color: color.to_owned(), owner: Some(owner) }
    }
}

/// Tells whether two cards show the same face.
pub fn cards_match(a: &Card, b: &Card) -> (r: bool)
    ensures
        r == card_matches(a@, b@),
{
    a.kind == b.kind && a.color == b.color
}

/// A copy of a card, same face and owner.
pub fn clone_card(c: &Card) -> (r: Card)
    ensures
        r@ == c@,
{
    Card { kind: c.kind.clone(), color: c.color.clone(), owner: c.owner }
}

/// A roster entry for one opposing participant. The participant's id is the
/// key under which the entry is held and is not repeated here.
#[derive(Clone, PartialEq, Eq, Debug)]
pub struct Player {
    pub username: String,
    pub card_count: usize,
    pub index: usize,
    pub turn: bool,
    pub next: bool,
}

/// The mathematical value of a `Player`.
pub struct PlayerV {
    pub username: Seq<char>,
    pub card_count: usize,
    pub index: usize,
    pub turn: bool,
    pub next: bool,
}

impl View for Player {
    type V = PlayerV;

    open spec fn view(&self) -> PlayerV {
        PlayerV {
            username: self.username@,
            card_count: self.card_count,
            index: self.index,
            turn: self.turn,
            next: self.next,
        }
    }
}

impl Player {
    pub fn new(username: String, card_count: usize, index: usize) -> (p: Player)
        ensures
            p@ == (PlayerV {
                username: username@,
                card_count: card_count,
                index: index,
                turn: false,
                next: false,
            }),
    {
        Player { username, card_count, index, turn: false, next: false }
    }
}

/// Counters reported by the server at the end of a game. Times are seconds
/// since the epoch; they are compared and subtracted, never read as calendar
/// dates, so a plain number carries them.
#[derive(Clone, Copy, PartialEq, Eq, Debug, Structural)]
pub struct GameStatistics {
    pub start_time: Option<u64>,
    pub end_time: Option<u64>,
    pub player_count: usize,
    pub spectator_count: usize,
    pub cards_placed: usize,
    pub cards_drawn: usize,
}

impl GameStatistics {
    pub fn new() -> (s: GameStatistics)
        ensures
            s == (GameStatistics {
                start_time: None,
                end_time: None,
                player_count: 0,
                spectator_count: 0,
                cards_placed: 0,
                cards_drawn: 0,
            }),
    {
        GameStatistics {
            start_time: None,
            end_time: None,
            player_count: 0,
            spectator_count: 0,
            cards_placed: 0,
            cards_drawn: 0,
        }
    }

    /// How long the game lasted, in whole seconds: defined exactly when both
    /// times are present and in order.
    pub fn duration_seconds(&self) -> (d: Option<u64>)
        ensures
            d == (match (self.start_time, self.end_time) {
                (Some(s), Some(e)) => if s <= e {
                    Some((e - s) as u64)
                } else {
                    None::<u64>
                },
                _ => None::<u64>,
            }),
    {
        match (self.start_time, self.end_time) {
            (Some(s), Some(e)) => if s <= e {
                Some(e - s)
            } else {
                None
            },
            _ => None,
        }
    }
}

impl Default for GameStatistics {
    fn default() -> (s: GameStatistics)
        ensures
            s == (GameStatistics {
                start_time: None,
                end_time: None,
                player_count: 0,
                spectator_count: 0,
                cards_placed: 0,
                cards_drawn: 0,
            }),
    {
        GameStatistics::new()
    }
}

/// Splits a duration in seconds into whole minutes and leftover seconds, the
/// shape in which an elapsed time is displayed.
pub fn duration_parts(seconds: u64) -> (p: (u64, u64))
    ensures
        p.0 == seconds / 60,
        p.1 == seconds % 60,
{
    (seconds / 60, seconds % 60)
}

/// The final standing of a finished game, stored once and then frozen.
#[derive(Clone, PartialEq, Eq, Debug)]
pub struct EndStatus {
    pub winner_id: PlayerId,
    pub winner: String,
    pub placements: Vec<String>,
    pub statistics: GameStatistics,
}

/// The mathematical value of an `EndStatus`.
pub struct EndStatusV {
    pub winner_id: PlayerId,
    pub winner: Seq<char>,
    pub placements: Seq<Seq<char>>,
    pub statistics: GameStatistics,
}

impl View for EndStatus {
    type V = EndStatusV;

    open spec fn view(&self) -> EndStatusV {
        EndStatusV {
            winner_id: self.winner_id,
            winner: self.winner@,
            placements: self.placements.deep_view(),
            statistics: self.statistics,
        }
    }
}

impl DeepView for EndStatus {
    type V = EndStatusV;

    open spec fn deep_view(&self) -> EndStatusV {
        self.view()
    }
}

/// The rank a placement entry displays under: the winner is rank 1 and is not
/// repeated in the placement list, so the entry at `position` ranks two later.
pub fn placement_rank(position: usize) -> (r: usize)
    requires
        position + 2 <= usize::MAX,
    ensures
        r == position + 2,
{
    position + 2
}

/// The digit character of one decimal digit.
pub open spec fn digit_char(d: nat) -> char {
    if d == 0 {
        '0'
    } else if d == 1 {
        '1'
    } else if d == 2 {
        '2'
    } else if d == 3 {
        '3'
    } else if d == 4 {
        '4'
    } else if d == 5 {
        '5'
    } else if d == 6 {
        '6'
    } else if d == 7 {
        '7'
    } else if d == 8 {
        '8'
    } else {
        '9'
    }
}

/// The decimal writing of a number: most significant digit first, no sign, no
/// leading zero but for the number zero itself.
pub open spec fn dec_digits(n: nat) -> Seq<char>
    decreases n,
{
    if n < 10 {
        seq![digit_char(n)]
    } else {
        dec_digits(n / 10).push(digit_char(n % 10))
    }
}

/// One decimal digit as text.
fn digit_str(d: usize) -> (r: &'static str)
    requires
        d < 10,
    ensures
        r@ =~= seq![digit_char(d as nat)],
{
    proof {
        reveal_strlit("0");
        reveal_strlit("1");
        reveal_strlit("2");
        reveal_strlit("3");
        reveal_strlit("4");
        reveal_strlit("5");
        reveal_strlit("6");
        reveal_strlit("7");
        reveal_strlit("8");
        reveal_strlit("9");
    }
    match d {
        0 => "0",
        1 => "1",
        2 => "2",
        3 => "3",
        4 => "4",
        5 => "5",
        6 => "6",
        7 => "7",
        8 => "8",
        _ => "9",
    }
}

/// A number written in decimal.
pub fn decimal_string(n: usize) -> (r: String)
    ensures
        r@ == dec_digits(n as nat),
{
    let mut digits: Vec<usize> = Vec::new();
    let mut m: usize = n;
    proof {
        assert(dec_digits(n as nat) =~= dec_digits(m as nat) + low_digits(digits@));
    }
    loop
        invariant_except_break
            dec_digits(n as nat) == dec_digits(m as nat) + low_digits(digits@),
        invariant
            forall|k: int| 0 <= k < digits@.len() ==> #[trigger] digits@[k] < 10,
        ensures
            forall|k: int| 0 <= k < digits@.len() ==> #[trigger] digits@[k] < 10,
            dec_digits(n as nat) == low_digits(digits@),
        decreases m,
    {
        let d = m % 10;
        let ghost pre = digits@;
        digits.push(d);
        proof {
            assert(digits@.drop_last() =~= pre);
            assert(digits@.last() == d);
            assert(low_digits(digits@) =~= seq![digit_char(d as nat)] + low_digits(pre));
        }
        if m < 10 {
            proof {
                assert(dec_digits(m as nat) =~= seq![digit_char(m as nat)]);
                assert(dec_digits(n as nat) =~= low_digits(digits@));
            }
            break ;
        }
        proof {
            assert(dec_digits(m as nat) == dec_digits((m / 10) as nat).push(
                digit_char((m % 10) as nat),
            ));
            assert(dec_digits((m / 10) as nat).push(digit_char(d as nat)) =~= dec_digits(
                (m / 10) as nat,
            ) + seq![digit_char(d as nat)]);
            assert(dec_digits((m / 10) as nat) + seq![digit_char(d as nat)] + low_digits(pre)
                =~= dec_digits((m / 10) as nat) + low_digits(digits@));
        }
        m = m / 10;
    }
    let mut r = String::new();
    let mut i: usize = digits.len();
    proof {
        assert(digits@.take(i as int) =~= digits@);
        assert(r@ + low_digits(digits@) =~= low_digits(digits@));
    }
    while i > 0
        invariant
            i <= digits@.len(),
            forall|k: int| 0 <= k < digits@.len() ==> #[trigger] digits@[k] < 10,
            r@ + low_digits(digits@.take(i as int)) == low_digits(digits@),
        decreases i,
    {
        i = i - 1;
        let s = digit_str(digits[i]);
        r.append(s);
        proof {
            assert(digits@.take(i + 1).drop_last() =~= digits@.take(i as int));
            assert(digits@.take(i + 1).last() == digits@[i as int]);
            assert(low_digits(digits@.take(i + 1)) =~= seq![
                digit_char(digits@[i as int] as nat),
            ] + low_digits(digits@.take(i as int)));
            assert(r@ + low_digits(digits@.take(i as int)) =~= low_digits(digits@));
        }
    }
    proof {
        assert(digits@.take(0) =~= Seq::<usize>::empty());
        assert(r@ =~= r@ + low_digits(digits@.take(0)));
        assert(r@ =~= dec_digits(n as nat));
    }
    r
}

/// Digits collected least significant first, read back into writing order.
pub open spec fn low_digits(ds: Seq<usize>) -> Seq<char>
    decreases ds.len(),
{
    if ds.len() == 0 {
        Seq::empty()
    } else {
        seq![digit_char((ds.last() % 10) as nat)] + low_digits(ds.drop_last())
    }
}

/// One line of the final standing: the rank, a separator, the username, as
/// the end screen shows it.
pub fn placement_line(position: usize, username: &str) -> (r: String)
    requires
        position + 2 <= usize::MAX,
    ensures
        r@ == dec_digits((position + 2) as nat) + ". "@ + username@,
{
    let rank = position + 2;
    let mut r = decimal_string(rank);
    r.append(". ");
    r.append(username);
    r
}

} // verus!
