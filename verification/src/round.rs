//! What a round of blackjack does to the table, stated as functions from the
//! table and an event to the table afterwards.
//!
//! The table has ten places for cards: the player's five, then the dealer's
//! five. A card that is drawn leaves the deck.

use vstd::prelude::*;
use crate::cards::{dealer_wins, hand_after, name_bytes, playable, player_wins, standard_deck};

verus! {

/// What the table tells the player.
#[derive(Clone, Copy, Debug, PartialEq, Eq, Structural)]
pub enum Notice {
    /// Nothing.
    Blank,
    /// The bet is higher than the player's chips.
    NotEnoughChips,
    /// The bet is zero or negative.
    InvalidBet,
    /// The bet is not a number.
    UnreadableBet,
    /// The player lost the round.
    YouLose,
    /// The player won the round.
    YouWin,
    /// Nobody won the round.
    YouDraw,
    /// The player has no chips left.
    NoMoreChips,
}

/// The table.
pub struct Table {
    /// The names of the cards that can still be drawn.
    pub deck: Seq<Seq<char>>,
    /// The name of the image at each of the ten places.
    pub slots: Seq<Seq<char>>,
    /// The value of the player's hand.
    pub pvalue: i32,
    /// The value of the dealer's hand.
    pub dvalue: i32,
    /// The number of the player's next card, from 3 to 5.
    pub turn: u8,
    /// The number of the dealer's next card, from 2 to 5.
    pub dturn: u8,
    pub chips: i32,
    pub bet: i32,
    /// The chips at the last bet or loss; the end of the chips is announced
    /// once for each value of it.
    pub prebet: i32,
    pub start_enabled: bool,
    pub hit_enabled: bool,
    pub stand_enabled: bool,
    pub reset_enabled: bool,
    /// The chips as last written out, if they were.
    pub chips_shown: Option<i32>,
    /// The player's hand as last written out, if it was.
    pub player_shown: Option<i32>,
    /// The dealer's hand as last written out, if it was.
    pub dealer_shown: Option<i32>,
    pub notice: Notice,
}

/// The name of the image of a card's back.
pub open spec fn back_name() -> Seq<char> {
    "assets/backcard.png"@
}

/// Ten places that all show a card's back.
pub open spec fn all_backs() -> Seq<Seq<char>> {
    Seq::new(10, |i: int| back_name())
}

/// The deck without every card of the given name.
pub open spec fn without(deck: Seq<Seq<char>>, card: Seq<char>) -> Seq<Seq<char>>
    decreases deck.len(),
{
    if deck.len() == 0 {
        deck
    } else if deck.last() == card {
        without(deck.drop_last(), card)
    } else {
        without(deck.drop_last(), card).push(deck.last())
    }
}

/// Whether every card of the deck is playable.
pub open spec fn all_playable(deck: Seq<Seq<char>>) -> bool {
    forall|i: int| 0 <= i < deck.len() ==> playable(#[trigger] deck[i])
}

/// What always holds of a table: ten places, a deck of playable cards, turns
/// and hands within their bounds, no debt, and no round going on while a new
/// one can be started.
pub open spec fn valid(t: Table) -> bool {
    &&& t.slots.len() == 10
    &&& all_playable(t.deck)
    &&& 3 <= t.turn <= 5
    &&& 2 <= t.dturn <= 5
    &&& 0 <= t.pvalue <= 297
    &&& 0 <= t.dvalue <= 116
    &&& t.chips >= 0
    &&& t.start_enabled ==> t.pvalue == 0 && t.dvalue == 0 && !t.hit_enabled && !t.stand_enabled
    &&& t.hit_enabled ==> t.pvalue <= 198
    &&& t.stand_enabled ==> t.dvalue <= 99 && t.bet > 0
}

/// The table before the first round: 500 chips, a full deck, and only the
/// start button enabled.
pub open spec fn opening() -> Table {
    Table {
        deck: standard_deck(),
        slots: all_backs(),
        pvalue: 0,
        dvalue: 0,
        turn: 3,
        dturn: 2,
        chips: 500,
        bet: 0,
        prebet: 0,
        start_enabled: true,
        hit_enabled: false,
        stand_enabled: false,
        reset_enabled: false,
        chips_shown: None,
        player_shown: None,
        dealer_shown: None,
        notice: Notice::Blank,
    }
}

/// The player takes a card to the given place.
pub open spec fn player_takes(t: Table, place: int, card: Seq<char>) -> Table {
    Table {
        deck: without(t.deck, card),
        slots: t.slots.update(place, card),
        pvalue: hand_after(t.pvalue as int, name_bytes(card)) as i32,
        ..t
    }
}

/// The dealer takes a card to the given place.
pub open spec fn dealer_takes(t: Table, place: int, card: Seq<char>) -> Table {
    Table {
        deck: without(t.deck, card),
        slots: t.slots.update(place, card),
        dvalue: hand_after(t.dvalue as int, name_bytes(card)) as i32,
        ..t
    }
}

/// Why a bet is refused, if it is: it is not a number, it is higher than the
/// chips, or it is not positive.
pub open spec fn bet_refusal(t: Table, amount: Option<i32>) -> Option<Notice> {
    match amount {
        None => Some(Notice::UnreadableBet),
        Some(bet) => if t.chips < bet && bet > 0 {
            Some(Notice::NotEnoughChips)
        } else if bet <= 0 {
            Some(Notice::InvalidBet)
        } else {
            None
        },
    }
}

/// The table after a refused bet: the refusal is told, and a bet that is not
/// positive is remembered all the same.
pub open spec fn bet_refused(t: Table, amount: Option<i32>) -> Table {
    Table {
        prebet: t.chips,
        bet: match amount {
            Some(bet) => if bet <= 0 {
                bet
            } else {
                t.bet
            },
            None => t.bet,
        },
        notice: bet_refusal(t, amount)->Some_0,
        ..t
    }
}

/// Whether three cards can be drawn one after the other.
pub open spec fn cards_follow(deck: Seq<Seq<char>>, first: Seq<char>, second: Seq<char>, third: Seq<char>) -> bool {
    &&& deck.contains(first)
    &&& without(deck, first).contains(second)
    &&& without(without(deck, first), second).contains(third)
}

/// The table after an accepted bet: the bet is paid, the player gets two
/// cards and the dealer one, and the round is on.
pub open spec fn dealt(t: Table, bet: i32, first: Seq<char>, second: Seq<char>, third: Seq<char>) -> Table {
    let paid = Table {
        prebet: t.chips,
        notice: Notice::Blank,
        bet,
        chips: (t.chips - bet) as i32,
        chips_shown: Some((t.chips - bet) as i32),
        stand_enabled: true,
        hit_enabled: true,
        ..t
    };
    let full = dealer_takes(player_takes(player_takes(paid, 0, first), 1, second), 5, third);
    Table {
        start_enabled: false,
        dealer_shown: Some(full.dvalue),
        player_shown: Some(full.pvalue),
        ..full
    }
}

/// The table after the start button was pressed with the given bet and the
/// given cards drawn. A disabled button does nothing.
pub open spec fn after_start(
    t: Table,
    amount: Option<i32>,
    first: Seq<char>,
    second: Seq<char>,
    third: Seq<char>,
) -> Table {
    if !t.start_enabled {
        t
    } else if bet_refusal(t, amount) is Some {
        bet_refused(t, amount)
    } else {
        dealt(t, amount->Some_0, first, second, third)
    }
}

/// The table after the player took one more card. The third and fourth card
/// have their places; every later card takes the fifth. A hand over 21 loses
/// the round.
pub open spec fn after_hit(t: Table, card: Seq<char>) -> Table {
    if !t.hit_enabled {
        t
    } else {
        let taken = player_takes(t, t.turn - 1, card);
        let turned = Table {
            turn: if t.turn < 5 {
                (t.turn + 1) as u8
            } else {
                t.turn
            },
            player_shown: Some(taken.pvalue),
            ..taken
        };
        if taken.pvalue > 21 {
            Table {
                hit_enabled: false,
                stand_enabled: false,
                reset_enabled: true,
                prebet: t.chips,
                notice: Notice::YouLose,
                ..turned
            }
        } else {
            turned
        }
    }
}

/// The dealer takes one more card. The second to fourth card have their
/// places; every later card takes the fifth.
pub open spec fn dealer_turn(t: Table, card: Seq<char>) -> Table {
    let taken = dealer_takes(t, t.dturn + 4, card);
    Table {
        dturn: if t.dturn < 5 {
            (t.dturn + 1) as u8
        } else {
            t.dturn
        },
        ..taken
    }
}

/// The dealer takes the given cards one after the other.
pub open spec fn dealer_plays(t: Table, cards: Seq<Seq<char>>) -> Table
    decreases cards.len(),
{
    if cards.len() == 0 {
        t
    } else {
        dealer_plays(dealer_turn(t, cards[0]), cards.drop_first())
    }
}

/// Whether the dealer can take the given cards one after the other: each is
/// in the deck when it is drawn, and is drawn because the dealer stands
/// below 18.
pub open spec fn dealer_can_take(t: Table, cards: Seq<Seq<char>>) -> bool
    decreases cards.len(),
{
    cards.len() > 0 ==> {
        &&& t.dvalue < 18
        &&& t.deck.contains(cards[0])
        &&& dealer_can_take(dealer_turn(t, cards[0]), cards.drop_first())
    }
}

/// Whether the given cards are what the dealer draws: the dealer can take
/// them and then stands at 18 or more.
pub open spec fn dealer_draws(t: Table, cards: Seq<Seq<char>>) -> bool {
    dealer_can_take(t, cards) && dealer_plays(t, cards).dvalue >= 18
}

/// Whether the dealer, after taking the given cards, still stands below 18
/// and so needs one more.
pub open spec fn dealer_needs_more(t: Table, cards: Seq<Seq<char>>) -> bool {
    dealer_can_take(t, cards) && dealer_plays(t, cards).dvalue < 18
}

/// Whether the given cards are what the dealer draws and settling the round
/// after them would take the chips beyond 32 bits.
pub open spec fn payout_overflows(t: Table, cards: Seq<Seq<char>>) -> bool {
    dealer_draws(t, cards) && payout(dealer_plays(t, cards)) > i32::MAX
}

/// What the player's chips become when the round is settled: the bet comes
/// back twice to the winner, once after a draw, and not at all to the loser.
pub open spec fn payout(t: Table) -> int {
    if player_wins(t.pvalue as int, t.dvalue as int) {
        t.chips + 2 * t.bet
    } else if dealer_wins(t.pvalue as int, t.dvalue as int) {
        t.chips as int
    } else {
        t.chips + t.bet
    }
}

/// The table after the round was settled.
pub open spec fn settled(t: Table) -> Table {
    let shown = Table { dealer_shown: Some(t.dvalue), reset_enabled: true, ..t };
    if player_wins(t.pvalue as int, t.dvalue as int) {
        Table {
            chips: payout(t) as i32,
            chips_shown: Some(payout(t) as i32),
            notice: Notice::YouWin,
            ..shown
        }
    } else if dealer_wins(t.pvalue as int, t.dvalue as int) {
        Table { prebet: t.chips, notice: Notice::YouLose, ..shown }
    } else {
        Table {
            chips: payout(t) as i32,
            chips_shown: Some(payout(t) as i32),
            notice: Notice::YouDraw,
            ..shown
        }
    }
}

/// The table once the player stands: no more cards for the player.
pub open spec fn standing(t: Table) -> Table {
    Table { stand_enabled: false, hit_enabled: false, ..t }
}

/// The table after the player stood and the dealer drew the given cards. A
/// disabled button does nothing.
pub open spec fn after_stand(t: Table, cards: Seq<Seq<char>>) -> Table {
    if !t.stand_enabled {
        t
    } else {
        settled(dealer_plays(standing(t), cards))
    }
}

/// The table cleared for a new round: cards turned over, hands empty, no
/// bet, and only the start button enabled.
pub open spec fn cleared(t: Table) -> Table {
    Table {
        slots: all_backs(),
        pvalue: 0,
        dvalue: 0,
        turn: 3,
        dturn: 2,
        bet: 0,
        start_enabled: true,
        hit_enabled: false,
        stand_enabled: false,
        reset_enabled: false,
        player_shown: Some(0i32),
        dealer_shown: Some(0i32),
        notice: Notice::Blank,
        ..t
    }
}

/// The table after the reset button was pressed: cleared, and with a full
/// deck again where at most 10 cards were left. A disabled button does
/// nothing.
pub open spec fn after_reset(t: Table) -> Table {
    if !t.reset_enabled {
        t
    } else if t.deck.len() <= 10 {
        Table { deck: standard_deck(), ..cleared(t) }
    } else {
        cleared(t)
    }
}

/// Whether the end of the chips is to be announced: there are none, and the
/// bet differs from the chips at the last bet or loss.
pub open spec fn out_of_chips(t: Table) -> bool {
    t.chips == 0 && t.bet != t.prebet
}

/// The table after the chips were looked at.
pub open spec fn after_chip_check(t: Table) -> Table {
    if out_of_chips(t) {
        Table { prebet: t.bet, notice: Notice::NoMoreChips, ..t }
    } else {
        t
    }
}

/// The table after the player chose to play again: cleared, with 500 chips.
pub open spec fn restarted(t: Table) -> Table {
    Table { chips: 500, chips_shown: Some(500i32), ..cleared(t) }
}

/// Removing a card leaves cards of the deck only, none of the removed name,
/// and fewer cards where the name was in the deck.
pub proof fn lemma_without(deck: Seq<Seq<char>>, card: Seq<char>)
    ensures
        without(deck, card).len() <= deck.len(),
        deck.contains(card) ==> without(deck, card).len() < deck.len(),
        !without(deck, card).contains(card),
        forall|i: int|
            0 <= i < without(deck, card).len() ==> deck.contains(#[trigger] without(deck, card)[i]),
        all_playable(deck) ==> all_playable(without(deck, card)),
    decreases deck.len(),
{
    if deck.len() > 0 {
        let shorter = deck.drop_last();
        lemma_without(shorter, card);
        let rest = without(deck, card);
        assert forall|i: int| 0 <= i < rest.len() implies deck.contains(#[trigger] rest[i]) by {
            if i < without(shorter, card).len() {
                let j = choose|j: int| 0 <= j < shorter.len() && shorter[j] == without(shorter, card)[i];
                assert(deck[j] == rest[i]);
            } else {
                assert(deck[deck.len() - 1] == rest[i]);
            }
        }
        if deck.contains(card) && deck.last() != card {
            let j = choose|j: int| 0 <= j < deck.len() && deck[j] == card;
            assert(shorter[j] == card);
        }
        if all_playable(deck) {
            assert forall|i: int| 0 <= i < rest.len() implies playable(#[trigger] rest[i]) by {
                let j = choose|j: int| 0 <= j < deck.len() && deck[j] == rest[i];
                assert(playable(deck[j]));
            }
        }
    }
}

/// A dealer who stands at 18 or more takes no card: whatever the dealer can
/// take is nothing, and the dealer does not need more.
pub proof fn lemma_dealer_stands(t: Table, cards: Seq<Seq<char>>)
    requires
        t.dvalue >= 18,
    ensures
        dealer_can_take(t, cards) ==> cards.len() == 0 && dealer_plays(t, cards) == t,
        !dealer_needs_more(t, cards),
{
}

/// The dealer's cards change the deck, the places, the dealer's hand and the
/// dealer's turn, and nothing else.
pub proof fn lemma_dealer_keeps(t: Table, cards: Seq<Seq<char>>)
    ensures
        dealer_plays(t, cards) == (Table {
            deck: dealer_plays(t, cards).deck,
            slots: dealer_plays(t, cards).slots,
            dvalue: dealer_plays(t, cards).dvalue,
            dturn: dealer_plays(t, cards).dturn,
            ..t
        }),
    decreases cards.len(),
{
    if cards.len() > 0 {
        lemma_dealer_keeps(dealer_turn(t, cards[0]), cards.drop_first());
    }
}

/// Taking the cards and then one more is taking them all.
pub proof fn lemma_dealer_takes_one_more(t: Table, cards: Seq<Seq<char>>, card: Seq<char>)
    ensures
        dealer_plays(t, cards.push(card)) == dealer_turn(dealer_plays(t, cards), card),
        dealer_can_take(t, cards.push(card)) == (dealer_can_take(t, cards) && dealer_plays(t, cards).dvalue < 18
            && dealer_plays(t, cards).deck.contains(card)),
    decreases cards.len(),
{
    let longer = cards.push(card);
    let next = dealer_turn(t, longer[0]);
    assert(dealer_plays(t, longer) == dealer_plays(next, longer.drop_first()));
    assert(dealer_can_take(t, longer) == (t.dvalue < 18 && t.deck.contains(longer[0]) && dealer_can_take(
        next,
        longer.drop_first(),
    )));
    if cards.len() == 0 {
        assert(longer.drop_first() =~= cards);
        assert(dealer_plays(next, cards) == next);
        assert(dealer_can_take(next, cards));
        assert(dealer_plays(t, cards) == t);
        assert(dealer_can_take(t, cards));
    } else {
        assert(longer.drop_first() =~= cards.drop_first().push(card));
        assert(longer[0] == cards[0]);
        lemma_dealer_takes_one_more(next, cards.drop_first(), card);
    }
}

} // verus!
