//! A table of blackjack that is played event by event: the caller reports a
//! pressed button or an answered question, and the table moves on.
//!
//! Cards are drawn at random. For every event that draws there is a function
//! that takes the drawn cards as arguments and says exactly what follows,
//! and one that draws by itself.

use vstd::prelude::*;
use macroquad::rand::ChooseRandom;
use crate::bet::{bet_of, read_bet};
use crate::cards::{
    add_card,
    deck_reset,
    dwincheck,
    lemma_playable_points,
    lemma_standard_deck_playable,
    names_of,
    pwincheck,
};
use crate::messagebox::MessageBoxResult;
use crate::round::{
    Notice,
    Table,
    after_chip_check,
    after_hit,
    after_reset,
    after_stand,
    after_start,
    all_backs,
    all_playable,
    back_name,
    bet_refusal,
    cards_follow,
    dealer_can_take,
    dealer_draws,
    dealer_needs_more,
    dealer_plays,
    dealer_takes,
    dealer_turn,
    lemma_dealer_keeps,
    lemma_dealer_stands,
    lemma_dealer_takes_one_more,
    lemma_without,
    opening,
    out_of_chips,
    payout,
    payout_overflows,
    player_takes,
    restarted,
    standing,
    valid,
    without,
};

verus! {

/// Why an event could not be carried out.
#[derive(Clone, Copy, Debug, PartialEq, Eq, Structural)]
pub enum Stuck {
    /// No card could be drawn.
    DeckRanOut,
    /// The winnings do not fit in 32 bits.
    ChipsOverflow,
}

/// A table of blackjack.
#[derive(Debug)]
pub struct Game {
    deck: Vec<String>,
    slots: Vec<String>,
    pvalue: i32,
    dvalue: i32,
    turn: u8,
    dturn: u8,
    chips: i32,
    bet: i32,
    prebet: i32,
    start_enabled: bool,
    hit_enabled: bool,
    stand_enabled: bool,
    reset_enabled: bool,
    chips_shown: Option<i32>,
    player_shown: Option<i32>,
    dealer_shown: Option<i32>,
    notice: Notice,
}

impl View for Game {
    type V = Table;

    closed spec fn view(&self) -> Table {
        Table {
            deck: names_of(self.deck@),
            slots: names_of(self.slots@),
            pvalue: self.pvalue,
            dvalue: self.dvalue,
            turn: self.turn,
            dturn: self.dturn,
            chips: self.chips,
            bet: self.bet,
            prebet: self.prebet,
            start_enabled: self.start_enabled,
            hit_enabled: self.hit_enabled,
            stand_enabled: self.stand_enabled,
            reset_enabled: self.reset_enabled,
            chips_shown: self.chips_shown,
            player_shown: self.player_shown,
            dealer_shown: self.dealer_shown,
            notice: self.notice,
        }
    }
}

/// Calls `choose` of macroquad's `rand::ChooseRandom`, which picks an index
/// at random and returns the item at it, or nothing where the index is
/// beyond the end. Believed of it, not proved: what it returns is an item of
/// the deck. Whether it returns one is left open.
#[verifier::external_body]
fn choose_card(deck: &Vec<String>) -> (card: Option<&String>)
    ensures
        card matches Some(name) ==> names_of(deck@).contains(name@),
{
    deck.choose()
}

/// A card of a deck of playable cards is playable.
proof fn lemma_card_of_deck(deck: Seq<Seq<char>>, card: Seq<char>)
    requires
        all_playable(deck),
        deck.contains(card),
    ensures
        crate::cards::playable(card),
{
    let i = choose|i: int| 0 <= i < deck.len() && deck[i] == card;
    assert(crate::cards::playable(deck[i]));
}

/// The cards the dealer can take include those the dealer takes first.
proof fn lemma_dealer_prefix(t: Table, cards: Seq<Seq<char>>, cut: int)
    requires
        dealer_can_take(t, cards),
        0 <= cut <= cards.len(),
    ensures
        dealer_can_take(t, cards.subrange(0, cut)),
    decreases cards.len() - cut,
{
    if cut == cards.len() {
        assert(cards.subrange(0, cut) =~= cards);
    } else {
        lemma_dealer_prefix(t, cards, cut + 1);
        assert(cards.subrange(0, cut + 1) =~= cards.subrange(0, cut).push(cards[cut]));
        lemma_dealer_takes_one_more(t, cards.subrange(0, cut), cards[cut]);
    }
}

/// The deck without every card of the given name.
pub fn remove_card(deck: &Vec<String>, card: &String) -> (rest: Vec<String>)
    ensures
        names_of(rest@) == without(names_of(deck@), card@),
{
    let mut rest: Vec<String> = Vec::new();
    let mut index: usize = 0;
    assert(names_of(deck@).subrange(0, 0) =~= Seq::<Seq<char>>::empty());
    assert(names_of(rest@) =~= Seq::<Seq<char>>::empty());
    while index < deck.len()
        invariant
            index <= deck@.len(),
            names_of(rest@) == without(names_of(deck@).subrange(0, index as int), card@),
        decreases deck@.len() - index,
    {
        let ghost shorter = names_of(deck@).subrange(0, index as int);
        let ghost longer = names_of(deck@).subrange(0, index + 1);
        let ghost before = names_of(rest@);
        assert(longer.drop_last() =~= shorter);
        assert(longer.last() == deck@[index as int]@);
        if deck[index] != *card {
            rest.push(deck[index].clone());
            assert(names_of(rest@) =~= before.push(deck@[index as int]@));
        }
        index = index + 1;
    }
    assert(names_of(deck@).subrange(0, deck@.len() as int) =~= names_of(deck@));
    rest
}

/// A copy of a row of names.
pub fn copy_names(names: &Vec<String>) -> (copy: Vec<String>)
    ensures
        names_of(copy@) == names_of(names@),
{
    let mut copy: Vec<String> = Vec::with_capacity(names.len());
    let mut index: usize = 0;
    while index < names.len()
        invariant
            index <= names@.len(),
            copy@.len() == index,
            forall|i: int| 0 <= i < index ==> (#[trigger] copy@[i])@ == names@[i]@,
        decreases names@.len() - index,
    {
        copy.push(names[index].clone());
        index = index + 1;
    }
    assert(names_of(copy@) =~= names_of(names@));
    copy
}

/// Ten places that all show a card's back.
pub fn card_backs() -> (slots: Vec<String>)
    ensures
        names_of(slots@) == all_backs(),
{
    let mut slots: Vec<String> = Vec::with_capacity(10);
    let mut index: usize = 0;
    while index < 10
        invariant
            index <= 10,
            slots@.len() == index,
            forall|i: int| 0 <= i < index ==> (#[trigger] slots@[i])@ == back_name(),
        decreases 10 - index,
    {
        slots.push("assets/backcard.png".to_owned());
        index = index + 1;
    }
    assert(names_of(slots@) =~= all_backs());
    slots
}

impl Game {
    /// The table before the first round.
    pub fn new() -> (game: Game)
        ensures
            game@ == opening(),
            valid(game@),
    {
        proof {
            lemma_standard_deck_playable();
        }
        Game {
            deck: deck_reset(),
            slots: card_backs(),
            pvalue: 0,
            dvalue: 0,
            turn: 3,
            dturn: 2,
            chips: 500,
            bet: 0,
            prebet: 0,
            start_enabled: true,
            hit_enabled: false,
            stand_enabled: false,
            reset_enabled: false,
            chips_shown: None,
            player_shown: None,
            dealer_shown: None,
            notice: Notice::Blank,
        }
    }

    /// The player takes a card to the given place.
    fn player_draw(&mut self, place: usize, card: &String)
        requires
            old(self)@.slots.len() == 10,
            all_playable(old(self)@.deck),
            place < 10,
            old(self)@.deck.contains(card@),
            0 <= old(self)@.pvalue <= 198,
        ensures
            final(self)@ == player_takes(old(self)@, place as int, card@),
            final(self)@.pvalue <= old(self)@.pvalue + 99,
            final(self)@.pvalue >= 0,
            all_playable(final(self)@.deck),
            final(self)@.slots.len() == 10,
    {
        proof {
            lemma_card_of_deck(self@.deck, card@);
            lemma_playable_points(self.pvalue as int, card@);
            lemma_without(self@.deck, card@);
        }
        let ghost slots = self@.slots;
        self.pvalue = add_card(self.pvalue, card.as_str());
        self.deck = remove_card(&self.deck, card);
        self.slots.set(place, card.clone());
        assert(names_of(self.slots@) =~= slots.update(place as int, card@));
    }

    /// The dealer takes a card to the given place.
    fn dealer_draw(&mut self, place: usize, card: &String)
        requires
            old(self)@.slots.len() == 10,
            all_playable(old(self)@.deck),
            place < 10,
            old(self)@.deck.contains(card@),
            0 <= old(self)@.dvalue <= 99,
        ensures
            final(self)@ == dealer_takes(old(self)@, place as int, card@),
            final(self)@.dvalue <= old(self)@.dvalue + 99,
            final(self)@.dvalue >= 0,
            all_playable(final(self)@.deck),
            final(self)@.slots.len() == 10,
    {
        proof {
            lemma_card_of_deck(self@.deck, card@);
            lemma_playable_points(self.dvalue as int, card@);
            lemma_without(self@.deck, card@);
        }
        let ghost slots = self@.slots;
        self.dvalue = add_card(self.dvalue, card.as_str());
        self.deck = remove_card(&self.deck, card);
        self.slots.set(place, card.clone());
        assert(names_of(self.slots@) =~= slots.update(place as int, card@));
    }

    /// The start button was pressed with the bet `amount`, and the three
    /// cards were drawn one after the other: two for the player, one for the
    /// dealer.
    pub fn start_with(&mut self, amount: Option<i32>, first: &String, second: &String, third: &String)
        requires
            valid(old(self)@),
            old(self)@.start_enabled && bet_refusal(old(self)@, amount) is None ==> cards_follow(
                old(self)@.deck,
                first@,
                second@,
                third@,
            ),
        ensures
            final(self)@ == after_start(old(self)@, amount, first@, second@, third@),
            valid(final(self)@),
    {
        if !self.start_enabled {
            return;
        }
        self.prebet = self.chips;
        self.notice = Notice::Blank;
        match amount {
            None => {
                self.notice = Notice::UnreadableBet;
            },
            Some(bet) => {
                if self.chips < bet && bet > 0 {
                    self.notice = Notice::NotEnoughChips;
                } else {
                    self.bet = bet;
                    if self.bet <= 0 {
                        self.notice = Notice::InvalidBet;
                    } else {
                        self.chips = self.chips - self.bet;
                        self.chips_shown = Some(self.chips);
                        self.stand_enabled = true;
                        self.hit_enabled = true;
                        self.player_draw(0, first);
                        self.player_draw(1, second);
                        self.dealer_draw(5, third);
                        self.start_enabled = false;
                        self.dealer_shown = Some(self.dvalue);
                        self.player_shown = Some(self.pvalue);
                    }
                }
            },
        }
    }

    /// The start button was pressed with `text` in the bet field. Where the
    /// bet is accepted, three cards are drawn at random.
    pub fn start(&mut self, text: &str) -> (done: Result<(), Stuck>)
        requires
            valid(old(self)@),
        ensures
            done is Ok ==> exists|first: Seq<char>, second: Seq<char>, third: Seq<char>|
                {
                    &&& old(self)@.start_enabled && bet_refusal(old(self)@, bet_of(text@)) is None
                        ==> cards_follow(old(self)@.deck, first, second, third)
                    &&& final(self)@ == #[trigger] after_start(old(self)@, bet_of(text@), first, second, third)
                },
            done is Err ==> done == Err::<(), Stuck>(Stuck::DeckRanOut) && final(self)@ == old(self)@,
            valid(final(self)@),
    {
        let amount = read_bet(text);
        let back: String = "assets/backcard.png".to_owned();
        let accepted: bool = self.start_enabled && match amount {
            Some(bet) => bet > 0 && bet <= self.chips,
            None => false,
        };
        if !accepted {
            self.start_with(amount, &back, &back, &back);
            return Ok(());
        }
        let first: String = match choose_card(&self.deck) {
            Some(card) => card.clone(),
            None => {
                return Err(Stuck::DeckRanOut);
            },
        };
        let after_first = remove_card(&self.deck, &first);
        let second: String = match choose_card(&after_first) {
            Some(card) => card.clone(),
            None => {
                return Err(Stuck::DeckRanOut);
            },
        };
        let after_second = remove_card(&after_first, &second);
        let third: String = match choose_card(&after_second) {
            Some(card) => card.clone(),
            None => {
                return Err(Stuck::DeckRanOut);
            },
        };
        self.start_with(amount, &first, &second, &third);
        Ok(())
    }

    /// The hit button was pressed and the card was drawn.
    pub fn hit_with(&mut self, card: &String)
        requires
            valid(old(self)@),
            old(self)@.hit_enabled ==> old(self)@.deck.contains(card@),
        ensures
            final(self)@ == after_hit(old(self)@, card@),
            valid(final(self)@),
    {
        if !self.hit_enabled {
            return;
        }
        let place: usize = (self.turn - 1) as usize;
        self.player_draw(place, card);
        if self.turn < 5 {
            self.turn = self.turn + 1;
        }
        self.player_shown = Some(self.pvalue);
        if self.pvalue > 21 {
            self.hit_enabled = false;
            self.stand_enabled = false;
            self.reset_enabled = true;
            self.prebet = self.chips;
            self.notice = Notice::YouLose;
        }
    }

    /// The hit button was pressed: a card is drawn at random.
    pub fn hit(&mut self) -> (done: Result<(), Stuck>)
        requires
            valid(old(self)@),
        ensures
            done is Ok ==> exists|card: Seq<char>|
                {
                    &&& old(self)@.hit_enabled ==> old(self)@.deck.contains(card)
                    &&& final(self)@ == #[trigger] after_hit(old(self)@, card)
                },
            done is Err ==> done == Err::<(), Stuck>(Stuck::DeckRanOut) && final(self)@ == old(self)@,
            valid(final(self)@),
    {
        if !self.hit_enabled {
            assert(self@ == after_hit(self@, back_name()));
            return Ok(());
        }
        let card: String = match choose_card(&self.deck) {
            Some(card) => card.clone(),
            None => {
                return Err(Stuck::DeckRanOut);
            },
        };
        self.hit_with(&card);
        Ok(())
    }

    /// The stand button was pressed and the dealer drew the given cards.
    pub fn stand_with(&mut self, cards: &Vec<String>)
        requires
            valid(old(self)@),
            old(self)@.stand_enabled ==> dealer_draws(standing(old(self)@), names_of(cards@)),
            old(self)@.stand_enabled ==> payout(dealer_plays(standing(old(self)@), names_of(cards@)))
                <= i32::MAX,
        ensures
            final(self)@ == after_stand(old(self)@, names_of(cards@)),
            valid(final(self)@),
    {
        if !self.stand_enabled {
            return;
        }
        self.stand_enabled = false;
        self.hit_enabled = false;
        let ghost begin = self@;
        let ghost names = names_of(cards@);
        let mut index: usize = 0;
        assert(names.subrange(0, 0) =~= Seq::<Seq<char>>::empty());
        while index < cards.len()
            invariant
                index <= cards@.len(),
                names == names_of(cards@),
                valid(old(self)@),
                begin == standing(old(self)@),
                old(self)@.stand_enabled,
                self@.slots.len() == 10,
                all_playable(self@.deck),
                0 <= self@.dvalue <= 116,
                2 <= self@.dturn <= 5,
                dealer_can_take(begin, names),
                self@ == dealer_plays(begin, names.subrange(0, index as int)),
            decreases cards@.len() - index,
        {
            proof {
                lemma_dealer_keeps(begin, names.subrange(0, index as int));
                lemma_dealer_prefix(begin, names, index + 1);
                assert(names.subrange(0, index + 1) =~= names.subrange(0, index as int).push(
                    names[index as int],
                ));
                lemma_dealer_takes_one_more(begin, names.subrange(0, index as int), names[index as int]);
            }
            let place: usize = (self.dturn + 4) as usize;
            self.dealer_draw(place, &cards[index]);
            if self.dturn < 5 {
                self.dturn = self.dturn + 1;
            }
            index = index + 1;
        }
        assert(names.subrange(0, cards@.len() as int) =~= names);
        proof {
            lemma_dealer_keeps(begin, names);
        }
        self.dealer_shown = Some(self.dvalue);
        if pwincheck(self.pvalue, self.dvalue) {
            self.chips = self.chips + self.bet * 2;
            self.chips_shown = Some(self.chips);
            self.notice = Notice::YouWin;
        } else if dwincheck(self.pvalue, self.dvalue) {
            self.prebet = self.chips;
            self.notice = Notice::YouLose;
        } else {
            self.chips = self.chips + self.bet;
            self.chips_shown = Some(self.chips);
            self.notice = Notice::YouDraw;
        }
        self.reset_enabled = true;
    }

    /// Draws at random what the dealer takes once the player stands: cards
    /// until the dealer's hand is 18 or more. The table is not changed.
    ///
    /// The cards are handed out where the round can be settled after them.
    /// No card is drawn for a dealer who stands at 18 or more already; the
    /// outcome then rests on the chips alone. Otherwise it fails where no
    /// card came when the dealer needed one, or where the winnings after the
    /// cards drawn do not fit in 32 bits.
    fn dealer_cards(&self) -> (drawn: Result<Vec<String>, Stuck>)
        requires
            valid(self@),
            self@.stand_enabled,
        ensures
            drawn matches Ok(cards) ==> dealer_draws(standing(self@), names_of(cards@)) && payout(
                dealer_plays(standing(self@), names_of(cards@)),
            ) <= i32::MAX,
            drawn matches Err(stuck) ==> {
                &&& stuck == Stuck::DeckRanOut ==> exists|cards: Seq<Seq<char>>|
                    dealer_needs_more(standing(self@), cards)
                &&& stuck == Stuck::ChipsOverflow ==> exists|cards: Seq<Seq<char>>|
                    payout_overflows(standing(self@), cards)
            },
            self@.dvalue >= 18 ==> {
                &&& drawn is Ok <==> payout(standing(self@)) <= i32::MAX
                &&& drawn matches Ok(cards) ==> cards@.len() == 0
            },
    {
        let ghost begin = standing(self@);
        let mut cards: Vec<String> = Vec::new();
        let mut deck: Vec<String> = copy_names(&self.deck);
        let mut dvalue: i32 = self.dvalue;
        assert(names_of(cards@) =~= Seq::<Seq<char>>::empty());
        while dvalue < 18
            invariant
                valid(self@),
                self@.stand_enabled,
                begin == standing(self@),
                dealer_can_take(begin, names_of(cards@)),
                names_of(deck@) == dealer_plays(begin, names_of(cards@)).deck,
                dvalue == dealer_plays(begin, names_of(cards@)).dvalue,
                all_playable(names_of(deck@)),
                0 <= dvalue <= 116,
                self@.dvalue >= 18 ==> cards@.len() == 0,
            decreases deck@.len(),
        {
            let card: String = match choose_card(&deck) {
                Some(card) => card.clone(),
                None => {
                    assert(dealer_needs_more(begin, names_of(cards@)));
                    return Err(Stuck::DeckRanOut);
                },
            };
            proof {
                lemma_dealer_takes_one_more(begin, names_of(cards@), card@);
                lemma_card_of_deck(names_of(deck@), card@);
                lemma_playable_points(dvalue as int, card@);
                lemma_without(names_of(deck@), card@);
            }
            let ghost before = names_of(cards@);
            dvalue = add_card(dvalue, card.as_str());
            deck = remove_card(&deck, &card);
            cards.push(card);
            assert(names_of(cards@) =~= before.push(card@));
        }
        proof {
            lemma_dealer_keeps(begin, names_of(cards@));
            if self@.dvalue >= 18 {
                lemma_dealer_stands(begin, names_of(cards@));
            }
        }
        let won: bool = pwincheck(self.pvalue, dvalue);
        let lost: bool = dwincheck(self.pvalue, dvalue);
        let gain: i64 = if won {
            2 * (self.bet as i64)
        } else if lost {
            0
        } else {
            self.bet as i64
        };
        if self.chips as i64 + gain > i32::MAX as i64 {
            assert(payout_overflows(begin, names_of(cards@)));
            return Err(Stuck::ChipsOverflow);
        }
        Ok(cards)
    }

    /// The stand button was pressed: the dealer draws at random until the
    /// dealer's hand is 18 or more, and the round is settled.
    ///
    /// A disabled button does nothing and that is done. A dealer who stands
    /// at 18 or more already draws no card: the round is settled as it is,
    /// unless the winnings do not fit in 32 bits. Otherwise the cards decide.
    /// Where the round cannot be settled the table stays as it was: no card
    /// came when the dealer needed one, or the winnings after the cards
    /// drawn do not fit.
    pub fn stand(&mut self) -> (done: Result<(), Stuck>)
        requires
            valid(old(self)@),
        ensures
            done is Ok ==> exists|cards: Seq<Seq<char>>|
                {
                    &&& old(self)@.stand_enabled ==> dealer_draws(standing(old(self)@), cards)
                    &&& final(self)@ == #[trigger] after_stand(old(self)@, cards)
                },
            done is Err ==> final(self)@ == old(self)@,
            !old(self)@.stand_enabled ==> done is Ok,
            old(self)@.stand_enabled && old(self)@.dvalue >= 18 ==> {
                &&& done is Ok <==> payout(standing(old(self)@)) <= i32::MAX
                &&& done is Ok ==> final(self)@ == after_stand(old(self)@, Seq::<Seq<char>>::empty())
            },
            done matches Err(stuck) ==> {
                &&& old(self)@.stand_enabled
                &&& stuck == Stuck::DeckRanOut ==> exists|cards: Seq<Seq<char>>|
                    dealer_needs_more(standing(old(self)@), cards)
                &&& stuck == Stuck::ChipsOverflow ==> exists|cards: Seq<Seq<char>>|
                    payout_overflows(standing(old(self)@), cards)
            },
            valid(final(self)@),
    {
        if !self.stand_enabled {
            assert(self@ == after_stand(self@, Seq::<Seq<char>>::empty()));
            return Ok(());
        }
        match self.dealer_cards() {
            Ok(cards) => {
                assert(self@.dvalue >= 18 ==> names_of(cards@) =~= Seq::<Seq<char>>::empty());
                self.stand_with(&cards);
                Ok(())
            },
            Err(stuck) => Err(stuck),
        }
    }

    /// The reset button was pressed. Returns whether the table was cleared,
    /// which it is where the button is enabled.
    pub fn reset(&mut self) -> (cleared: bool)
        requires
            valid(old(self)@),
        ensures
            cleared == old(self)@.reset_enabled,
            final(self)@ == after_reset(old(self)@),
            valid(final(self)@),
    {
        if !self.reset_enabled {
            return false;
        }
        self.clear();
        if self.deck.len() <= 10 {
            proof {
                lemma_standard_deck_playable();
            }
            self.deck = deck_reset();
        }
        true
    }

    /// Clears the table for a new round.
    fn clear(&mut self)
        requires
            valid(old(self)@),
        ensures
            final(self)@ == crate::round::cleared(old(self)@),
            valid(final(self)@),
    {
        self.slots = card_backs();
        self.pvalue = 0;
        self.dvalue = 0;
        self.turn = 3;
        self.dturn = 2;
        self.bet = 0;
        self.start_enabled = true;
        self.hit_enabled = false;
        self.stand_enabled = false;
        self.reset_enabled = false;
        self.player_shown = Some(0);
        self.dealer_shown = Some(0);
        self.notice = Notice::Blank;
    }

    /// Looks at the chips after an event. Returns whether the player is to be
    /// asked about playing again, which is once each time the chips run out.
    pub fn check_chips(&mut self) -> (ask: bool)
        requires
            valid(old(self)@),
        ensures
            ask == out_of_chips(old(self)@),
            final(self)@ == after_chip_check(old(self)@),
            valid(final(self)@),
    {
        if self.chips == 0 && self.bet != self.prebet {
            self.prebet = self.bet;
            self.notice = Notice::NoMoreChips;
            true
        } else {
            false
        }
    }

    /// The player answered the question about playing again. The first
    /// button starts over with 500 chips; every other answer ends the game,
    /// and `true` is returned.
    pub fn answer(&mut self, result: MessageBoxResult) -> (quit: bool)
        requires
            valid(old(self)@),
        ensures
            quit == (result != MessageBoxResult::ButtonPressed(0)),
            quit ==> final(self)@ == old(self)@,
            !quit ==> final(self)@ == restarted(old(self)@),
            valid(final(self)@),
    {
        match result {
            MessageBoxResult::ButtonPressed(button) => {
                if button == 0 {
                    self.clear();
                    self.chips = 500;
                    self.chips_shown = Some(500);
                    false
                } else {
                    true
                }
            },
            MessageBoxResult::Closed => true,
        }
    }

    /// The player's chips.
    pub fn chips(&self) -> (chips: i32)
        ensures
            chips == self@.chips,
    {
        self.chips
    }

    /// The bet of the round.
    pub fn bet(&self) -> (bet: i32)
        ensures
            bet == self@.bet,
    {
        self.bet
    }

    /// The value of the player's hand.
    pub fn pvalue(&self) -> (value: i32)
        ensures
            value == self@.pvalue,
    {
        self.pvalue
    }

    /// The value of the dealer's hand.
    pub fn dvalue(&self) -> (value: i32)
        ensures
            value == self@.dvalue,
    {
        self.dvalue
    }

    /// What the table tells the player.
    pub fn notice(&self) -> (notice: Notice)
        ensures
            notice == self@.notice,
    {
        self.notice
    }

    /// The chips as last written out, if they were.
    pub fn chips_shown(&self) -> (shown: Option<i32>)
        ensures
            shown == self@.chips_shown,
    {
        self.chips_shown
    }

    /// The player's hand as last written out, if it was.
    pub fn player_shown(&self) -> (shown: Option<i32>)
        ensures
            shown == self@.player_shown,
    {
        self.player_shown
    }

    /// The dealer's hand as last written out, if it was.
    pub fn dealer_shown(&self) -> (shown: Option<i32>)
        ensures
            shown == self@.dealer_shown,
    {
        self.dealer_shown
    }

    /// Whether the start button is enabled.
    pub fn start_enabled(&self) -> (enabled: bool)
        ensures
            enabled == self@.start_enabled,
    {
        self.start_enabled
    }

    /// Whether the hit button is enabled.
    pub fn hit_enabled(&self) -> (enabled: bool)
        ensures
            enabled == self@.hit_enabled,
    {
        self.hit_enabled
    }

    /// Whether the stand button is enabled.
    pub fn stand_enabled(&self) -> (enabled: bool)
        ensures
            enabled == self@.stand_enabled,
    {
        self.stand_enabled
    }

    /// Whether the reset button is enabled.
    pub fn reset_enabled(&self) -> (enabled: bool)
        ensures
            enabled == self@.reset_enabled,
    {
        self.reset_enabled
    }

    /// The number of cards that can still be drawn.
    pub fn deck_len(&self) -> (count: usize)
        ensures
            count == self@.deck.len(),
    {
        self.deck.len()
    }

    /// The cards that can still be drawn.
    pub fn deck(&self) -> (deck: &Vec<String>)
        ensures
            names_of(deck@) == self@.deck,
    {
        &self.deck
    }

    /// The name of the image at place `index`, of the ten places.
    pub fn slot(&self, index: usize) -> (name: Option<&String>)
        ensures
            name is Some == (index < self@.slots.len()),
            name matches Some(image) ==> image@ == self@.slots[index as int],
    {
        if index < self.slots.len() {
            Some(&self.slots[index])
        } else {
            None
        }
    }
}

} // verus!
