//! Blackjack rules: what a card adds to a hand, read from the name of the
//! card's image, and who wins a finished round.
//!
//! An image name holds the card's rank: the word `ace`, `jack`, `queen` or
//! `king`, or else a two-character number at byte positions 7 and 8, as in
//! `assets/07clubs.png`.

use vstd::prelude::*;
use vstd::string::StringSliceAdditionalSpecFns;

verus! {

/// Whether `needle` stands in `hay` at byte position `at`.
pub open spec fn occurs_at(hay: Seq<u8>, needle: Seq<u8>, at: int) -> bool {
    &&& 0 <= at
    &&& at + needle.len() <= hay.len()
    &&& forall|k: int| 0 <= k < needle.len() ==> hay[at + k] == needle[k]
}

/// Whether `needle` stands somewhere in `hay`.
pub open spec fn occurs_in(hay: Seq<u8>, needle: Seq<u8>) -> bool {
    exists|at: int| occurs_at(hay, needle, at)
}

/// The bytes of the word `ace`.
pub open spec fn ace_word() -> Seq<u8> {
    seq![0x61u8, 0x63u8, 0x65u8]
}

/// The bytes of the word `jack`.
pub open spec fn jack_word() -> Seq<u8> {
    seq![0x6au8, 0x61u8, 0x63u8, 0x6bu8]
}

/// The bytes of the word `queen`.
pub open spec fn queen_word() -> Seq<u8> {
    seq![0x71u8, 0x75u8, 0x65u8, 0x65u8, 0x6eu8]
}

/// The bytes of the word `king`.
pub open spec fn king_word() -> Seq<u8> {
    seq![0x6bu8, 0x69u8, 0x6eu8, 0x67u8]
}

/// Whether the name is that of an ace.
pub open spec fn is_ace(name: Seq<u8>) -> bool {
    occurs_in(name, ace_word())
}

/// Whether the name is that of a jack, a queen or a king.
pub open spec fn is_face(name: Seq<u8>) -> bool {
    occurs_in(name, jack_word()) || occurs_in(name, queen_word()) || occurs_in(name, king_word())
}

/// Whether the byte is a decimal digit.
pub open spec fn is_digit(byte: u8) -> bool {
    0x30 <= byte <= 0x39
}

/// Whether bytes 7 and 8 of the name read as a decimal number: two digits,
/// or a sign and a digit.
pub open spec fn has_pips(name: Seq<u8>) -> bool {
    &&& name.len() >= 9
    &&& is_digit(name[7]) || name[7] == 0x2bu8 || name[7] == 0x2du8
    &&& is_digit(name[8])
}

/// The number that bytes 7 and 8 of the name read as.
pub open spec fn pips(name: Seq<u8>) -> int {
    if name[7] == 0x2bu8 {
        name[8] - 0x30
    } else if name[7] == 0x2du8 {
        0x30 - name[8]
    } else {
        10 * (name[7] - 0x30) + (name[8] - 0x30)
    }
}

/// Whether the name tells the rank of a card.
pub open spec fn names_card(name: Seq<u8>) -> bool {
    is_ace(name) || is_face(name) || has_pips(name)
}

/// What the card adds to a hand that stands at `total`: an ace 11, or 1 where
/// 11 would take the hand over 21; a jack, queen or king 10; any other card
/// its number.
pub open spec fn card_points(total: int, name: Seq<u8>) -> int {
    if is_ace(name) {
        if total + 11 > 21 {
            1
        } else {
            11
        }
    } else if is_face(name) {
        10
    } else {
        pips(name)
    }
}

/// The hand's value after the card is added.
pub open spec fn hand_after(total: int, name: Seq<u8>) -> int {
    total + card_points(total, name)
}

/// Whether the hand's value stays within the machine's integers while the
/// card is added: an ace is first counted as 11.
pub open spec fn hand_fits(total: int, name: Seq<u8>) -> bool {
    &&& i32::MIN <= hand_after(total, name) <= i32::MAX
    &&& is_ace(name) ==> total + 11 <= i32::MAX
}

/// Whether the player wins: the player is not over 21, and the dealer is, or
/// stands lower.
pub open spec fn player_wins(player: int, dealer: int) -> bool {
    player <= 21 && (dealer > 21 || player > dealer)
}

/// Whether the dealer wins: the dealer is not over 21, and the player is, or
/// stands lower.
pub open spec fn dealer_wins(player: int, dealer: int) -> bool {
    dealer <= 21 && (player > 21 || dealer > player)
}

/// Whether `needle` stands in `hay` at byte position `at`.
pub fn matches_at(hay: &[u8], needle: &[u8], at: usize) -> (found: bool)
    requires
        at + needle@.len() <= hay@.len(),
    ensures
        found == occurs_at(hay@, needle@, at as int),
{
    let mut k: usize = 0;
    while k < needle.len()
        invariant
            k <= needle.len(),
            at + needle.len() <= hay.len(),
            forall|m: int| 0 <= m < k ==> hay@[at + m] == needle@[m],
        decreases needle@.len() - k,
    {
        if hay[at + k] != needle[k] {
            return false;
        }
        k = k + 1;
    }
    true
}

/// Whether `needle` stands somewhere in `hay`. The empty needle stands in
/// every `hay`.
pub fn contains_bytes(hay: &[u8], needle: &[u8]) -> (found: bool)
    ensures
        found == occurs_in(hay@, needle@),
{
    if needle.len() > hay.len() {
        return false;
    }
    let last: usize = hay.len() - needle.len();
    let mut at: usize = 0;
    while at <= last
        invariant
            at <= last,
            last == hay@.len() - needle@.len(),
            forall|k: int| 0 <= k < at ==> !occurs_at(hay@, needle@, k),
        decreases last - at,
    {
        if matches_at(hay, needle, at) {
            return true;
        }
        if at == last {
            return false;
        }
        at = at + 1;
    }
    false
}

/// Whether the name is that of an ace.
pub fn names_ace(name: &[u8]) -> (ace: bool)
    ensures
        ace == is_ace(name@),
{
    let word: [u8; 3] = [0x61, 0x63, 0x65];
    assert(word@ =~= ace_word());
    contains_bytes(name, word.as_slice())
}

/// Whether the name is that of a jack, a queen or a king.
pub fn names_face(name: &[u8]) -> (face: bool)
    ensures
        face == is_face(name@),
{
    let jack: [u8; 4] = [0x6a, 0x61, 0x63, 0x6b];
    let queen: [u8; 5] = [0x71, 0x75, 0x65, 0x65, 0x6e];
    let king: [u8; 4] = [0x6b, 0x69, 0x6e, 0x67];
    assert(jack@ =~= jack_word());
    assert(queen@ =~= queen_word());
    assert(king@ =~= king_word());
    contains_bytes(name, jack.as_slice()) || contains_bytes(name, queen.as_slice()) || contains_bytes(
        name,
        king.as_slice(),
    )
}

/// Reads bytes 7 and 8 of the name as a decimal number, if they are one.
pub fn read_pips(name: &[u8]) -> (number: Option<i32>)
    ensures
        number is Some == has_pips(name@),
        number matches Some(n) ==> n == pips(name@),
{
    if name.len() < 9 {
        return None;
    }
    let first: u8 = name[7];
    let second: u8 = name[8];
    if second < 0x30 || second > 0x39 {
        return None;
    }
    let units: i32 = (second - 0x30) as i32;
    if first == 0x2b {
        Some(units)
    } else if first == 0x2d {
        Some(-units)
    } else if first >= 0x30 && first <= 0x39 {
        Some(10 * ((first - 0x30) as i32) + units)
    } else {
        None
    }
}

/// Adds a card to a hand that stands at `total`.
pub fn add_card(total: i32, name: &str) -> (after: i32)
    requires
        names_card(name.spec_bytes()),
        hand_fits(total as int, name.spec_bytes()),
    ensures
        after == hand_after(total as int, name.spec_bytes()),
{
    let bytes = name.as_bytes();
    if names_ace(bytes) {
        let high: i32 = total + 11;
        if high > 21 {
            high - 10
        } else {
            high
        }
    } else if names_face(bytes) {
        total + 10
    } else {
        match read_pips(bytes) {
            Some(number) => total + number,
            None => total,
        }
    }
}

/// The player's hand after the card `show` is added.
pub fn playervalue(pvalue: i32, show: &str) -> (after: i32)
    requires
        names_card(show.spec_bytes()),
        hand_fits(pvalue as int, show.spec_bytes()),
    ensures
        after == hand_after(pvalue as int, show.spec_bytes()),
{
    add_card(pvalue, show)
}

/// The dealer's hand after the card `show` is added.
pub fn dealervalue(dvalue: i32, show: &str) -> (after: i32)
    requires
        names_card(show.spec_bytes()),
        hand_fits(dvalue as int, show.spec_bytes()),
    ensures
        after == hand_after(dvalue as int, show.spec_bytes()),
{
    add_card(dvalue, show)
}

/// Whether the player wins the round.
pub fn pwincheck(pvalue: i32, dvalue: i32) -> (wins: bool)
    ensures
        wins == player_wins(pvalue as int, dvalue as int),
{
    if pvalue > 21 {
        false
    } else if pvalue == 21 && dvalue != 21 {
        true
    } else if dvalue > 21 && pvalue < 22 {
        true
    } else if pvalue > dvalue {
        true
    } else {
        false
    }
}

/// Whether the dealer wins the round.
pub fn dwincheck(pvalue: i32, dvalue: i32) -> (wins: bool)
    ensures
        wins == dealer_wins(pvalue as int, dvalue as int),
{
    if dvalue > 21 {
        false
    } else if dvalue == 21 && pvalue != 21 {
        true
    } else if pvalue > 21 && dvalue < 22 {
        true
    } else if dvalue > pvalue {
        true
    } else {
        false
    }
}

/// A round has at most one winner, and none exactly when both hands are over
/// 21 or both stand at the same value of at most 21.
pub proof fn lemma_one_winner(player: int, dealer: int)
    ensures
        !(player_wins(player, dealer) && dealer_wins(player, dealer)),
        (!player_wins(player, dealer) && !dealer_wins(player, dealer)) <==> ((player > 21 && dealer > 21)
            || (player == dealer && player <= 21)),
        player_wins(player, dealer) == dealer_wins(dealer, player),
{
}

/// A hand that is not over 21 and takes an ace is not taken over 21 by it,
/// and an ace never counts less than 1 nor more than 11.
pub proof fn lemma_ace_is_soft(total: int, name: Seq<u8>)
    requires
        is_ace(name),
    ensures
        card_points(total, name) == 1 || card_points(total, name) == 11,
        total <= 20 ==> hand_after(total, name) <= 21,
{
}

/// The texts of a row of names.
pub open spec fn names_of(names: Seq<String>) -> Seq<Seq<char>> {
    Seq::new(names.len(), |i: int| names[i]@)
}

/// The bytes that a name is written in.
pub open spec fn name_bytes(name: Seq<char>) -> Seq<u8> {
    vstd::utf8::encode_utf8(name)
}

/// Whether the name tells the rank of a card that counts between 0 and 99:
/// an ace, a jack, a queen, a king, or a number without a minus sign.
pub open spec fn playable(name: Seq<char>) -> bool {
    let bytes = name_bytes(name);
    is_ace(bytes) || is_face(bytes) || (has_pips(bytes) && bytes[7] != 0x2du8)
}

/// The full deck: for each of the four suits an ace, a jack, a queen and a
/// king, then the numbers 2 to 10.
pub open spec fn standard_deck() -> Seq<Seq<char>> {
    seq![
        "assets/aceHeart.png"@,
        "assets/aceDiamond.png"@,
        "assets/aceClubs.png"@,
        "assets/aceSpade.png"@,
        "assets/jackHeart.png"@,
        "assets/jackDiamond.png"@,
        "assets/jackClubs.png"@,
        "assets/jackSpade.png"@,
        "assets/queenHeart.png"@,
        "assets/queenDiamond.png"@,
        "assets/queenClubs.png"@,
        "assets/queenSpade.png"@,
        "assets/kingHeart.png"@,
        "assets/kingDiamond.png"@,
        "assets/kingClubs.png"@,
        "assets/kingSpade.png"@,
        "assets/02clubs.png"@,
        "assets/02heart.png"@,
        "assets/02diamond.png"@,
        "assets/02spade.png"@,
        "assets/03clubs.png"@,
        "assets/03heart.png"@,
        "assets/03diamond.png"@,
        "assets/03spade.png"@,
        "assets/04clubs.png"@,
        "assets/04heart.png"@,
        "assets/04diamond.png"@,
        "assets/04spade.png"@,
        "assets/05clubs.png"@,
        "assets/05heart.png"@,
        "assets/05diamond.png"@,
        "assets/05spade.png"@,
        "assets/06clubs.png"@,
        "assets/06heart.png"@,
        "assets/06diamond.png"@,
        "assets/06spade.png"@,
        "assets/07clubs.png"@,
        "assets/07heart.png"@,
        "assets/07diamond.png"@,
        "assets/07spade.png"@,
        "assets/08clubs.png"@,
        "assets/08heart.png"@,
        "assets/08diamond.png"@,
        "assets/08spade.png"@,
        "assets/09clubs.png"@,
        "assets/09heart.png"@,
        "assets/09diamond.png"@,
        "assets/09spade.png"@,
        "assets/10clubs.png"@,
        "assets/10heart.png"@,
        "assets/10diamond.png"@,
        "assets/10spade.png"@,
    ]
}

/// A playable card has a rank, and adds between 0 and 99 to any hand.
pub proof fn lemma_playable_points(total: int, name: Seq<char>)
    requires
        playable(name),
    ensures
        names_card(name_bytes(name)),
        0 <= card_points(total, name_bytes(name)) <= 99,
{
}

/// A name in plain letters that holds `word` from byte 7 on names a card of
/// that rank.
proof fn lemma_word_at_seven(name: Seq<char>, word: Seq<u8>)
    requires
        vstd::utf8::is_ascii_chars(name),
        word == ace_word() || word == jack_word() || word == queen_word() || word == king_word(),
        7 + word.len() <= name.len(),
        forall|k: int| 0 <= k < word.len() ==> name[7 + k] as u8 == word[k],
    ensures
        playable(name),
{
    vstd::utf8::is_ascii_chars_encode_utf8(name);
    assert(occurs_at(name_bytes(name), word, 7));
}

/// A name in plain letters that holds two digits from byte 7 on names a
/// number card.
proof fn lemma_number_at_seven(name: Seq<char>)
    requires
        vstd::utf8::is_ascii_chars(name),
        name.len() >= 9,
        is_digit(name[7] as u8),
        is_digit(name[8] as u8),
    ensures
        playable(name),
{
    vstd::utf8::is_ascii_chars_encode_utf8(name);
    assert(has_pips(name_bytes(name)));
}

/// The aces and jacks of the full deck are playable.
proof fn lemma_aces_and_jacks_playable()
    ensures
        forall|i: int| 0 <= i < 8 ==> playable(#[trigger] standard_deck()[i]),
{
    assert(playable(standard_deck()[0])) by {
        reveal_strlit("assets/aceHeart.png");
        let name = "assets/aceHeart.png"@;
        lemma_word_at_seven(name, ace_word());
    }
    assert(playable(standard_deck()[1])) by {
        reveal_strlit("assets/aceDiamond.png");
        let name = "assets/aceDiamond.png"@;
        lemma_word_at_seven(name, ace_word());
    }
    assert(playable(standard_deck()[2])) by {
        reveal_strlit("assets/aceClubs.png");
        let name = "assets/aceClubs.png"@;
        lemma_word_at_seven(name, ace_word());
    }
    assert(playable(standard_deck()[3])) by {
        reveal_strlit("assets/aceSpade.png");
        let name = "assets/aceSpade.png"@;
        lemma_word_at_seven(name, ace_word());
    }
    assert(playable(standard_deck()[4])) by {
        reveal_strlit("assets/jackHeart.png");
        let name = "assets/jackHeart.png"@;
        lemma_word_at_seven(name, jack_word());
    }
    assert(playable(standard_deck()[5])) by {
        reveal_strlit("assets/jackDiamond.png");
        let name = "assets/jackDiamond.png"@;
        lemma_word_at_seven(name, jack_word());
    }
    assert(playable(standard_deck()[6])) by {
        reveal_strlit("assets/jackClubs.png");
        let name = "assets/jackClubs.png"@;
        lemma_word_at_seven(name, jack_word());
    }
    assert(playable(standard_deck()[7])) by {
        reveal_strlit("assets/jackSpade.png");
        let name = "assets/jackSpade.png"@;
        lemma_word_at_seven(name, jack_word());
    }
}

/// The queens and kings of the full deck are playable.
proof fn lemma_queens_and_kings_playable()
    ensures
        forall|i: int| 8 <= i < 16 ==> playable(#[trigger] standard_deck()[i]),
{
    assert(playable(standard_deck()[8])) by {
        reveal_strlit("assets/queenHeart.png");
        let name = "assets/queenHeart.png"@;
        lemma_word_at_seven(name, queen_word());
    }
    assert(playable(standard_deck()[9])) by {
        reveal_strlit("assets/queenDiamond.png");
        let name = "assets/queenDiamond.png"@;
        lemma_word_at_seven(name, queen_word());
    }
    assert(playable(standard_deck()[10])) by {
        reveal_strlit("assets/queenClubs.png");
        let name = "assets/queenClubs.png"@;
        lemma_word_at_seven(name, queen_word());
    }
    assert(playable(standard_deck()[11])) by {
        reveal_strlit("assets/queenSpade.png");
        let name = "assets/queenSpade.png"@;
        lemma_word_at_seven(name, queen_word());
    }
    assert(playable(standard_deck()[12])) by {
        reveal_strlit("assets/kingHeart.png");
        let name = "assets/kingHeart.png"@;
        lemma_word_at_seven(name, king_word());
    }
    assert(playable(standard_deck()[13])) by {
        reveal_strlit("assets/kingDiamond.png");
        let name = "assets/kingDiamond.png"@;
        lemma_word_at_seven(name, king_word());
    }
    assert(playable(standard_deck()[14])) by {
        reveal_strlit("assets/kingClubs.png");
        let name = "assets/kingClubs.png"@;
        lemma_word_at_seven(name, king_word());
    }
    assert(playable(standard_deck()[15])) by {
        reveal_strlit("assets/kingSpade.png");
        let name = "assets/kingSpade.png"@;
        lemma_word_at_seven(name, king_word());
    }
}

/// The numbers 2 to 4 of the full deck are playable.
proof fn lemma_low_numbers_playable()
    ensures
        forall|i: int| 16 <= i < 28 ==> playable(#[trigger] standard_deck()[i]),
{
    assert(playable(standard_deck()[16])) by {
        reveal_strlit("assets/02clubs.png");
        let name = "assets/02clubs.png"@;
        lemma_number_at_seven(name);
    }
    assert(playable(standard_deck()[17])) by {
        reveal_strlit("assets/02heart.png");
        let name = "assets/02heart.png"@;
        lemma_number_at_seven(name);
    }
    assert(playable(standard_deck()[18])) by {
        reveal_strlit("assets/02diamond.png");
        let name = "assets/02diamond.png"@;
        lemma_number_at_seven(name);
    }
    assert(playable(standard_deck()[19])) by {
        reveal_strlit("assets/02spade.png");
        let name = "assets/02spade.png"@;
        lemma_number_at_seven(name);
    }
    assert(playable(standard_deck()[20])) by {
        reveal_strlit("assets/03clubs.png");
        let name = "assets/03clubs.png"@;
        lemma_number_at_seven(name);
    }
    assert(playable(standard_deck()[21])) by {
        reveal_strlit("assets/03heart.png");
        let name = "assets/03heart.png"@;
        lemma_number_at_seven(name);
    }
    assert(playable(standard_deck()[22])) by {
        reveal_strlit("assets/03diamond.png");
        let name = "assets/03diamond.png"@;
        lemma_number_at_seven(name);
    }
    assert(playable(standard_deck()[23])) by {
        reveal_strlit("assets/03spade.png");
        let name = "assets/03spade.png"@;
        lemma_number_at_seven(name);
    }
    assert(playable(standard_deck()[24])) by {
        reveal_strlit("assets/04clubs.png");
        let name = "assets/04clubs.png"@;
        lemma_number_at_seven(name);
    }
    assert(playable(standard_deck()[25])) by {
        reveal_strlit("assets/04heart.png");
        let name = "assets/04heart.png"@;
        lemma_number_at_seven(name);
    }
    assert(playable(standard_deck()[26])) by {
        reveal_strlit("assets/04diamond.png");
        let name = "assets/04diamond.png"@;
        lemma_number_at_seven(name);
    }
    assert(playable(standard_deck()[27])) by {
        reveal_strlit("assets/04spade.png");
        let name = "assets/04spade.png"@;
        lemma_number_at_seven(name);
    }
}

/// The numbers 5 to 7 of the full deck are playable.
proof fn lemma_middle_numbers_playable()
    ensures
        forall|i: int| 28 <= i < 40 ==> playable(#[trigger] standard_deck()[i]),
{
    assert(playable(standard_deck()[28])) by {
        reveal_strlit("assets/05clubs.png");
        let name = "assets/05clubs.png"@;
        lemma_number_at_seven(name);
    }
    assert(playable(standard_deck()[29])) by {
        reveal_strlit("assets/05heart.png");
        let name = "assets/05heart.png"@;
        lemma_number_at_seven(name);
    }
    assert(playable(standard_deck()[30])) by {
        reveal_strlit("assets/05diamond.png");
        let name = "assets/05diamond.png"@;
        lemma_number_at_seven(name);
    }
    assert(playable(standard_deck()[31])) by {
        reveal_strlit("assets/05spade.png");
        let name = "assets/05spade.png"@;
        lemma_number_at_seven(name);
    }
    assert(playable(standard_deck()[32])) by {
        reveal_strlit("assets/06clubs.png");
        let name = "assets/06clubs.png"@;
        lemma_number_at_seven(name);
    }
    assert(playable(standard_deck()[33])) by {
        reveal_strlit("assets/06heart.png");
        let name = "assets/06heart.png"@;
        lemma_number_at_seven(name);
    }
    assert(playable(standard_deck()[34])) by {
        reveal_strlit("assets/06diamond.png");
        let name = "assets/06diamond.png"@;
        lemma_number_at_seven(name);
    }
    assert(playable(standard_deck()[35])) by {
        reveal_strlit("assets/06spade.png");
        let name = "assets/06spade.png"@;
        lemma_number_at_seven(name);
    }
    assert(playable(standard_deck()[36])) by {
        reveal_strlit("assets/07clubs.png");
        let name = "assets/07clubs.png"@;
        lemma_number_at_seven(name);
    }
    assert(playable(standard_deck()[37])) by {
        reveal_strlit("assets/07heart.png");
        let name = "assets/07heart.png"@;
        lemma_number_at_seven(name);
    }
    assert(playable(standard_deck()[38])) by {
        reveal_strlit("assets/07diamond.png");
        let name = "assets/07diamond.png"@;
        lemma_number_at_seven(name);
    }
    assert(playable(standard_deck()[39])) by {
        reveal_strlit("assets/07spade.png");
        let name = "assets/07spade.png"@;
        lemma_number_at_seven(name);
    }
}

/// The numbers 8 to 10 of the full deck are playable.
proof fn lemma_high_numbers_playable()
    ensures
        forall|i: int| 40 <= i < 52 ==> playable(#[trigger] standard_deck()[i]),
{
    assert(playable(standard_deck()[40])) by {
        reveal_strlit("assets/08clubs.png");
        let name = "assets/08clubs.png"@;
        lemma_number_at_seven(name);
    }
    assert(playable(standard_deck()[41])) by {
        reveal_strlit("assets/08heart.png");
        let name = "assets/08heart.png"@;
        lemma_number_at_seven(name);
    }
    assert(playable(standard_deck()[42])) by {
        reveal_strlit("assets/08diamond.png");
        let name = "assets/08diamond.png"@;
        lemma_number_at_seven(name);
    }
    assert(playable(standard_deck()[43])) by {
        reveal_strlit("assets/08spade.png");
        let name = "assets/08spade.png"@;
        lemma_number_at_seven(name);
    }
    assert(playable(standard_deck()[44])) by {
        reveal_strlit("assets/09clubs.png");
        let name = "assets/09clubs.png"@;
        lemma_number_at_seven(name);
    }
    assert(playable(standard_deck()[45])) by {
        reveal_strlit("assets/09heart.png");
        let name = "assets/09heart.png"@;
        lemma_number_at_seven(name);
    }
    assert(playable(standard_deck()[46])) by {
        reveal_strlit("assets/09diamond.png");
        let name = "assets/09diamond.png"@;
        lemma_number_at_seven(name);
    }
    assert(playable(standard_deck()[47])) by {
        reveal_strlit("assets/09spade.png");
        let name = "assets/09spade.png"@;
        lemma_number_at_seven(name);
    }
    assert(playable(standard_deck()[48])) by {
        reveal_strlit("assets/10clubs.png");
        let name = "assets/10clubs.png"@;
        lemma_number_at_seven(name);
    }
    assert(playable(standard_deck()[49])) by {
        reveal_strlit("assets/10heart.png");
        let name = "assets/10heart.png"@;
        lemma_number_at_seven(name);
    }
    assert(playable(standard_deck()[50])) by {
        reveal_strlit("assets/10diamond.png");
        let name = "assets/10diamond.png"@;
        lemma_number_at_seven(name);
    }
    assert(playable(standard_deck()[51])) by {
        reveal_strlit("assets/10spade.png");
        let name = "assets/10spade.png"@;
        lemma_number_at_seven(name);
    }
}

/// Every card of the full deck is playable.
pub proof fn lemma_standard_deck_playable()
    ensures
        standard_deck().len() == 52,
        forall|i: int| 0 <= i < 52 ==> playable(#[trigger] standard_deck()[i]),
{
    lemma_aces_and_jacks_playable();
    lemma_queens_and_kings_playable();
    lemma_low_numbers_playable();
    lemma_middle_numbers_playable();
    lemma_high_numbers_playable();
}

/// A fresh full deck.
pub fn deck_reset() -> (deck: Vec<String>)
    ensures
        names_of(deck@) == standard_deck(),
{
    let mut deck: Vec<String> = Vec::with_capacity(52);
    deck.push("assets/aceHeart.png".to_owned());
    deck.push("assets/aceDiamond.png".to_owned());
    deck.push("assets/aceClubs.png".to_owned());
    deck.push("assets/aceSpade.png".to_owned());
    deck.push("assets/jackHeart.png".to_owned());
    deck.push("assets/jackDiamond.png".to_owned());
    deck.push("assets/jackClubs.png".to_owned());
    deck.push("assets/jackSpade.png".to_owned());
    deck.push("assets/queenHeart.png".to_owned());
    deck.push("assets/queenDiamond.png".to_owned());
    deck.push("assets/queenClubs.png".to_owned());
    deck.push("assets/queenSpade.png".to_owned());
    deck.push("assets/kingHeart.png".to_owned());
    deck.push("assets/kingDiamond.png".to_owned());
    deck.push("assets/kingClubs.png".to_owned());
    deck.push("assets/kingSpade.png".to_owned());
    deck.push("assets/02clubs.png".to_owned());
    deck.push("assets/02heart.png".to_owned());
    deck.push("assets/02diamond.png".to_owned());
    deck.push("assets/02spade.png".to_owned());
    deck.push("assets/03clubs.png".to_owned());
    deck.push("assets/03heart.png".to_owned());
    deck.push("assets/03diamond.png".to_owned());
    deck.push("assets/03spade.png".to_owned());
    deck.push("assets/04clubs.png".to_owned());
    deck.push("assets/04heart.png".to_owned());
    deck.push("assets/04diamond.png".to_owned());
    deck.push("assets/04spade.png".to_owned());
    deck.push("assets/05clubs.png".to_owned());
    deck.push("assets/05heart.png".to_owned());
    deck.push("assets/05diamond.png".to_owned());
    deck.push("assets/05spade.png".to_owned());
    deck.push("assets/06clubs.png".to_owned());
    deck.push("assets/06heart.png".to_owned());
    deck.push("assets/06diamond.png".to_owned());
    deck.push("assets/06spade.png".to_owned());
    deck.push("assets/07clubs.png".to_owned());
    deck.push("assets/07heart.png".to_owned());
    deck.push("assets/07diamond.png".to_owned());
    deck.push("assets/07spade.png".to_owned());
    deck.push("assets/08clubs.png".to_owned());
    deck.push("assets/08heart.png".to_owned());
    deck.push("assets/08diamond.png".to_owned());
    deck.push("assets/08spade.png".to_owned());
    deck.push("assets/09clubs.png".to_owned());
    deck.push("assets/09heart.png".to_owned());
    deck.push("assets/09diamond.png".to_owned());
    deck.push("assets/09spade.png".to_owned());
    deck.push("assets/10clubs.png".to_owned());
    deck.push("assets/10heart.png".to_owned());
    deck.push("assets/10diamond.png".to_owned());
    deck.push("assets/10spade.png".to_owned());
    assert(names_of(deck@) =~= standard_deck());
    deck
}

} // verus!
