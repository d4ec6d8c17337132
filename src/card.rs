use vstd::prelude::*;
use vstd::multiset::Multiset;
use rand::seq::SliceRandom;
use rand::SeedableRng;
use std::collections::VecDeque;

verus! {

/// The colour of a card. `Wild` cards belong to no colour family.
#[derive(Clone, Copy, Debug, PartialEq, Eq, Structural)]
pub enum Color {
    Red,
    Blue,
    Green,
    Yellow,
    Wild,
}

/// The rank or special action of a card.
#[derive(Clone, Copy, Debug, PartialEq, Eq, Structural)]
pub enum CardKind {
    WildCard,
    DrawFour,
    DrawTwo,
    Cancel,
    Reverse,
    Zero,
    One,
    Two,
    Three,
    Four,
    Five,
    Six,
    Seven,
    Eight,
    Nine,
}

/// A card: an immutable (colour, kind) pair.
#[derive(Clone, Copy, Debug, PartialEq, Eq, Structural)]
pub struct Card {
    pub color: Color,
    pub kind: CardKind,
}

/// Number of cards in a freshly generated deck.
pub const DECK_SIZE: usize = 112;

/// A card may be played on `current` when it is wild, shares its colour,
/// or shares its kind.
pub open spec fn can_play_on(candidate: Card, current: Card) -> bool {
    candidate.color == Color::Wild || candidate.color == current.color || candidate.kind
        == current.kind
}

/// The thirteen kinds that every colour family holds.
pub open spec fn is_suit_kind(k: CardKind) -> bool {
    k != CardKind::WildCard && k != CardKind::DrawFour
}

/// How many copies of `c` a freshly generated deck holds: two of each
/// coloured card of a suit kind, four wild draw-fours and four wild cards.
pub open spec fn canonical_count(c: Card) -> nat {
    if c.color == Color::Wild {
        if c.kind == CardKind::WildCard || c.kind == CardKind::DrawFour {
            4
        } else {
            0
        }
    } else if is_suit_kind(c.kind) {
        2
    } else {
        0
    }
}

/// `deck` holds exactly the canonical set of cards, in any order.
pub open spec fn is_canonical_deck(deck: Seq<Card>) -> bool {
    &&& deck.len() == DECK_SIZE
    &&& forall|c: Card| #[trigger] deck.to_multiset().count(c) == canonical_count(c)
}

/// Law: any two freshly generated decks hold the same cards; only their
/// order may differ.
pub proof fn lemma_decks_same_cards(a: Seq<Card>, b: Seq<Card>)
    requires
        is_canonical_deck(a),
        is_canonical_deck(b),
    ensures
        a.to_multiset() == b.to_multiset(),
{
    assert(a.to_multiset() =~= b.to_multiset());
}

/// Position of a colour in the order in which a deck is laid out.
pub open spec fn color_index(c: Color) -> nat {
    match c {
        Color::Red => 0,
        Color::Blue => 1,
        Color::Green => 2,
        Color::Yellow => 3,
        Color::Wild => 4,
    }
}

/// Position of a kind within a colour family as a deck is laid out.
pub open spec fn kind_index(k: CardKind) -> nat {
    match k {
        CardKind::Reverse => 0,
        CardKind::DrawTwo => 1,
        CardKind::Cancel => 2,
        CardKind::Zero => 3,
        CardKind::One => 4,
        CardKind::Two => 5,
        CardKind::Three => 6,
        CardKind::Four => 7,
        CardKind::Five => 8,
        CardKind::Six => 9,
        CardKind::Seven => 10,
        CardKind::Eight => 11,
        CardKind::Nine => 12,
        CardKind::WildCard => 13,
        CardKind::DrawFour => 14,
    }
}

/// Copies of `c` in a deck under construction, after `rounds` whole
/// rounds and, within the next round, the colours before `ci` and the
/// kinds before `ki` of colour `ci`.
spec fn built_count(rounds: nat, ci: nat, ki: nat, c: Card) -> nat {
    if c.color == Color::Wild {
        if c.kind == CardKind::WildCard || c.kind == CardKind::DrawFour {
            2 * rounds
        } else {
            0
        }
    } else if is_suit_kind(c.kind) {
        if color_index(c.color) < ci || (color_index(c.color) == ci && kind_index(c.kind) < ki) {
            rounds + 1
        } else {
            rounds
        }
    } else {
        0
    }
}

fn color_at(i: usize) -> (r: Color)
    requires
        i < 4,
    ensures
        color_index(r) == i,
        r != Color::Wild,
{
    match i {
        0 => Color::Red,
        1 => Color::Blue,
        2 => Color::Green,
        _ => Color::Yellow,
    }
}

fn suit_kind_at(i: usize) -> (r: CardKind)
    requires
        i < 13,
    ensures
        kind_index(r) == i,
        is_suit_kind(r),
{
    match i {
        0 => CardKind::Reverse,
        1 => CardKind::DrawTwo,
        2 => CardKind::Cancel,
        3 => CardKind::Zero,
        4 => CardKind::One,
        5 => CardKind::Two,
        6 => CardKind::Three,
        7 => CardKind::Four,
        8 => CardKind::Five,
        9 => CardKind::Six,
        10 => CardKind::Seven,
        11 => CardKind::Eight,
        _ => CardKind::Nine,
    }
}

proof fn lemma_kind_index_injective(a: CardKind, b: CardKind)
    ensures
        kind_index(a) == kind_index(b) ==> a == b,
{
}

proof fn lemma_color_index_injective(a: Color, b: Color)
    ensures
        color_index(a) == color_index(b) ==> a == b,
{
}

fn push_card(deck: &mut VecDeque<Card>, card: Card)
    ensures
        final(deck)@ == old(deck)@.push(card),
        forall|c: Card| #[trigger]
            final(deck)@.to_multiset().count(c) == old(deck)@.to_multiset().count(c) + if c
                == card {
                1int
            } else {
                0int
            },
{
    deck.push_back(card);
    proof {
        broadcast use vstd::seq_lib::group_to_multiset_ensures;

    }
}

/// Relies on `rand::random` (drawn from the thread-local generator): any
/// value may come back.
#[verifier::external_body]
fn random_seed() -> u64 {
    rand::random::<u64>()
}

/// Relies on rand's `SliceRandom::shuffle`, driven by
/// `StdRng::seed_from_u64(seed)`, on the deck seen as one slice
/// (`VecDeque::make_contiguous`, which keeps the order): the shuffle only
/// swaps elements, so the cards are permuted, none added or lost.
#[verifier::external_body]
fn shuffle_with_seed(deck: &mut VecDeque<Card>, seed: u64)
    ensures
        final(deck)@.len() == old(deck)@.len(),
        final(deck)@.to_multiset() == old(deck)@.to_multiset(),
{
    deck.make_contiguous().shuffle(&mut rand::rngs::StdRng::seed_from_u64(seed));
}

/// Permutes the cards of `deck` at random, reproducibly for a given `seed`.
pub fn shuffle_deck(deck: &mut VecDeque<Card>, seed: u64)
    ensures
        final(deck)@.len() == old(deck)@.len(),
        final(deck)@.to_multiset() == old(deck)@.to_multiset(),
{
    shuffle_with_seed(deck, seed);
}

/// Permutes the cards of `deck` with a freshly drawn random seed.
pub fn reshuffle_deck(deck: &mut VecDeque<Card>)
    ensures
        final(deck)@.len() == old(deck)@.len(),
        final(deck)@.to_multiset() == old(deck)@.to_multiset(),
{
    let seed = random_seed();
    shuffle_with_seed(deck, seed);
}

impl Card {
    /// A card of the given colour and kind.
    pub fn new(color: Color, kind: CardKind) -> (r: Card)
        ensures
            r.color == color,
            r.kind == kind,
    {
        Card { color, kind }
    }

    /// Whether this card may be played on `current`.
    pub fn matches(&self, current: &Card) -> (r: bool)
        ensures
            r == can_play_on(*self, *current),
    {
        self.color == Color::Wild || self.color == current.color || self.kind == current.kind
    }

    /// The canonical deck in its fixed, unshuffled order.
    pub fn ordered_deck() -> (deck: VecDeque<Card>)
        ensures
            deck@.len() == DECK_SIZE,
            forall|c: Card| #[trigger] deck@.to_multiset().count(c) == canonical_count(c),
    {
        let mut deck: VecDeque<Card> = VecDeque::new();
        proof {
            broadcast use vstd::seq_lib::group_to_multiset_ensures;
            broadcast use vstd::multiset::lemma_multiset_empty_len;

            assert(deck@.to_multiset().len() == 0);
            assert(deck@.to_multiset() =~= Multiset::empty());
        }
        let mut round: usize = 0;
        while round < 2
            invariant
                round <= 2,
                deck@.len() == 56 * round,
                forall|c: Card| #[trigger]
                    deck@.to_multiset().count(c) == built_count(round as nat, 0, 0, c),
            decreases 2 - round,
        {
            let mut ci: usize = 0;
            while ci < 4
                invariant
                    round < 2,
                    ci <= 4,
                    deck@.len() == 56 * round + 13 * ci,
                    forall|c: Card| #[trigger]
                        deck@.to_multiset().count(c) == built_count(round as nat, ci as nat, 0, c),
                decreases 4 - ci,
            {
                let color = color_at(ci);
                let mut ki: usize = 0;
                while ki < 13
                    invariant
                        round < 2,
                        ci < 4,
                        ki <= 13,
                        color_index(color) == ci,
                        color != Color::Wild,
                        deck@.len() == 56 * round + 13 * ci + ki,
                        forall|c: Card| #[trigger]
                            deck@.to_multiset().count(c) == built_count(
                                round as nat,
                                ci as nat,
                                ki as nat,
                                c,
                            ),
                    decreases 13 - ki,
                {
                    let kind = suit_kind_at(ki);
                    let card = Card { color, kind };
                    push_card(&mut deck, card);
                    assert forall|c: Card|
                        #[trigger] deck@.to_multiset().count(c) == built_count(
                            round as nat,
                            ci as nat,
                            (ki + 1) as nat,
                            c,
                        ) by {
                        lemma_kind_index_injective(c.kind, kind);
                        lemma_color_index_injective(c.color, color);
                    }
                    ki = ki + 1;
                }
                assert forall|c: Card|
                    #[trigger] deck@.to_multiset().count(c) == built_count(
                        round as nat,
                        (ci + 1) as nat,
                        0,
                        c,
                    ) by {
                    assert(built_count(round as nat, ci as nat, 13, c) == built_count(
                        round as nat,
                        (ci + 1) as nat,
                        0,
                        c,
                    ));
                }
                ci = ci + 1;
            }
            push_card(&mut deck, Card { color: Color::Wild, kind: CardKind::DrawFour });
            push_card(&mut deck, Card { color: Color::Wild, kind: CardKind::DrawFour });
            push_card(&mut deck, Card { color: Color::Wild, kind: CardKind::WildCard });
            push_card(&mut deck, Card { color: Color::Wild, kind: CardKind::WildCard });
            assert forall|c: Card|
                #[trigger] deck@.to_multiset().count(c) == built_count(
                    (round + 1) as nat,
                    0,
                    0,
                    c,
                ) by {
                assert(built_count(round as nat, 4, 0, c) == built_count(round as nat, 0, 0, c)
                    + if c.color != Color::Wild && is_suit_kind(c.kind) {
                    1nat
                } else {
                    0nat
                });
            }
            round = round + 1;
        }
        deck
    }

    /// The canonical deck, shuffled by a generator seeded with `seed`.
    pub fn seeded_deck(seed: u64) -> (deck: VecDeque<Card>)
        ensures
            is_canonical_deck(deck@),
    {
        let mut deck = Card::ordered_deck();
        shuffle_with_seed(&mut deck, seed);
        deck
    }

    /// The canonical deck in a random order.
    pub fn random_deck() -> (deck: VecDeque<Card>)
        ensures
            is_canonical_deck(deck@),
    {
        let mut deck = Card::ordered_deck();
        reshuffle_deck(&mut deck);
        deck
    }
}

} // verus!
