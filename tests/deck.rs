use std::collections::VecDeque;
use uno::card::{shuffle_deck, Card, CardKind, Color, DECK_SIZE};

const COLORS: [Color; 5] = [Color::Red, Color::Blue, Color::Green, Color::Yellow, Color::Wild];
const KINDS: [CardKind; 15] = [
    CardKind::WildCard,
    CardKind::DrawFour,
    CardKind::DrawTwo,
    CardKind::Cancel,
    CardKind::Reverse,
    CardKind::Zero,
    CardKind::One,
    CardKind::Two,
    CardKind::Three,
    CardKind::Four,
    CardKind::Five,
    CardKind::Six,
    CardKind::Seven,
    CardKind::Eight,
    CardKind::Nine,
];

fn count(deck: &VecDeque<Card>, card: Card) -> usize {
    deck.iter().filter(|c| **c == card).count()
}

fn expected(card: Card) -> usize {
    match (card.color, card.kind) {
        (Color::Wild, CardKind::WildCard) | (Color::Wild, CardKind::DrawFour) => 4,
        (Color::Wild, _) => 0,
        (_, CardKind::WildCard) | (_, CardKind::DrawFour) => 0,
        _ => 2,
    }
}

fn assert_canonical(deck: &VecDeque<Card>) {
    assert_eq!(deck.len(), 112);
    for color in COLORS {
        for kind in KINDS {
            let card = Card::new(color, kind);
            assert_eq!(count(deck, card), expected(card), "{:?}", card);
        }
    }
}

#[test]
fn random_deck_is_canonical() {
    assert_eq!(DECK_SIZE, 112);
    assert_canonical(&Card::random_deck());
    assert_canonical(&Card::random_deck());
}

#[test]
fn ordered_deck_is_canonical() {
    let deck = Card::ordered_deck();
    assert_canonical(&deck);
    assert_eq!(deck[0], Card::new(Color::Red, CardKind::Reverse));
    assert_eq!(deck[52], Card::new(Color::Wild, CardKind::DrawFour));
    assert_eq!(deck[111], Card::new(Color::Wild, CardKind::WildCard));
}

#[test]
fn seeded_deck_is_reproducible() {
    let a = Card::seeded_deck(7);
    let b = Card::seeded_deck(7);
    assert_canonical(&a);
    assert_eq!(a, b);
    assert_ne!(a, Card::ordered_deck());
}

#[test]
fn shuffle_keeps_cards_and_changes_order() {
    let ordered = Card::ordered_deck();
    let mut changed = 0;
    for seed in 0..20u64 {
        let mut deck = ordered.clone();
        shuffle_deck(&mut deck, seed);
        assert_canonical(&deck);
        if deck != ordered {
            changed += 1;
        }
    }
    assert!(changed >= 19);
}

#[test]
fn kind_match_across_colors() {
    let current = Card::new(Color::Blue, CardKind::Five);
    assert!(Card::new(Color::Red, CardKind::Five).matches(&current));
    assert!(!Card::new(Color::Green, CardKind::Two).matches(&current));
    assert!(Card::new(Color::Blue, CardKind::Two).matches(&current));
    assert!(Card::new(Color::Wild, CardKind::DrawFour).matches(&current));
    assert!(Card::new(Color::Wild, CardKind::WildCard).matches(&current));
}

#[test]
fn matches_is_color_or_kind_or_wild() {
    for c1 in COLORS {
        for k1 in KINDS {
            for c2 in COLORS {
                for k2 in KINDS {
                    let x = Card::new(c1, k1);
                    let cur = Card::new(c2, k2);
                    assert_eq!(x.matches(&cur), c1 == Color::Wild || c1 == c2 || k1 == k2);
                }
            }
        }
    }
}
