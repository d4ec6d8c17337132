use std::collections::VecDeque;
use uno::card::{Card, CardKind, Color};
use uno::game::{Game, GameplayError, Player, HAND_SIZE};

fn player(name: &str, seat: usize) -> Player {
    let mut p = Player::new();
    p.set_name(name);
    p.set_turn(seat);
    p
}

fn sorted(cards: Vec<Card>) -> Vec<(u8, u8)> {
    let mut v: Vec<(u8, u8)> = cards.iter().map(|c| (c.color as u8, c.kind as u8)).collect();
    v.sort();
    v
}

#[test]
fn two_players_deal_leaves_ninety_seven() {
    let mut game = Game::new();
    assert_eq!(game.deck().len(), 111);
    game.add_player(&player("ann", 0));
    game.add_player(&player("bob", 1));
    assert_eq!(game.players().len(), 2);
    let first = game.draw_hand().unwrap();
    let second = game.draw_hand().unwrap();
    assert_eq!(first.len(), 7);
    assert_eq!(second.len(), 7);
    assert_eq!(game.deck().len(), 97);
}

#[test]
fn scenario_matches_against_blue_five() {
    let game = Game::from_parts(Vec::new(), VecDeque::new(), Card::new(Color::Blue, CardKind::Five));
    assert!(game.card_matches(&Card::new(Color::Red, CardKind::Five)));
    assert!(!game.card_matches(&Card::new(Color::Green, CardKind::Two)));
    assert_eq!(*game.current_card(), Card::new(Color::Blue, CardKind::Five));
}

#[test]
fn new_game_holds_all_cards() {
    let game = Game::with_seed(3);
    let mut all: Vec<Card> = game.deck().iter().copied().collect();
    all.push(*game.current_card());
    let canonical: Vec<Card> = Card::ordered_deck().into_iter().collect();
    assert_eq!(sorted(all), sorted(canonical));
}

#[test]
fn hands_come_from_the_front_without_repeats() {
    let mut game = Game::with_seed(11);
    let before: Vec<Card> = game.deck().iter().copied().collect();
    let first = game.draw_hand().unwrap();
    let second = game.draw_hand().unwrap();
    assert_eq!(first, before[0..7].to_vec());
    assert_eq!(second, before[7..14].to_vec());
    let mut together = first.clone();
    together.extend(second);
    together.extend(game.deck().iter().copied());
    assert_eq!(together, before);
}

#[test]
fn draw_hand_fails_on_short_deck() {
    let deck: VecDeque<Card> = vec![Card::new(Color::Red, CardKind::One); 6].into();
    let mut game = Game::from_parts(Vec::new(), deck, Card::new(Color::Red, CardKind::Two));
    assert_eq!(game.draw_hand(), Err(GameplayError::NotEnoughCards));
    assert_eq!(game.deck().len(), 6);
    let deck: VecDeque<Card> = vec![Card::new(Color::Red, CardKind::One); HAND_SIZE].into();
    let mut game = Game::from_parts(Vec::new(), deck, Card::new(Color::Red, CardKind::Two));
    assert_eq!(game.draw_hand().unwrap().len(), 7);
    assert_eq!(game.deck().len(), 0);
    assert_eq!(game.draw_hand(), Err(GameplayError::NotEnoughCards));
}

#[test]
fn card_from_deck_top_pops_front() {
    let deck: VecDeque<Card> =
        vec![Card::new(Color::Red, CardKind::One), Card::new(Color::Blue, CardKind::Two)].into();
    let mut game = Game::from_parts(Vec::new(), deck, Card::new(Color::Red, CardKind::Two));
    assert_eq!(game.card_from_deck_top(), Some(Card::new(Color::Red, CardKind::One)));
    assert_eq!(game.card_from_deck_top(), Some(Card::new(Color::Blue, CardKind::Two)));
    assert_eq!(game.card_from_deck_top(), None);
}

#[test]
fn reshuffle_keeps_remaining_cards() {
    let mut game = Game::with_seed(5);
    game.draw_hand().unwrap();
    let before: Vec<Card> = game.deck().iter().copied().collect();
    game.reshuffle();
    let after: Vec<Card> = game.deck().iter().copied().collect();
    assert_eq!(sorted(before.clone()), sorted(after));
    game.reshuffle_with_seed(9);
    let after: Vec<Card> = game.deck().iter().copied().collect();
    assert_eq!(sorted(before), sorted(after));
}

#[test]
fn player_setters_and_getters() {
    let mut p = Player::new();
    assert_eq!(*p.id(), 0);
    assert!(p.cards().is_empty());
    assert_eq!(p.name(), "");
    p.set_name("carol");
    p.set_turn(4);
    p.set_cards(vec![Card::new(Color::Yellow, CardKind::Nine)]);
    assert_eq!(p.name(), "carol");
    assert_eq!(*p.id(), 4);
    assert_eq!(p.cards(), &vec![Card::new(Color::Yellow, CardKind::Nine)]);
    let q = p.clone();
    assert_eq!(q.name(), "carol");
    assert_eq!(*q.id(), 4);
}

#[test]
fn add_player_stores_a_copy() {
    let mut game = Game::with_seed(1);
    let mut p = player("dan", 2);
    game.add_player(&p);
    p.set_name("changed");
    assert_eq!(game.players()[0].name(), "dan");
    assert_eq!(game.find_player_index(2), Some(0));
    assert_eq!(game.find_player_index(3), None);
}
