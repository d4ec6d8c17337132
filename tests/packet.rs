use std::collections::VecDeque;
use uno::card::{Card, CardKind, Color};
use uno::codec::CodecError;
use uno::game::{Game, Player};
use uno::packet::{Packet, ResponseKind};

fn player(name: &str, seat: usize, cards: Vec<Card>) -> Player {
    let mut p = Player::new();
    p.set_name(name);
    p.set_turn(seat);
    p.set_cards(cards);
    p
}

fn small_game() -> Game {
    let deck: VecDeque<Card> =
        vec![Card::new(Color::Green, CardKind::Seven), Card::new(Color::Wild, CardKind::DrawFour)].into();
    let mut game = Game::from_parts(Vec::new(), deck, Card::new(Color::Blue, CardKind::Five));
    game.add_player(&player("ann", 0, vec![Card::new(Color::Red, CardKind::One)]));
    game.add_player(&player("bob", 1, vec![Card::new(Color::Yellow, CardKind::Reverse)]));
    game
}

fn same_player(a: &Player, b: &Player) -> bool {
    a.name() == b.name() && a.id() == b.id() && a.cards() == b.cards()
}

fn same_game(a: &Game, b: &Game) -> bool {
    a.deck() == b.deck()
        && a.current_card() == b.current_card()
        && a.players().len() == b.players().len()
        && a.players().iter().zip(b.players().iter()).all(|(x, y)| same_player(x, y))
}

fn same_packet(a: &Packet, b: &Packet) -> bool {
    let games = match (a.game(), b.game()) {
        (None, None) => true,
        (Some(x), Some(y)) => same_game(x, y),
        _ => false,
    };
    let froms = match (a.recieved_from(), b.recieved_from()) {
        (None, None) => true,
        (Some(x), Some(y)) => same_player(x, y),
        _ => false,
    };
    games
        && froms
        && a.card() == b.card()
        && a.response_kind() == b.response_kind()
        && a.response_text() == b.response_text()
}

#[test]
fn new_packet_reports_success() {
    let p = Packet::new(&None, &None);
    assert_eq!(p.success(), (true, &None));
    assert!(p.game().is_none());
    assert!(p.recieved_from().is_none());
    assert!(p.card().is_none());
}

#[test]
fn set_error_reports_failure_with_text() {
    let mut p = Packet::new(&Some(small_game()), &None);
    p.set_error(Some("bad move".to_string()));
    assert_eq!(p.success(), (false, &Some("bad move".to_string())));
    p.set_error(None);
    assert_eq!(p.success(), (false, &None));
}

#[test]
fn success_hides_text() {
    let p = Packet::from_parts(None, None, None, ResponseKind::Success, Some("x".to_string()));
    assert_eq!(p.success(), (true, &None));
}

#[test]
fn get_player_by_id() {
    let p = Packet::new(&Some(small_game()), &None);
    let who = player("someone", 1, Vec::new());
    assert_eq!(p.get_player(&who).unwrap().name(), "bob");
    let nobody = player("ann", 9, Vec::new());
    assert!(p.get_player(&nobody).is_none());
    let empty = Packet::new(&None, &None);
    assert!(empty.get_player(&who).is_none());
}

#[test]
fn get_player_mut_changes_hand() {
    let mut p = Packet::new(&Some(small_game()), &None);
    let who = player("", 0, Vec::new());
    let hand = vec![Card::new(Color::Green, CardKind::Zero), Card::new(Color::Green, CardKind::Nine)];
    p.get_player_mut(&who).unwrap().set_cards(hand.clone());
    assert_eq!(p.get_player(&who).unwrap().cards(), &hand);
    assert_eq!(p.get_player(&player("", 1, Vec::new())).unwrap().cards().len(), 1);
    let mut empty = Packet::new(&None, &None);
    assert!(empty.get_player_mut(&who).is_none());
}

#[test]
fn set_card_and_accessors() {
    let mut p = Packet::new(&None, &Some(player("ann", 0, Vec::new())));
    p.set_card(&Card::new(Color::Red, CardKind::DrawTwo));
    assert_eq!(p.card(), &Some(Card::new(Color::Red, CardKind::DrawTwo)));
    assert_eq!(p.recieved_from().as_ref().unwrap().name(), "ann");
    p.mut_recieved_from().as_mut().unwrap().set_turn(3);
    assert_eq!(*p.recieved_from().as_ref().unwrap().id(), 3);
    *p.game_mut() = Some(small_game());
    assert_eq!(p.game().as_ref().unwrap().players().len(), 2);
}

#[test]
fn encode_empty_packet_bytes() {
    let p = Packet::new(&None, &None);
    assert_eq!(p.encode(), vec![0, 0, 0, 1, 0, 0, 0, 0]);
}

#[test]
fn round_trip_empty_packet() {
    let p = Packet::new(&None, &None);
    let q = Packet::decode(&p.encode()).unwrap();
    assert!(same_packet(&p, &q));
}

#[test]
fn round_trip_full_packet() {
    let mut p = Packet::new(&Some(small_game()), &Some(player("ann", 0, vec![Card::new(Color::Red, CardKind::One)])));
    p.set_card(&Card::new(Color::Wild, CardKind::WildCard));
    p.set_error(Some("not your turn".to_string()));
    let q = Packet::decode(&p.encode()).unwrap();
    assert!(same_packet(&p, &q));
    assert_eq!(q.success(), (false, &Some("not your turn".to_string())));
}

#[test]
fn round_trip_new_game() {
    let p = Packet::new(&Some(Game::with_seed(21)), &None);
    let q = Packet::decode(&p.encode()).unwrap();
    assert!(same_packet(&p, &q));
    assert_eq!(q.game().as_ref().unwrap().deck().len(), 111);
}

#[test]
fn decode_rejects_garbage() {
    assert_eq!(Packet::decode(&[]).err(), Some(CodecError::Decode));
    assert_eq!(Packet::decode(&[7]).err(), Some(CodecError::Decode));
}

#[test]
fn decode_rejects_unknown_codes() {
    let mut p = Packet::new(&None, &None);
    p.set_card(&Card::new(Color::Red, CardKind::One));
    let mut bytes = p.encode();
    let n = bytes.len();
    bytes[n - 8] = 9;
    assert_eq!(Packet::decode(&bytes).err(), Some(CodecError::InvalidCode));
    let mut bytes = Packet::new(&None, &None).encode();
    bytes[3] = 2;
    assert_eq!(Packet::decode(&bytes).err(), Some(CodecError::InvalidCode));
}

#[test]
fn truncated_payload_never_decodes_silently() {
    let p = Packet::new(&Some(small_game()), &None);
    let bytes = p.encode();
    for k in 0..bytes.len() {
        assert!(Packet::decode(&bytes[..k]).is_err());
    }
}
