use vstd::prelude::*;
use std::collections::VecDeque;
use crate::card::{Card, CardKind, Color};
use crate::game::{Game, GameModel, Player, PlayerModel, players_view};
use crate::packet::{Packet, PacketModel, ResponseKind};

verus! {

/// A card as it goes on the wire: the indices of its colour and its kind.
pub type WireCard = (u32, u32);

/// A player as it goes on the wire: name, seat, hand.
pub type WirePlayer = (String, usize, Vec<WireCard>);

/// A game as it goes on the wire: players, deck front first, current card.
pub type WireGame = (Vec<WirePlayer>, Vec<WireCard>, WireCard);

/// A response as it goes on the wire: text, and the index of its kind.
pub type WireResponse = (Option<String>, u32);

/// A message as it goes on the wire: game, sender, response, card.
pub type WirePacket = (Option<WireGame>, Option<WirePlayer>, WireResponse, Option<WireCard>);

pub type PlayerWireModel = (Seq<char>, usize, Seq<WireCard>);

pub type GameWireModel = (Seq<PlayerWireModel>, Seq<WireCard>, WireCard);

pub type PacketWireModel = (
    Option<GameWireModel>,
    Option<PlayerWireModel>,
    (Option<Seq<char>>, u32),
    Option<WireCard>,
);

/// Why a message could not be encoded or decoded.
#[derive(Clone, Copy, Debug, PartialEq, Eq, Structural)]
pub enum CodecError {
    /// The bytes are not the encoding of a message of this shape.
    Decode,
    /// The bytes hold a colour, kind or response index that does not exist.
    InvalidCode,
}

/// The bytes that bincode writes for a message.
pub uninterp spec fn bincode_bytes(w: PacketWireModel) -> Seq<u8>;

/// The message that bincode reads from the start of `b`, if any.
pub uninterp spec fn bincode_value(b: Seq<u8>) -> Option<PacketWireModel>;

#[verifier::external_type_specification]
#[verifier::external_body]
pub struct ExBincodeErrorKind(bincode::ErrorKind);

/// Relies on `bincode::serialize`, whose output depends on the value alone.
/// It cannot fail here: the default options set no size limit, every
/// sequence in a message has a known length, and the output goes to a
/// `Vec`. As bincode documents, deserializing the bytes gives the value back.
#[verifier::external_body]
fn bincode_encode(w: &WirePacket) -> (r: Result<Vec<u8>, Box<bincode::ErrorKind>>)
    ensures
        r is Ok,
        r matches Ok(b) ==> b@ == bincode_bytes(packet_wire_view(*w)),
        r matches Ok(b) ==> bincode_value(b@) == Some(packet_wire_view(*w)),
{
    bincode::serialize(w)
}

/// Relies on `bincode::deserialize`, whose result depends on the bytes alone.
#[verifier::external_body]
fn bincode_decode(b: &[u8]) -> (r: Result<WirePacket, Box<bincode::ErrorKind>>)
    ensures
        r is Ok <==> bincode_value(b@) is Some,
        r matches Ok(w) ==> bincode_value(b@) == Some(packet_wire_view(w)),
{
    bincode::deserialize::<WirePacket>(b)
}

pub open spec fn text_wire_view(t: Option<String>) -> Option<Seq<char>> {
    match t {
        Some(s) => Some(s@),
        None => None,
    }
}

pub open spec fn player_wire_view(w: WirePlayer) -> PlayerWireModel {
    (w.0@, w.1, w.2@)
}

pub open spec fn game_wire_view(w: WireGame) -> GameWireModel {
    (w.0@.map_values(|p: WirePlayer| player_wire_view(p)), w.1@, w.2)
}

pub open spec fn packet_wire_view(w: WirePacket) -> PacketWireModel {
    (
        match w.0 {
            Some(g) => Some(game_wire_view(g)),
            None => None,
        },
        match w.1 {
            Some(p) => Some(player_wire_view(p)),
            None => None,
        },
        (text_wire_view(w.2.0), w.2.1),
        w.3,
    )
}

pub open spec fn color_code(c: Color) -> u32 {
    match c {
        Color::Red => 0,
        Color::Blue => 1,
        Color::Green => 2,
        Color::Yellow => 3,
        Color::Wild => 4,
    }
}

pub open spec fn kind_code(k: CardKind) -> u32 {
    match k {
        CardKind::WildCard => 0,
        CardKind::DrawFour => 1,
        CardKind::DrawTwo => 2,
        CardKind::Cancel => 3,
        CardKind::Reverse => 4,
        CardKind::Zero => 5,
        CardKind::One => 6,
        CardKind::Two => 7,
        CardKind::Three => 8,
        CardKind::Four => 9,
        CardKind::Five => 10,
        CardKind::Six => 11,
        CardKind::Seven => 12,
        CardKind::Eight => 13,
        CardKind::Nine => 14,
    }
}

pub open spec fn response_code(k: ResponseKind) -> u32 {
    match k {
        ResponseKind::Error => 0,
        ResponseKind::Success => 1,
    }
}

pub open spec fn card_wire(c: Card) -> WireCard {
    (color_code(c.color), kind_code(c.kind))
}

pub open spec fn cards_wire(s: Seq<Card>) -> Seq<WireCard> {
    s.map_values(|c: Card| card_wire(c))
}

pub open spec fn player_wire(p: PlayerModel) -> PlayerWireModel {
    (p.name, p.id, cards_wire(p.cards))
}

pub open spec fn game_wire(g: GameModel) -> GameWireModel {
    (g.players.map_values(|p: PlayerModel| player_wire(p)), cards_wire(g.deck), card_wire(g.current))
}

/// The wire form of a message.
pub open spec fn packet_wire(p: PacketModel) -> PacketWireModel {
    (
        match p.game {
            Some(g) => Some(game_wire(g)),
            None => None,
        },
        match p.from {
            Some(f) => Some(player_wire(f)),
            None => None,
        },
        (p.text, response_code(p.kind)),
        match p.card {
            Some(c) => Some(card_wire(c)),
            None => None,
        },
    )
}

pub open spec fn card_wire_valid(w: WireCard) -> bool {
    w.0 < 5 && w.1 < 15
}

pub open spec fn cards_wire_valid(s: Seq<WireCard>) -> bool {
    forall|i: int| 0 <= i < s.len() ==> card_wire_valid(#[trigger] s[i])
}

pub open spec fn player_wire_valid(w: PlayerWireModel) -> bool {
    cards_wire_valid(w.2)
}

pub open spec fn game_wire_valid(w: GameWireModel) -> bool {
    &&& forall|i: int| 0 <= i < w.0.len() ==> player_wire_valid(#[trigger] w.0[i])
    &&& cards_wire_valid(w.1)
    &&& card_wire_valid(w.2)
}

/// Every colour, kind and response index in `w` exists.
pub open spec fn packet_wire_valid(w: PacketWireModel) -> bool {
    &&& (w.0 matches Some(g) ==> game_wire_valid(g))
    &&& (w.1 matches Some(p) ==> player_wire_valid(p))
    &&& w.2.1 < 2
    &&& (w.3 matches Some(c) ==> card_wire_valid(c))
}

fn card_to_wire(c: &Card) -> (r: WireCard)
    ensures
        r == card_wire(*c),
{
    let color: u32 = match c.color {
        Color::Red => 0,
        Color::Blue => 1,
        Color::Green => 2,
        Color::Yellow => 3,
        Color::Wild => 4,
    };
    let kind: u32 = match c.kind {
        CardKind::WildCard => 0,
        CardKind::DrawFour => 1,
        CardKind::DrawTwo => 2,
        CardKind::Cancel => 3,
        CardKind::Reverse => 4,
        CardKind::Zero => 5,
        CardKind::One => 6,
        CardKind::Two => 7,
        CardKind::Three => 8,
        CardKind::Four => 9,
        CardKind::Five => 10,
        CardKind::Six => 11,
        CardKind::Seven => 12,
        CardKind::Eight => 13,
        CardKind::Nine => 14,
    };
    (color, kind)
}

fn card_from_wire(w: WireCard) -> (r: Option<Card>)
    ensures
        r is Some <==> card_wire_valid(w),
        r matches Some(c) ==> card_wire(c) == w,
{
    let color = match w.0 {
        0 => Color::Red,
        1 => Color::Blue,
        2 => Color::Green,
        3 => Color::Yellow,
        4 => Color::Wild,
        _ => {
            return None;
        },
    };
    let kind = match w.1 {
        0 => CardKind::WildCard,
        1 => CardKind::DrawFour,
        2 => CardKind::DrawTwo,
        3 => CardKind::Cancel,
        4 => CardKind::Reverse,
        5 => CardKind::Zero,
        6 => CardKind::One,
        7 => CardKind::Two,
        8 => CardKind::Three,
        9 => CardKind::Four,
        10 => CardKind::Five,
        11 => CardKind::Six,
        12 => CardKind::Seven,
        13 => CardKind::Eight,
        14 => CardKind::Nine,
        _ => {
            return None;
        },
    };
    Some(Card { color, kind })
}

fn cards_to_wire(cards: &Vec<Card>) -> (r: Vec<WireCard>)
    ensures
        r@ == cards_wire(cards@),
{
    let mut r: Vec<WireCard> = Vec::new();
    let mut i: usize = 0;
    while i < cards.len()
        invariant
            i <= cards@.len(),
            r@ == cards_wire(cards@.take(i as int)),
        decreases cards@.len() - i,
    {
        r.push(card_to_wire(&cards[i]));
        assert(cards@.take(i as int + 1).drop_last() =~= cards@.take(i as int));
        assert(cards_wire(cards@.take(i as int + 1)) =~= cards_wire(cards@.take(i as int)).push(
            card_wire(cards@[i as int]),
        ));
        i = i + 1;
    }
    assert(cards@.take(cards@.len() as int) =~= cards@);
    r
}

fn deck_to_wire(deck: &VecDeque<Card>) -> (r: Vec<WireCard>)
    ensures
        r@ == cards_wire(deck@),
{
    let mut r: Vec<WireCard> = Vec::new();
    let mut i: usize = 0;
    while i < deck.len()
        invariant
            i <= deck@.len(),
            r@ == cards_wire(deck@.take(i as int)),
        decreases deck@.len() - i,
    {
        r.push(card_to_wire(&deck[i]));
        assert(cards_wire(deck@.take(i as int + 1)) =~= cards_wire(deck@.take(i as int)).push(
            card_wire(deck@[i as int]),
        ));
        i = i + 1;
    }
    assert(deck@.take(deck@.len() as int) =~= deck@);
    r
}

fn cards_from_wire(w: &Vec<WireCard>) -> (r: Option<Vec<Card>>)
    ensures
        r is Some <==> cards_wire_valid(w@),
        r matches Some(v) ==> cards_wire(v@) == w@,
{
    let mut r: Vec<Card> = Vec::new();
    let mut i: usize = 0;
    while i < w.len()
        invariant
            i <= w@.len(),
            cards_wire(r@) == w@.take(i as int),
            cards_wire_valid(w@.take(i as int)),
        decreases w@.len() - i,
    {
        let ghost prev = r@;
        match card_from_wire(w[i]) {
            None => {
                assert(!card_wire_valid(w@[i as int]));
                return None;
            },
            Some(c) => {
                r.push(c);
            },
        }
        assert(cards_wire(r@) =~= cards_wire(prev).push(w@[i as int]));
        assert(cards_wire(r@) =~= w@.take(i as int + 1));
        assert(cards_wire_valid(w@.take(i as int + 1))) by {
            assert forall|k: int| 0 <= k < i + 1 implies card_wire_valid(
                #[trigger] w@.take(i as int + 1)[k],
            ) by {
                if k < i {
                    assert(w@.take(i as int + 1)[k] == w@.take(i as int)[k]);
                }
            }
        }
        i = i + 1;
    }
    assert(w@.take(w@.len() as int) =~= w@);
    Some(r)
}

fn deck_from_wire(w: &Vec<WireCard>) -> (r: Option<VecDeque<Card>>)
    ensures
        r is Some <==> cards_wire_valid(w@),
        r matches Some(v) ==> cards_wire(v@) == w@,
{
    let mut r: VecDeque<Card> = VecDeque::new();
    let mut i: usize = 0;
    while i < w.len()
        invariant
            i <= w@.len(),
            cards_wire(r@) == w@.take(i as int),
            cards_wire_valid(w@.take(i as int)),
        decreases w@.len() - i,
    {
        let ghost prev = r@;
        match card_from_wire(w[i]) {
            None => {
                assert(!card_wire_valid(w@[i as int]));
                return None;
            },
            Some(c) => {
                r.push_back(c);
            },
        }
        assert(cards_wire(r@) =~= cards_wire(prev).push(w@[i as int]));
        assert(cards_wire(r@) =~= w@.take(i as int + 1));
        assert(cards_wire_valid(w@.take(i as int + 1))) by {
            assert forall|k: int| 0 <= k < i + 1 implies card_wire_valid(
                #[trigger] w@.take(i as int + 1)[k],
            ) by {
                if k < i {
                    assert(w@.take(i as int + 1)[k] == w@.take(i as int)[k]);
                }
            }
        }
        i = i + 1;
    }
    assert(w@.take(w@.len() as int) =~= w@);
    Some(r)
}

fn player_to_wire(p: &Player) -> (r: WirePlayer)
    ensures
        player_wire_view(r) == player_wire(p@),
{
    (p.name().clone(), *p.id(), cards_to_wire(p.cards()))
}

fn player_from_wire(w: &WirePlayer) -> (r: Option<Player>)
    ensures
        r is Some <==> player_wire_valid(player_wire_view(*w)),
        r matches Some(p) ==> player_wire(p@) == player_wire_view(*w),
{
    let cards = match cards_from_wire(&w.2) {
        None => {
            return None;
        },
        Some(cards) => cards,
    };
    let mut p = Player::new();
    p.set_name(w.0.as_str());
    p.set_turn(w.1);
    p.set_cards(cards);
    Some(p)
}

fn game_to_wire(g: &Game) -> (r: WireGame)
    ensures
        game_wire_view(r) == game_wire(g@),
{
    let players = g.players();
    let mut r: Vec<WirePlayer> = Vec::new();
    let mut i: usize = 0;
    while i < players.len()
        invariant
            players_view(players@) == g@.players,
            i <= players@.len(),
            r@.len() == i,
            forall|j: int| 0 <= j < i ==> player_wire_view(#[trigger] r@[j]) == player_wire(g@.players[j]),
        decreases players@.len() - i,
    {
        r.push(player_to_wire(&players[i]));
        i = i + 1;
    }
    let w = (r, deck_to_wire(g.deck()), card_to_wire(g.current_card()));
    assert(game_wire_view(w).0 =~= game_wire(g@).0);
    w
}

fn game_from_wire(w: WireGame) -> (r: Option<Game>)
    ensures
        r is Some <==> game_wire_valid(game_wire_view(w)),
        r matches Some(g) ==> game_wire(g@) == game_wire_view(w),
{
    let ghost wv = game_wire_view(w);
    let mut ordered: Vec<Player> = Vec::new();
    let mut i: usize = 0;
    while i < w.0.len()
        invariant
            i <= w.0@.len(),
            wv == game_wire_view(w),
            ordered@.len() == i,
            forall|j: int| 0 <= j < i ==> player_wire_valid(#[trigger] wv.0[j]),
            forall|j: int| 0 <= j < i ==> player_wire(#[trigger] ordered@[j]@) == wv.0[j],
        decreases w.0@.len() - i,
    {
        match player_from_wire(&w.0[i]) {
            None => {
                assert(!player_wire_valid(wv.0[i as int]));
                assert(!game_wire_valid(wv));
                return None;
            },
            Some(p) => {
                ordered.push(p);
            },
        }
        i = i + 1;
    }
    let deck = match deck_from_wire(&w.1) {
        None => {
            return None;
        },
        Some(d) => d,
    };
    let current = match card_from_wire(w.2) {
        None => {
            return None;
        },
        Some(c) => c,
    };
    let g = Game::from_parts(ordered, deck, current);
    assert(game_wire(g@).0 =~= wv.0);
    Some(g)
}

proof fn lemma_card_wire(a: Card, b: Card)
    ensures
        card_wire_valid(card_wire(a)),
        card_wire(a) == card_wire(b) ==> a == b,
{
}

proof fn lemma_cards_wire(s: Seq<Card>, t: Seq<Card>)
    ensures
        cards_wire_valid(cards_wire(s)),
        cards_wire(s) == cards_wire(t) ==> s == t,
{
    assert forall|i: int| 0 <= i < s.len() implies card_wire_valid(#[trigger] cards_wire(s)[i]) by {
        lemma_card_wire(s[i], s[i]);
    }
    if cards_wire(s) == cards_wire(t) {
        assert(s.len() == cards_wire(s).len() && t.len() == cards_wire(t).len());
        assert forall|i: int| 0 <= i < s.len() implies s[i] == t[i] by {
            assert(cards_wire(s)[i] == cards_wire(t)[i]);
            assert(cards_wire(s)[i] == card_wire(s[i]) && cards_wire(t)[i] == card_wire(t[i]));
            lemma_card_wire(s[i], t[i]);
        }
        assert(s =~= t);
    }
}

proof fn lemma_player_wire(a: PlayerModel, b: PlayerModel)
    ensures
        player_wire_valid(player_wire(a)),
        player_wire(a) == player_wire(b) ==> a == b,
{
    lemma_cards_wire(a.cards, b.cards);
}

proof fn lemma_game_wire(a: GameModel, b: GameModel)
    ensures
        game_wire_valid(game_wire(a)),
        game_wire(a) == game_wire(b) ==> a == b,
{
    lemma_cards_wire(a.deck, b.deck);
    lemma_card_wire(a.current, b.current);
    let pa = game_wire(a).0;
    assert forall|i: int| 0 <= i < pa.len() implies player_wire_valid(#[trigger] pa[i]) by {
        lemma_player_wire(a.players[i], a.players[i]);
    }
    if game_wire(a) == game_wire(b) {
        assert(a.players.len() == game_wire(a).0.len() && b.players.len() == game_wire(b).0.len());
        assert forall|i: int| 0 <= i < a.players.len() implies a.players[i] == b.players[i] by {
            assert(game_wire(a).0[i] == game_wire(b).0[i]);
            assert(game_wire(a).0[i] == player_wire(a.players[i]));
            assert(game_wire(b).0[i] == player_wire(b.players[i]));
            lemma_player_wire(a.players[i], b.players[i]);
        }
        assert(a.players =~= b.players);
    }
}

/// Law: the wire form of every message is valid, and no other message has
/// the same wire form. So the message rebuilt from the wire form of `p` is
/// `p` itself.
pub proof fn lemma_wire_round_trip(p: PacketModel, q: PacketModel)
    ensures
        packet_wire_valid(packet_wire(p)),
        packet_wire(q) == packet_wire(p) ==> q == p,
{
    if let Some(g) = p.game {
        lemma_game_wire(g, g);
        if let Some(h) = q.game {
            lemma_game_wire(g, h);
        }
    }
    if let Some(f) = p.from {
        lemma_player_wire(f, f);
        if let Some(h) = q.from {
            lemma_player_wire(f, h);
        }
    }
    if let Some(c) = p.card {
        lemma_card_wire(c, c);
        if let Some(d) = q.card {
            lemma_card_wire(c, d);
        }
    }
}

/// Law: bytes that read back as the wire form of `p` (as the bytes of
/// `encode` do) decode to `p` itself: the wire form is valid, and no other
/// message has it.
pub proof fn lemma_bytes_round_trip(p: PacketModel, bytes: Seq<u8>, q: PacketModel)
    requires
        bincode_value(bytes) == Some(packet_wire(p)),
    ensures
        bincode_value(bytes) matches Some(w) && packet_wire_valid(w),
        packet_wire(q) == bincode_value(bytes)->0 ==> q == p,
{
    lemma_wire_round_trip(p, q);
}

impl Packet {
    /// The wire form of this message.
    pub fn to_wire(&self) -> (r: WirePacket)
        ensures
            packet_wire_view(r) == packet_wire(self@),
    {
        let game = match self.game() {
            Some(g) => Some(game_to_wire(g)),
            None => None,
        };
        let from = match self.recieved_from() {
            Some(p) => Some(player_to_wire(p)),
            None => None,
        };
        let kind: u32 = match self.response_kind() {
            ResponseKind::Error => 0,
            ResponseKind::Success => 1,
        };
        let text = match self.response_text() {
            Some(t) => Some(t.clone()),
            None => None,
        };
        let card = match self.card() {
            Some(c) => Some(card_to_wire(c)),
            None => None,
        };
        (game, from, (text, kind), card)
    }

    /// The message whose wire form is `w`; `None` when `w` holds a colour,
    /// kind or response index that does not exist.
    pub fn from_wire(w: WirePacket) -> (r: Option<Packet>)
        ensures
            r is Some <==> packet_wire_valid(packet_wire_view(w)),
            r matches Some(p) ==> packet_wire(p@) == packet_wire_view(w),
    {
        let ghost wv = packet_wire_view(w);
        let game = match w.0 {
            Some(g) => match game_from_wire(g) {
                Some(g) => Some(g),
                None => {
                    return None;
                },
            },
            None => None,
        };
        let from = match &w.1 {
            Some(p) => match player_from_wire(p) {
                Some(p) => Some(p),
                None => {
                    return None;
                },
            },
            None => None,
        };
        let kind = match w.2.1 {
            0 => ResponseKind::Error,
            1 => ResponseKind::Success,
            _ => {
                return None;
            },
        };
        let card = match w.3 {
            Some(c) => match card_from_wire(c) {
                Some(c) => Some(c),
                None => {
                    return None;
                },
            },
            None => None,
        };
        let p = Packet::from_parts(game, from, card, kind, w.2.0);
        Some(p)
    }

    /// The bytes that carry this message; decoding them reads back its
    /// wire form.
    pub fn encode(&self) -> (r: Vec<u8>)
        ensures
            r@ == bincode_bytes(packet_wire(self@)),
            bincode_value(r@) == Some(packet_wire(self@)),
    {
        let w = self.to_wire();
        match bincode_encode(&w) {
            Ok(b) => b,
            Err(_) => vstd::pervasive::unreached(),
        }
    }

    /// The message that `bytes` carry.
    pub fn decode(bytes: &[u8]) -> (r: Result<Packet, CodecError>)
        ensures
            match bincode_value(bytes@) {
                None => r == Err::<Packet, CodecError>(CodecError::Decode),
                Some(w) => if packet_wire_valid(w) {
                    r matches Ok(p) && packet_wire(p@) == w
                } else {
                    r == Err::<Packet, CodecError>(CodecError::InvalidCode)
                },
            },
    {
        match bincode_decode(bytes) {
            Err(_) => Err(CodecError::Decode),
            Ok(w) => match Packet::from_wire(w) {
                Some(p) => Ok(p),
                None => Err(CodecError::InvalidCode),
            },
        }
    }
}

} // verus!
