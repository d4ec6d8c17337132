use vstd::prelude::*;
use std::collections::VecDeque;
use crate::card::{Card, can_play_on, canonical_count, is_canonical_deck, reshuffle_deck, shuffle_deck, DECK_SIZE};

verus! {

/// Number of cards in a hand.
pub const HAND_SIZE: usize = 7;

/// What a player is, seen by the contracts.
pub ghost struct PlayerModel {
    pub name: Seq<char>,
    /// Both the player's seat in the turn order and the key by which the
    /// player is found in a game's player list.
    pub id: usize,
    pub cards: Seq<Card>,
}

/// What a game is, seen by the contracts: its players in arrival order,
/// the deck from front to back, and the card on top of the discard pile.
pub ghost struct GameModel {
    pub players: Seq<PlayerModel>,
    pub deck: Seq<Card>,
    pub current: Card,
}

/// A participant: a display name, a seat that doubles as an identifier,
/// and a hand of cards.
#[derive(Debug)]
pub struct Player {
    name: String,
    turn: usize,
    cards: Vec<Card>,
}

/// The state of one match.
#[derive(Debug)]
pub struct Game {
    players: Vec<Player>,
    deck: VecDeque<Card>,
    current_card: Card,
}

/// A failure of the game's own rules.
#[derive(Clone, Copy, Debug, PartialEq, Eq, Structural)]
pub enum GameplayError {
    /// The deck holds fewer cards than a hand needs.
    NotEnoughCards,
}

impl View for Player {
    type V = PlayerModel;

    closed spec fn view(&self) -> PlayerModel {
        PlayerModel { name: self.name@, id: self.turn, cards: self.cards@ }
    }
}

impl View for Game {
    type V = GameModel;

    closed spec fn view(&self) -> GameModel {
        GameModel {
            players: players_view(self.players@),
            deck: self.deck@,
            current: self.current_card,
        }
    }
}

fn copy_cards(cards: &Vec<Card>) -> (r: Vec<Card>)
    ensures
        r@ == cards@,
{
    let mut r: Vec<Card> = Vec::new();
    let mut i: usize = 0;
    while i < cards.len()
        invariant
            i <= cards@.len(),
            r@ == cards@.take(i as int),
        decreases cards@.len() - i,
    {
        r.push(cards[i]);
        assert(cards@.take(i as int).push(cards@[i as int]) =~= cards@.take((i + 1) as int));
        i = i + 1;
    }
    assert(cards@.take(cards@.len() as int) =~= cards@);
    r
}

impl Clone for Player {
    fn clone(&self) -> (r: Player)
        ensures
            r@ == self@,
    {
        Player { name: self.name.clone(), turn: self.turn, cards: copy_cards(&self.cards) }
    }
}

impl Player {
    /// A player with an empty name, seat zero and no cards.
    pub fn new() -> (r: Player)
        ensures
            r@.name == Seq::<char>::empty(),
            r@.id == 0,
            r@.cards == Seq::<Card>::empty(),
    {
        Player { name: String::new(), turn: 0, cards: Vec::new() }
    }

    /// Sets the display name, leaving seat and hand as they were.
    pub fn set_name(&mut self, name: &str)
        ensures
            final(self)@ == (PlayerModel { name: name@, ..old(self)@ }),
    {
        self.name = name.to_string();
    }

    /// Sets the seat, which is also the player's identifier.
    pub fn set_turn(&mut self, turn: usize)
        ensures
            final(self)@ == (PlayerModel { id: turn, ..old(self)@ }),
    {
        self.turn = turn;
    }

    /// Replaces the hand.
    pub fn set_cards(&mut self, cards: Vec<Card>)
        ensures
            final(self)@ == (PlayerModel { cards: cards@, ..old(self)@ }),
    {
        self.cards = cards;
    }

    /// The hand.
    pub fn cards(&self) -> (r: &Vec<Card>)
        ensures
            r@ == self@.cards,
    {
        &self.cards
    }

    /// The seat, which is also the player's identifier.
    pub fn id(&self) -> (r: &usize)
        ensures
            *r == self@.id,
    {
        &self.turn
    }

    /// The display name.
    pub fn name(&self) -> (r: &String)
        ensures
            r@ == self@.name,
    {
        &self.name
    }
}

/// A game whose deck, together with its current card, is exactly the
/// canonical set of cards.
pub open spec fn holds_canonical_cards(g: GameModel) -> bool {
    forall|c: Card| #[trigger]
        g.deck.to_multiset().insert(g.current).count(c) == canonical_count(c)
}

/// `i` is the first position in `players` whose id is `id`.
pub open spec fn is_first_with_id(players: Seq<PlayerModel>, id: usize, i: int) -> bool {
    &&& 0 <= i < players.len()
    &&& players[i].id == id
    &&& forall|j: int| 0 <= j < i ==> (#[trigger] players[j]).id != id
}

/// Some player in `players` has id `id`.
pub open spec fn has_player_with_id(players: Seq<PlayerModel>, id: usize) -> bool {
    exists|i: int| 0 <= i < players.len() && (#[trigger] players[i]).id == id
}

/// The models of a sequence of players.
pub open spec fn players_view(s: Seq<Player>) -> Seq<PlayerModel> {
    s.map_values(|p: Player| p@)
}

broadcast proof fn lemma_players_view_update(s: Seq<Player>, i: int, p: Player)
    requires
        0 <= i < s.len(),
    ensures
        #[trigger] players_view(s.update(i, p)) == players_view(s).update(i, p@),
{
    assert(players_view(s.update(i, p)) =~= players_view(s).update(i, p@));
}

/// Law: two hands dealt one after the other from `deck`, and what is left
/// of it, are the cards of `deck` in order; no card is dealt twice and
/// none is lost.
pub proof fn lemma_successive_hands(deck: Seq<Card>)
    requires
        deck.len() >= 2 * HAND_SIZE,
    ensures
        ({
            let first = deck.take(HAND_SIZE as int);
            let rest = deck.skip(HAND_SIZE as int);
            let second = rest.take(HAND_SIZE as int);
            let left = rest.skip(HAND_SIZE as int);
            &&& first.len() == HAND_SIZE && second.len() == HAND_SIZE
            &&& left.len() == deck.len() - 2 * HAND_SIZE
            &&& first + second + left == deck
            &&& first.to_multiset().add(second.to_multiset()).add(left.to_multiset())
                == deck.to_multiset()
        }),
{
    let first = deck.take(HAND_SIZE as int);
    let rest = deck.skip(HAND_SIZE as int);
    let second = rest.take(HAND_SIZE as int);
    let left = rest.skip(HAND_SIZE as int);
    assert(first + second + left =~= deck);
    vstd::seq_lib::lemma_multiset_commutative(first + second, left);
    vstd::seq_lib::lemma_multiset_commutative(first, second);
}

fn copy_players(players: &Vec<Player>) -> (r: Vec<Player>)
    ensures
        players_view(r@) == players_view(players@),
{
    let mut r: Vec<Player> = Vec::new();
    let mut i: usize = 0;
    while i < players.len()
        invariant
            i <= players@.len(),
            r@.len() == i,
            forall|j: int| 0 <= j < i ==> (#[trigger] r@[j])@ == players@[j]@,
        decreases players@.len() - i,
    {
        r.push(players[i].clone());
        i = i + 1;
    }
    assert(players_view(r@) =~= players_view(players@));
    r
}

impl Clone for Game {
    fn clone(&self) -> (r: Game)
        ensures
            r@ == self@,
    {
        Game {
            players: copy_players(&self.players),
            deck: self.deck.clone(),
            current_card: self.current_card,
        }
    }
}

impl Game {
    /// A game with no players over `deck`, whose front card becomes the
    /// current card; `None` when `deck` is empty.
    fn from_deck(deck: VecDeque<Card>) -> (r: Option<Game>)
        ensures
            deck@.len() == 0 <==> r is None,
            r matches Some(g) ==> {
                &&& g@.players == Seq::<PlayerModel>::empty()
                &&& g@.current == deck@[0]
                &&& g@.deck == deck@.drop_first()
            },
    {
        let mut deck = deck;
        match deck.pop_front() {
            Some(current_card) => {
                let r = Game { players: Vec::new(), deck, current_card };
                assert(r@.players =~= Seq::<PlayerModel>::empty());
                Some(r)
            },
            None => None,
        }
    }

    /// A new game over the canonical deck shuffled with a generator seeded
    /// with `seed`; its front card is taken as the current card.
    pub fn with_seed(seed: u64) -> (r: Game)
        ensures
            r@.players == Seq::<PlayerModel>::empty(),
            r@.deck.len() == DECK_SIZE - 1,
            holds_canonical_cards(r@),
    {
        let deck = Card::seeded_deck(seed);
        Game::start(deck)
    }

    /// A new game over the canonical deck in a random order; its front card
    /// is taken as the current card.
    pub fn new() -> (r: Game)
        ensures
            r@.players == Seq::<PlayerModel>::empty(),
            r@.deck.len() == DECK_SIZE - 1,
            holds_canonical_cards(r@),
    {
        let deck = Card::random_deck();
        Game::start(deck)
    }

    fn start(deck: VecDeque<Card>) -> (r: Game)
        requires
            is_canonical_deck(deck@),
        ensures
            r@.players == Seq::<PlayerModel>::empty(),
            r@.deck.len() == DECK_SIZE - 1,
            holds_canonical_cards(r@),
    {
        let ghost d = deck@;
        match Game::from_deck(deck) {
            Some(g) => {
                proof {
                    broadcast use vstd::seq_lib::group_to_multiset_ensures;

                    assert(d.drop_first() =~= d.remove(0));
                    assert(d.remove(0).to_multiset() =~= d.to_multiset().remove(d[0]));
                    assert(g@.deck.to_multiset().insert(g@.current) =~= d.to_multiset());
                }
                g
            },
            // a canonical deck is never empty
            None => vstd::pervasive::unreached(),
        }
    }

    /// Takes the front card of the deck, if there is one.
    pub fn card_from_deck_top(&mut self) -> (r: Option<Card>)
        ensures
            old(self)@.deck.len() == 0 ==> r is None && final(self)@ == old(self)@,
            old(self)@.deck.len() > 0 ==> {
                &&& r == Some(old(self)@.deck[0])
                &&& final(self)@ == (GameModel { deck: old(self)@.deck.drop_first(), ..old(self)@ })
            },
    {
        self.deck.pop_front()
    }

    /// Puts the remaining deck in a new random order; the cards stay the same.
    /// Nothing calls this on its own: when the deck runs short `draw_hand`
    /// fails, and it is for the caller to decide what happens next.
    pub fn reshuffle(&mut self)
        ensures
            final(self)@.players == old(self)@.players,
            final(self)@.current == old(self)@.current,
            final(self)@.deck.len() == old(self)@.deck.len(),
            final(self)@.deck.to_multiset() == old(self)@.deck.to_multiset(),
    {
        reshuffle_deck(&mut self.deck);
    }

    /// Puts the remaining deck in an order given by `seed`; the cards stay
    /// the same.
    pub fn reshuffle_with_seed(&mut self, seed: u64)
        ensures
            final(self)@.players == old(self)@.players,
            final(self)@.current == old(self)@.current,
            final(self)@.deck.len() == old(self)@.deck.len(),
            final(self)@.deck.to_multiset() == old(self)@.deck.to_multiset(),
    {
        shuffle_deck(&mut self.deck, seed);
    }

    /// Appends a copy of `player` to the player list.
    pub fn add_player(&mut self, player: &Player)
        ensures
            final(self)@ == (GameModel { players: old(self)@.players.push(player@), ..old(self)@ }),
    {
        let p = player.clone();
        self.players.push(p);
        assert(self@.players =~= old(self)@.players.push(player@));
    }

    /// Deals a hand: the first seven cards of the deck, in deck order. Fails,
    /// leaving the game as it was, when fewer than seven cards remain.
    pub fn draw_hand(&mut self) -> (r: Result<Vec<Card>, GameplayError>)
        ensures
            old(self)@.deck.len() < HAND_SIZE <==> r is Err,
            r matches Err(e) ==> e == GameplayError::NotEnoughCards && final(self)@ == old(self)@,
            r matches Ok(hand) ==> {
                &&& hand@ == old(self)@.deck.take(HAND_SIZE as int)
                &&& final(self)@ == (GameModel { deck: old(self)@.deck.skip(HAND_SIZE as int), ..old(self)@ })
            },
    {
        if self.deck.len() < HAND_SIZE {
            return Err(GameplayError::NotEnoughCards);
        }
        let ghost d = self@.deck;
        let mut hand: Vec<Card> = Vec::with_capacity(HAND_SIZE);
        let mut i: usize = 0;
        assert(d.skip(0) =~= d);
        assert(d.take(0) =~= Seq::<Card>::empty());
        while i < HAND_SIZE
            invariant
                i <= HAND_SIZE,
                d.len() >= HAND_SIZE,
                hand@ == d.take(i as int),
                self@ == (GameModel { deck: d.skip(i as int), ..old(self)@ }),
            decreases HAND_SIZE - i,
        {
            match self.card_from_deck_top() {
                Some(card) => {
                    hand.push(card);
                },
                None => vstd::pervasive::unreached(),
            }
            assert(d.take(i as int).push(d[i as int]) =~= d.take((i + 1) as int));
            assert(d.skip(i as int).drop_first() =~= d.skip((i + 1) as int));
            i = i + 1;
        }
        Ok(hand)
    }

    /// The card on top of the discard pile.
    pub fn current_card(&self) -> (r: &Card)
        ensures
            *r == self@.current,
    {
        &self.current_card
    }

    /// Whether `card` may be played on the current card.
    pub fn card_matches(&self, card: &Card) -> (r: bool)
        ensures
            r == can_play_on(*card, self@.current),
    {
        card.matches(&self.current_card)
    }

    /// The position of the first player whose id is `id`.
    pub fn find_player_index(&self, id: usize) -> (r: Option<usize>)
        ensures
            r is None <==> !has_player_with_id(self@.players, id),
            r matches Some(i) ==> is_first_with_id(self@.players, id, i as int),
    {
        let mut i: usize = 0;
        while i < self.players.len()
            invariant
                i <= self@.players.len(),
                self@.players.len() == self.players@.len(),
                forall|j: int| 0 <= j < i ==> (#[trigger] self@.players[j]).id != id,
            decreases self.players@.len() - i,
        {
            if self.players[i].turn == id {
                assert(self@.players[i as int].id == id);
                return Some(i);
            }
            i = i + 1;
        }
        None
    }

    /// The player at position `i`, to be changed in place.
    pub fn player_at_mut(&mut self, i: usize) -> (r: &mut Player)
        requires
            i < old(self)@.players.len(),
        ensures
            r@ == old(self)@.players[i as int],
            final(self)@ == (GameModel {
                players: old(self)@.players.update(i as int, final(r)@),
                ..old(self)@
            }),
    {
        let r = &mut self.players[i];
        proof {
            broadcast use lemma_players_view_update;

        }
        r
    }

    /// The player at position `i`.
    pub fn player_at(&self, i: usize) -> (r: &Player)
        requires
            i < self@.players.len(),
        ensures
            r@ == self@.players[i as int],
    {
        &self.players[i]
    }

    /// The players in arrival order.
    pub fn players(&self) -> (r: &Vec<Player>)
        ensures
            players_view(r@) == self@.players,
    {
        &self.players
    }

    /// The remaining deck, front first.
    pub fn deck(&self) -> (r: &VecDeque<Card>)
        ensures
            r@ == self@.deck,
    {
        &self.deck
    }

    /// A game assembled from its parts.
    pub fn from_parts(players: Vec<Player>, deck: VecDeque<Card>, current_card: Card) -> (r: Game)
        ensures
            r@.players == players_view(players@),
            r@.deck == deck@,
            r@.current == current_card,
    {
        Game { players, deck, current_card }
    }
}

} // verus!
