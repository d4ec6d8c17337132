use vstd::prelude::*;
use crate::card::Card;
use crate::game::{Game, GameModel, Player, PlayerModel, is_first_with_id, has_player_with_id};

verus! {

/// Whether a message reports success or an error.
#[derive(Clone, Copy, Debug, PartialEq, Eq, Structural)]
pub enum ResponseKind {
    Error,
    Success,
}

/// The status that every message carries.
#[derive(Debug)]
pub struct Response {
    text: Option<String>,
    kind: ResponseKind,
}

/// What a message is, seen by the contracts.
pub ghost struct PacketModel {
    pub game: Option<GameModel>,
    pub from: Option<PlayerModel>,
    pub card: Option<Card>,
    pub kind: ResponseKind,
    pub text: Option<Seq<char>>,
}

/// The message that peers exchange: an optional game snapshot, an optional
/// sender, an optional card and a mandatory response status.
#[derive(Debug)]
pub struct Packet {
    game: Option<Game>,
    from: Option<Player>,
    response: Response,
    card: Option<Card>,
}

pub open spec fn game_view(g: Option<Game>) -> Option<GameModel> {
    match g {
        Some(g) => Some(g@),
        None => None,
    }
}

pub open spec fn player_view(p: Option<Player>) -> Option<PlayerModel> {
    match p {
        Some(p) => Some(p@),
        None => None,
    }
}

pub open spec fn text_view(t: Option<String>) -> Option<Seq<char>> {
    match t {
        Some(t) => Some(t@),
        None => None,
    }
}

/// What `success` reports of a message: `(true, None)` on success,
/// `(false, text)` on error.
pub open spec fn reported(p: PacketModel) -> (bool, Option<Seq<char>>) {
    if p.kind == ResponseKind::Success {
        (true, None)
    } else {
        (false, p.text)
    }
}

/// A message as `new` makes it.
pub open spec fn fresh(game: Option<GameModel>, from: Option<PlayerModel>) -> PacketModel {
    PacketModel { game, from, card: None, kind: ResponseKind::Success, text: None }
}

/// A message after `set_error` with `text`.
pub open spec fn with_error(p: PacketModel, text: Option<Seq<char>>) -> PacketModel {
    PacketModel { kind: ResponseKind::Error, text, ..p }
}

/// Law: a new message reports success, and once an error is set it
/// reports failure with that error's text, whatever came before.
pub proof fn lemma_error_reported(
    game: Option<GameModel>,
    from: Option<PlayerModel>,
    p: PacketModel,
    text: Option<Seq<char>>,
)
    ensures
        reported(fresh(game, from)) == (true, None::<Seq<char>>),
        reported(with_error(p, text)) == (false, text),
        reported(with_error(with_error(p, text), text)) == reported(with_error(p, text)),
{
}

/// The effect of one method call on a message: `set_error` with a text, or
/// an edit by any other method, which may change the game, the sender and
/// the card and nothing else.
pub ghost enum PacketStep {
    SetError(Option<Seq<char>>),
    Edit(Option<GameModel>, Option<PlayerModel>, Option<Card>),
}

/// A message after one step.
pub open spec fn after_step(p: PacketModel, s: PacketStep) -> PacketModel {
    match s {
        PacketStep::SetError(text) => with_error(p, text),
        PacketStep::Edit(game, from, card) => PacketModel { game, from, card, ..p },
    }
}

/// A message after each of `steps` in turn.
pub open spec fn after_steps(p: PacketModel, steps: Seq<PacketStep>) -> PacketModel
    decreases steps.len(),
{
    if steps.len() == 0 {
        p
    } else {
        after_step(after_steps(p, steps.drop_last()), steps.last())
    }
}

/// The text of the last `set_error` among `steps`, if there is one.
pub open spec fn last_error(steps: Seq<PacketStep>) -> Option<Option<Seq<char>>>
    decreases steps.len(),
{
    if steps.len() == 0 {
        None
    } else {
        match steps.last() {
            PacketStep::SetError(text) => Some(text),
            PacketStep::Edit(_, _, _) => last_error(steps.drop_last()),
        }
    }
}

/// Law: a call that keeps the response kind and text, as every method but
/// `set_error` does, is an edit step.
pub proof fn lemma_edit_is_step(before: PacketModel, after: PacketModel)
    requires
        after.kind == before.kind,
        after.text == before.text,
    ensures
        after == after_step(before, PacketStep::Edit(after.game, after.from, after.card)),
{
}

/// Law: a new message, after any sequence of calls, reports success with
/// no text if and only if none of them was `set_error`; otherwise it
/// reports failure with the text of the last `set_error`.
pub proof fn lemma_reported_after_steps(
    game: Option<GameModel>,
    from: Option<PlayerModel>,
    steps: Seq<PacketStep>,
)
    ensures
        reported(after_steps(fresh(game, from), steps)) == match last_error(steps) {
            None => (true, None::<Seq<char>>),
            Some(text) => (false, text),
        },
        reported(after_steps(fresh(game, from), steps)).0 <==> last_error(steps) is None,
    decreases steps.len(),
{
    if steps.len() > 0 {
        lemma_reported_after_steps(game, from, steps.drop_last());
    }
}

impl View for Packet {
    type V = PacketModel;

    closed spec fn view(&self) -> PacketModel {
        PacketModel {
            game: game_view(self.game),
            from: player_view(self.from),
            card: self.card,
            kind: self.response.kind,
            text: text_view(self.response.text),
        }
    }
}

impl Packet {
    /// A successful message carrying copies of `game` and `from`, with no
    /// card and no text.
    pub fn new(game: &Option<Game>, from: &Option<Player>) -> (r: Packet)
        ensures
            r@ == fresh(game_view(*game), player_view(*from)),
    {
        let game = match game {
            Some(g) => Some(g.clone()),
            None => None,
        };
        let from = match from {
            Some(p) => Some(p.clone()),
            None => None,
        };
        Packet { game, from, card: None, response: Response { kind: ResponseKind::Success, text: None } }
    }

    /// A message assembled from its parts.
    pub fn from_parts(
        game: Option<Game>,
        from: Option<Player>,
        card: Option<Card>,
        kind: ResponseKind,
        text: Option<String>,
    ) -> (r: Packet)
        ensures
            r@ == (PacketModel {
                game: game_view(game),
                from: player_view(from),
                card,
                kind,
                text: text_view(text),
            }),
    {
        Packet { game, from, card, response: Response { kind, text } }
    }

    /// Whether the message reports success or an error.
    pub fn response_kind(&self) -> (r: ResponseKind)
        ensures
            r == self@.kind,
    {
        self.response.kind
    }

    /// The stored response text, whatever the kind.
    pub fn response_text(&self) -> (r: &Option<String>)
        ensures
            text_view(*r) == self@.text,
    {
        &self.response.text
    }

    /// The sender.
    pub fn recieved_from(&self) -> (r: &Option<Player>)
        ensures
            player_view(*r) == self@.from,
    {
        &self.from
    }

    /// The sender, to be changed in place.
    pub fn mut_recieved_from(&mut self) -> (r: &mut Option<Player>)
        ensures
            player_view(*r) == old(self)@.from,
            final(self)@ == (PacketModel { from: player_view(*final(r)), ..old(self)@ }),
    {
        &mut self.from
    }

    /// The game snapshot.
    pub fn game(&self) -> (r: &Option<Game>)
        ensures
            game_view(*r) == self@.game,
    {
        &self.game
    }

    /// The game snapshot, to be changed in place.
    pub fn game_mut(&mut self) -> (r: &mut Option<Game>)
        ensures
            game_view(*r) == old(self)@.game,
            final(self)@ == (PacketModel { game: game_view(*final(r)), ..old(self)@ }),
    {
        &mut self.game
    }

    /// The announced card.
    pub fn card(&self) -> (r: &Option<Card>)
        ensures
            *r == self@.card,
    {
        &self.card
    }

    /// Announces `card`.
    pub fn set_card(&mut self, card: &Card)
        ensures
            final(self)@ == (PacketModel { card: Some(*card), ..old(self)@ }),
    {
        self.card = Some(*card);
    }

    /// `(true, None)` on success, whatever text is stored; `(false, text)`
    /// on error.
    pub fn success(&self) -> (r: (bool, &Option<String>))
        ensures
            (r.0, text_view(*r.1)) == reported(self@),
    {
        if self.response.kind == ResponseKind::Success {
            (true, &None)
        } else {
            (false, &self.response.text)
        }
    }

    /// Marks the message as an error carrying `text`.
    pub fn set_error(&mut self, text: Option<String>)
        ensures
            final(self)@ == with_error(old(self)@, text_view(text)),
    {
        self.response.kind = ResponseKind::Error;
        self.response.text = text;
    }

    /// The first player of the attached game whose id is that of `who`;
    /// `None` when no game is attached or no player has that id.
    pub fn get_player(&self, who: &Player) -> (r: Option<&Player>)
        ensures
            r is None <==> match self@.game {
                None => true,
                Some(g) => !has_player_with_id(g.players, who@.id),
            },
            r matches Some(p) ==> exists|i: int|
                is_first_with_id(self@.game->0.players, who@.id, i) && p@ == (
                #[trigger] self@.game->0.players[i]),
    {
        match &self.game {
            None => None,
            Some(g) => match g.find_player_index(*who.id()) {
                None => None,
                Some(i) => Some(g.player_at(i)),
            },
        }
    }

    /// As `get_player`, with the player to be changed in place.
    pub fn get_player_mut(&mut self, who: &Player) -> (r: Option<&mut Player>)
        ensures
            r is None <==> match old(self)@.game {
                None => true,
                Some(g) => !has_player_with_id(g.players, who@.id),
            },
            r is None ==> final(self)@ == old(self)@,
            r matches Some(p) ==> exists|i: int|
                is_first_with_id(old(self)@.game->0.players, who@.id, i) && p@ == (
                #[trigger] old(self)@.game->0.players[i]) && final(self)@ == (PacketModel {
                    game: Some(
                        GameModel {
                            players: old(self)@.game->0.players.update(i, final(p)@),
                            ..old(self)@.game->0
                        },
                    ),
                    ..old(self)@
                }),
    {
        match &mut self.game {
            None => None,
            Some(g) => match g.find_player_index(*who.id()) {
                None => None,
                Some(i) => Some(g.player_at_mut(i)),
            },
        }
    }
}

} // verus!
