//! The two sides, the directions, and the messages that the server and the
//! two clients exchange.
use crate::errors::Errors;
use crate::game::Board;
use crate::json::{json_members, member, member_at, members_of, parse_value, Member, MemberView};
use crate::rules::BoardView;
use crate::text::{parse_small_number, same_text, small_number, trim, trimmed};
use vstd::prelude::*;

verus! {

/// One of the two duellists. `Zero` starts on the left end of the strip,
/// `One` on the right end.
#[derive(Debug, Clone, Copy, PartialEq, Eq, Hash)]
pub enum PlayerID {
    Zero,
    One,
}

impl PlayerID {
    /// The other duellist.
    pub open spec fn other(self) -> PlayerID {
        match self {
            PlayerID::Zero => PlayerID::One,
            PlayerID::One => PlayerID::Zero,
        }
    }

    /// The number by which a duellist is written on the wire.
    pub open spec fn number(self) -> int {
        match self {
            PlayerID::Zero => 0,
            PlayerID::One => 1,
        }
    }

    pub fn denote(&self) -> (r: u8)
        ensures
            r == self.number(),
    {
        match self {
            PlayerID::Zero => 0,
            PlayerID::One => 1,
        }
    }

    pub fn opposite(&self) -> (r: Self)
        ensures
            r == self.other(),
    {
        match self {
            PlayerID::Zero => PlayerID::One,
            PlayerID::One => PlayerID::Zero,
        }
    }

    /// The duellist that `name` names: by number or by word.
    pub open spec fn named(name: Seq<char>) -> Option<PlayerID> {
        if name == "0"@ || name == "Zero"@ {
            Some(PlayerID::Zero)
        } else if name == "1"@ || name == "One"@ {
            Some(PlayerID::One)
        } else {
            None
        }
    }

    /// Reads a duellist from a name without white space around it.
    pub fn from_name(name: &str) -> (r: Option<PlayerID>)
        ensures
            r == Self::named(name@),
    {
        if same_text(name, "0") || same_text(name, "Zero") {
            Some(PlayerID::Zero)
        } else if same_text(name, "1") || same_text(name, "One") {
            Some(PlayerID::One)
        } else {
            None
        }
    }

    /// Reads a duellist from a text as it stands in a message: white space
    /// around the name is ignored.
    pub fn from_text(text: &str) -> (r: Option<PlayerID>)
        ensures
            r == Self::named(trimmed(text@)),
    {
        Self::from_name(trim(text))
    }
}

/// Which way a duellist steps: `Forward` is towards the opponent, `Back` is
/// towards the duellist's own end of the strip.
#[derive(Clone, Copy, Hash, PartialEq, Eq, Debug)]
pub enum Direction {
    Forward,
    Back,
}

impl Direction {
    /// The direction that `name` names: by letter or by word.
    pub open spec fn named(name: Seq<char>) -> Option<Direction> {
        if name == "B"@ || name == "Back"@ {
            Some(Direction::Back)
        } else if name == "F"@ || name == "Forward"@ {
            Some(Direction::Forward)
        } else {
            None
        }
    }

    /// Reads a direction from a name without white space around it.
    pub fn from_name(name: &str) -> (r: Option<Direction>)
        ensures
            r == Self::named(name@),
    {
        if same_text(name, "B") || same_text(name, "Back") {
            Some(Direction::Back)
        } else if same_text(name, "F") || same_text(name, "Forward") {
            Some(Direction::Forward)
        } else {
            None
        }
    }

    /// Reads a direction from a text as it stands in a message: white
    /// space around the name is ignored.
    pub fn from_text(text: &str) -> (r: Option<Direction>)
        ensures
            r == Self::named(trimmed(text@)),
    {
        Self::from_name(trim(text))
    }

    /// The letter by which a direction is written on the wire.
    pub fn to_string(&self) -> (r: String)
        ensures
            r@ == (match self {
                Direction::Forward => "F"@,
                Direction::Back => "B"@,
            }),
    {
        match self {
            Direction::Forward => "F".to_owned(),
            Direction::Back => "B".to_owned(),
        }
    }
}

/// What both clients are told at the top of every turn.
#[derive(Debug)]
pub struct BoardInfo {
    pub typ: &'static str,
    pub from: &'static str,
    pub to: &'static str,
    pub player_position_0: u8,
    pub player_position_1: u8,
    pub player_score_0: u32,
    pub player_score_1: u32,
    pub num_of_deck: u8,
    pub current_player: PlayerID,
}

impl BoardInfo {
    /// Whether this is the snapshot of `board`. The deck is counted in one
    /// byte: modulo 256, which for the decks that a pack makes is the count
    /// itself.
    pub open spec fn shows(self, board: BoardView) -> bool {
        &&& self.typ@ == "BoardInfo"@
        &&& self.from@ == "Server"@
        &&& self.to@ == "Client"@
        &&& self.player_position_0 == board.pos0
        &&& self.player_position_1 == board.pos1
        &&& self.player_score_0 == board.score0
        &&& self.player_score_1 == board.score1
        &&& self.num_of_deck == board.deck.len() % 256
        &&& self.current_player == board.current_player
    }

    /// The snapshot of `board`. The deck is counted in one byte.
    pub fn from_board(board: &Board) -> (r: Self)
        ensures
            r.shows(board@),
    {
        BoardInfo {
            typ: "BoardInfo",
            from: "Server",
            to: "Client",
            player_position_0: board.pos(PlayerID::Zero),
            player_position_1: board.pos(PlayerID::One),
            player_score_0: board.score(PlayerID::Zero),
            player_score_1: board.score(PlayerID::One),
            num_of_deck: (board.yamafuda().len() % 256) as u8,
            current_player: board.current_player(),
        }
    }
}

/// What the active client is told of its own hand: three to five cards.
pub struct HandInfo {
    pub typ: &'static str,
    pub from: &'static str,
    pub to: &'static str,
    pub hand1: u8,
    pub hand2: u8,
    pub hand3: u8,
    pub hand4: Option<u8>,
    pub hand5: Option<u8>,
}

impl HandInfo {
    /// Whether this shows the first five cards of `hand`, which holds at
    /// least three.
    pub open spec fn shows(self, hand: Seq<u8>) -> bool {
        &&& self.typ@ == "HandInfo"@
        &&& self.from@ == "Server"@
        &&& self.to@ == "Client"@
        &&& self.hand1 == hand[0]
        &&& self.hand2 == hand[1]
        &&& self.hand3 == hand[2]
        &&& self.hand4 == (if hand.len() > 3 {
            Some(hand[3])
        } else {
            None
        })
        &&& self.hand5 == (if hand.len() > 4 {
            Some(hand[4])
        } else {
            None
        })
    }

    /// The first five cards of `v`, which holds at least three.
    pub fn from_vec(v: &[u8]) -> (r: Self)
        requires
            v@.len() >= 3,
        ensures
            r.shows(v@),
    {
        Self {
            typ: "HandInfo",
            from: "Server",
            to: "Client",
            hand1: v[0],
            hand2: v[1],
            hand3: v[2],
            hand4: if v.len() > 3 {
                Some(v[3])
            } else {
                None
            },
            hand5: if v.len() > 4 {
                Some(v[4])
            } else {
                None
            },
        }
    }
}

/// The prompt that begins a client's turn.
pub struct DoPlay {
    pub typ: &'static str,
    pub from: &'static str,
    pub to: &'static str,
    pub message_id: u8,
    pub message: &'static str,
}

impl DoPlay {
    /// Whether this is the prompt.
    pub open spec fn is_prompt(self) -> bool {
        &&& self.typ@ == "DoPlay"@
        &&& self.from@ == "Server"@
        &&& self.to@ == "Client"@
        &&& self.message_id == 101
        &&& self.message@ == "a"@
    }

    pub fn new() -> (r: Self)
        ensures
            r.is_prompt(),
    {
        Self { typ: "DoPlay", from: "Server", to: "Client", message_id: 101, message: "a" }
    }
}

/// An acknowledgement.
pub struct Accept {
    pub typ: String,
    pub from: String,
    pub to: String,
    pub message_id: String,
}

/// A step by a card.
#[derive(Clone, Copy, Hash, PartialEq, Eq, Debug)]
pub struct Movement {
    pub card: u8,
    pub direction: Direction,
}

/// An attack with a number of cards of one rank.
#[derive(Clone, Copy, Hash, PartialEq, Eq, Debug)]
pub struct Attack {
    pub card: u8,
    pub quantity: u8,
}

/// Either kind of action.
#[derive(Clone, Copy, Hash, PartialEq, Eq, Debug)]
pub enum Action {
    Move(Movement),
    Attack(Attack),
}

/// What the waiting client is told of a movement that its opponent made.
pub struct PlayedMoveMent {
    pub typ: &'static str,
    pub from: &'static str,
    pub to: &'static str,
    pub message_id: &'static str,
    pub play_card: u8,
    pub direction: String,
}

impl PlayedMoveMent {
    /// Whether this mirrors the movement `play`.
    pub open spec fn echoes(self, play: PlayMovementView) -> bool {
        &&& self.typ@ == "Played"@
        &&& self.from@ == "Server"@
        &&& self.to@ == "Client"@
        &&& self.message_id@ == "101"@
        &&& self.play_card == play.play_card
        &&& self.direction@ == (match play.direction {
            Direction::Forward => "F"@,
            Direction::Back => "B"@,
        })
    }

    pub fn new(play: &PlayMovement) -> (r: Self)
        ensures
            r.echoes(play@),
    {
        Self {
            typ: "Played",
            from: "Server",
            to: "Client",
            message_id: "101",
            play_card: play.play_card,
            direction: play.direction.to_string(),
        }
    }
}

/// What the waiting client is told of an attack that its opponent made.
pub struct PlayedAttack {
    pub typ: &'static str,
    pub from: &'static str,
    pub to: &'static str,
    pub message_id: &'static str,
    pub play_card: u8,
    pub num_of_card: u8,
}

impl PlayedAttack {
    /// Whether this mirrors the attack `play`.
    pub open spec fn echoes(self, play: PlayAttackView) -> bool {
        &&& self.typ@ == "Played"@
        &&& self.from@ == "Server"@
        &&& self.to@ == "Client"@
        &&& self.message_id@ == "102"@
        &&& self.play_card == play.play_card
        &&& self.num_of_card == play.num_of_card
    }

    pub fn new(play: &PlayAttack) -> (r: Self)
        ensures
            r.echoes(play@),
    {
        Self {
            typ: "Played",
            from: "Server",
            to: "Client",
            message_id: "102",
            play_card: play.play_card,
            num_of_card: play.num_of_card,
        }
    }
}

/// How a round ended: the winner's number, or -1 for a draw, and the
/// scores.
#[derive(Debug)]
pub struct RoundEnd {
    pub typ: &'static str,
    pub from: &'static str,
    pub to: &'static str,
    pub round_winner: i8,
    pub score_0: u32,
    pub score_1: u32,
    pub message: &'static str,
}

impl RoundEnd {
    /// Whether this reports a round on `board` that `winner` won, or that
    /// was drawn: the winner is written by number, a draw as -1.
    pub open spec fn reports(self, board: BoardView, winner: Option<PlayerID>) -> bool {
        &&& self.typ@ == "RoundEnd"@
        &&& self.from@ == "Server"@
        &&& self.to@ == "Client"@
        &&& self.round_winner == (match winner {
            Some(id) => id.number(),
            None => -1,
        })
        &&& self.score_0 == board.score0
        &&& self.score_1 == board.score1
        &&& self.message@ == "a"@
    }

    /// The round was drawn.
    pub fn hikiwake(board: &Board) -> (r: Self)
        ensures
            r.reports(board@, None),
    {
        Self {
            typ: "RoundEnd",
            from: "Server",
            to: "Client",
            round_winner: -1,
            score_0: board.score(PlayerID::Zero),
            score_1: board.score(PlayerID::One),
            message: "a",
        }
    }

    /// The round was won by `winner`.
    pub fn win_lose(board: &Board, winner: PlayerID) -> (r: Self)
        ensures
            r.reports(board@, Some(winner)),
    {
        Self {
            typ: "RoundEnd",
            from: "Server",
            to: "Client",
            round_winner: winner.denote() as i8,
            score_0: board.score(PlayerID::Zero),
            score_1: board.score(PlayerID::One),
            message: "a",
        }
    }
}

/// How the match ended: the winner's number and the scores.
#[derive(Debug)]
pub struct GameEnd {
    pub typ: &'static str,
    pub from: &'static str,
    pub to: &'static str,
    pub winner: u8,
    pub score_0: u32,
    pub score_1: u32,
    pub message: &'static str,
}

impl GameEnd {
    /// Whether this reports a match on `board` that `winner` won.
    pub open spec fn reports(self, board: BoardView, winner: PlayerID) -> bool {
        &&& self.typ@ == "GameEnd"@
        &&& self.from@ == "Server"@
        &&& self.to@ == "Client"@
        &&& self.winner == winner.number()
        &&& self.score_0 == board.score0
        &&& self.score_1 == board.score1
        &&& self.message@ == "a"@
    }

    pub fn new(board: &Board, winner: PlayerID) -> (r: Self)
        ensures
            r.reports(board@, winner),
    {
        Self {
            typ: "GameEnd",
            from: "Server",
            to: "Client",
            winner: winner.denote(),
            score_0: board.score(PlayerID::Zero),
            score_1: board.score(PlayerID::One),
            message: "a",
        }
    }
}

/// What a client is told when its message was refused.
#[derive(Debug)]
pub struct ServerError {
    pub typ: &'static str,
    pub from: &'static str,
    pub to: &'static str,
    pub message: &'static str,
    pub message_id: &'static str,
}

impl ServerError {
    /// Whether this is an error that says `words`.
    pub open spec fn says(self, words: Seq<char>) -> bool {
        &&& self.typ@ == "Error"@
        &&& self.from@ == "Server"@
        &&& self.to@ == "Client"@
        &&& self.message@ == words
        &&& self.message_id@ == "111"@
    }

    pub fn new(string: &'static str) -> (r: Self)
        ensures
            r.says(string@),
            r.message == string,
    {
        Self { typ: "Error", from: "Server", to: "Client", message: string, message_id: "111" }
    }
}

/// A message that is JSON but none that a client may send.
#[derive(Debug)]
pub struct ParseMessageError {
    pub invalid_info: String,
}

impl ParseMessageError {
    /// The error in words.
    pub fn to_string(&self) -> (r: String)
        ensures
            r@ == "MessageParseError, json is "@ + self.invalid_info@,
    {
        "MessageParseError, json is ".to_owned().concat(self.invalid_info.as_str())
    }
}

/// The greeting that tells a client which side it plays.
#[derive(Debug)]
pub struct ConnectionStart {
    pub typ: &'static str,
    pub from: &'static str,
    pub to: &'static str,
    pub client_id: PlayerID,
}

impl ConnectionStart {
    pub fn new(id: PlayerID) -> (r: Self)
        ensures
            r.typ@ == "ConnectionStart"@,
            r.from@ == "Server"@,
            r.to@ == "Client"@,
            r.client_id == id,
    {
        Self { typ: "ConnectionStart", from: "Server", to: "Client", client_id: id }
    }
}

/// The name by which a client introduces itself.
pub struct PlayerName {
    pub typ: String,
    pub from: String,
    pub to: String,
    pub name: String,
}

/// The acknowledgement of a client's name.
#[derive(Debug)]
pub struct NameReceived {
    pub typ: &'static str,
    pub from: &'static str,
    pub to: &'static str,
}

impl NameReceived {
    pub fn new() -> (r: Self)
        ensures
            r.typ@ == "NameReceived"@,
            r.from@ == "Server"@,
            r.to@ == "Client"@,
    {
        Self { typ: "NameReceived", from: "Server", to: "Client" }
    }
}

/// The members of a document from which a client's message is read.
pub struct Envelope {
    /// The member `Type`.
    pub typ: Member,
    /// The member `From`.
    pub from: Member,
    /// The member `To`.
    pub to: Member,
    /// The member `MessageID`.
    pub message_id: Member,
    /// The member `PlayCard`.
    pub play_card: Member,
    /// The member `Direction`.
    pub direction: Member,
    /// The member `NumOfCard`.
    pub num_of_card: Member,
    /// The members `1F`, `1B`, `2F` and so on to `5B`.
    pub evaluations: Vec<Member>,
}

/// An `Envelope` as the contracts see it.
pub struct EnvelopeView {
    pub typ: MemberView,
    pub from: MemberView,
    pub to: MemberView,
    pub message_id: MemberView,
    pub play_card: MemberView,
    pub direction: MemberView,
    pub num_of_card: MemberView,
    pub evaluations: Seq<MemberView>,
}

impl View for Envelope {
    type V = EnvelopeView;

    open spec fn view(&self) -> EnvelopeView {
        EnvelopeView {
            typ: self.typ@,
            from: self.from@,
            to: self.to@,
            message_id: self.message_id@,
            play_card: self.play_card@,
            direction: self.direction@,
            num_of_card: self.num_of_card@,
            evaluations: Seq::new(self.evaluations@.len(), |i: int| self.evaluations@[i]@),
        }
    }
}

/// The key of the `i`-th evaluation: a rank from one to five, then `F` or
/// `B`.
pub open spec fn evaluation_key(i: int) -> Seq<char> {
    if i == 0 {
        "1F"@
    } else if i == 1 {
        "1B"@
    } else if i == 2 {
        "2F"@
    } else if i == 3 {
        "2B"@
    } else if i == 4 {
        "3F"@
    } else if i == 5 {
        "3B"@
    } else if i == 6 {
        "4F"@
    } else if i == 7 {
        "4B"@
    } else if i == 8 {
        "5F"@
    } else {
        "5B"@
    }
}

fn evaluation_key_text(i: usize) -> (r: &'static str)
    ensures
        r@ == evaluation_key(i as int),
{
    if i == 0 {
        "1F"
    } else if i == 1 {
        "1B"
    } else if i == 2 {
        "2F"
    } else if i == 3 {
        "2B"
    } else if i == 4 {
        "3F"
    } else if i == 5 {
        "3B"
    } else if i == 6 {
        "4F"
    } else if i == 7 {
        "4B"
    } else if i == 8 {
        "5F"
    } else {
        "5B"
    }
}

/// The envelope of a document with the members `members`.
pub open spec fn envelope_of(members: Map<Seq<char>, MemberView>) -> EnvelopeView {
    EnvelopeView {
        typ: member_at(members, "Type"@),
        from: member_at(members, "From"@),
        to: member_at(members, "To"@),
        message_id: member_at(members, "MessageID"@),
        play_card: member_at(members, "PlayCard"@),
        direction: member_at(members, "Direction"@),
        num_of_card: member_at(members, "NumOfCard"@),
        evaluations: Seq::new(10, |i: int| member_at(members, evaluation_key(i))),
    }
}

/// The text of a member that has to be a string.
pub open spec fn text_of(m: MemberView) -> Option<Seq<char>> {
    match m {
        MemberView::Text(text) => Some(text),
        _ => None,
    }
}

/// The text of a member that may be left out or `null`, but is a string
/// if it is there; `None` where it is something else.
pub open spec fn optional_text_of(m: MemberView) -> Option<Option<Seq<char>>> {
    match m {
        MemberView::Absent => Some(None),
        MemberView::Null => Some(None),
        MemberView::Text(text) => Some(Some(text)),
        _ => None,
    }
}

/// The number below 256 of a member that is a number, or a string that
/// writes one.
pub open spec fn number_of(m: MemberView) -> Option<u8> {
    match m {
        MemberView::Text(text) => small_number(text),
        MemberView::Number(text) => small_number(text),
        _ => None,
    }
}

/// The direction of a member that is a string naming one.
pub open spec fn direction_of(m: MemberView) -> Option<Direction> {
    match m {
        MemberView::Text(text) => Direction::named(trimmed(text)),
        _ => None,
    }
}

fn read_text(m: &Member) -> (r: Option<String>)
    ensures
        match r {
            Some(text) => text_of(m@) == Some(text@),
            None => text_of(m@) is None,
        },
{
    match m {
        Member::Text(text) => Some(text.clone()),
        _ => None,
    }
}

fn read_optional_text(m: &Member) -> (r: Option<Option<String>>)
    ensures
        match r {
            Some(Some(text)) => optional_text_of(m@) == Some(Some(text@)),
            Some(None) => optional_text_of(m@) == Some(None::<Seq<char>>),
            None => optional_text_of(m@) is None,
        },
{
    match m {
        Member::Absent => Some(None),
        Member::Null => Some(None),
        Member::Text(text) => Some(Some(text.clone())),
        _ => None,
    }
}

fn read_number(m: &Member) -> (r: Option<u8>)
    ensures
        r == number_of(m@),
{
    match m {
        Member::Text(text) => parse_small_number(text.as_str()),
        Member::Number(text) => parse_small_number(text.as_str()),
        _ => None,
    }
}

fn read_direction(m: &Member) -> (r: Option<Direction>)
    ensures
        r == direction_of(m@),
{
    match m {
        Member::Text(text) => Direction::from_text(text.as_str()),
        _ => None,
    }
}

/// A client's declaration that it is about to act, with what it thinks of
/// each step it could take.
pub struct Evaluation {
    typ: String,
    from: String,
    to: String,
    evaluations: Vec<Option<String>>,
}

/// An `Evaluation` as the contracts see it.
pub struct EvaluationView {
    pub typ: Seq<char>,
    pub from: Seq<char>,
    pub to: Seq<char>,
    pub evaluations: Seq<Option<Seq<char>>>,
}

impl View for Evaluation {
    type V = EvaluationView;

    closed spec fn view(&self) -> EvaluationView {
        EvaluationView {
            typ: self.typ@,
            from: self.from@,
            to: self.to@,
            evaluations: Seq::new(
                self.evaluations@.len(),
                |i: int|
                    match self.evaluations@[i] {
                        Some(text) => Some(text@),
                        None => None,
                    },
            ),
        }
    }
}

impl Evaluation {
    /// The declaration that an envelope holds, if it holds one: `Type`,
    /// `From` and `To` are strings, and each evaluation is a string, `null`
    /// or left out.
    pub open spec fn decoded(e: EnvelopeView) -> Option<EvaluationView> {
        if text_of(e.typ) is Some && text_of(e.from) is Some && text_of(e.to) is Some && (forall|
            i: int,
        |
            0 <= i < e.evaluations.len() ==> optional_text_of(#[trigger] e.evaluations[i]) is Some) {
            Some(
                EvaluationView {
                    typ: text_of(e.typ).unwrap(),
                    from: text_of(e.from).unwrap(),
                    to: text_of(e.to).unwrap(),
                    evaluations: Seq::new(
                        e.evaluations.len(),
                        |i: int| optional_text_of(e.evaluations[i]).unwrap(),
                    ),
                },
            )
        } else {
            None
        }
    }

    /// Reads a declaration from an envelope.
    pub fn from_envelope(e: &Envelope) -> (r: Option<Evaluation>)
        ensures
            match r {
                Some(evaluation) => Self::decoded(e@) == Some(evaluation@),
                None => Self::decoded(e@) is None,
            },
    {
        let typ = match read_text(&e.typ) {
            Some(text) => text,
            None => {
                return None;
            },
        };
        let from = match read_text(&e.from) {
            Some(text) => text,
            None => {
                return None;
            },
        };
        let to = match read_text(&e.to) {
            Some(text) => text,
            None => {
                return None;
            },
        };
        let mut evaluations: Vec<Option<String>> = Vec::new();
        let mut i: usize = 0;
        while i < e.evaluations.len()
            invariant
                i <= e.evaluations@.len(),
                evaluations@.len() == i,
                e@.evaluations.len() == e.evaluations@.len(),
                forall|j: int|
                    0 <= j < i ==> optional_text_of(#[trigger] e@.evaluations[j]) == Some(
                        match evaluations@[j] {
                            Some(text) => Some(text@),
                            None => None,
                        },
                    ),
            decreases e.evaluations@.len() - i,
        {
            assert(e@.evaluations[i as int] == e.evaluations@[i as int]@);
            match read_optional_text(&e.evaluations[i]) {
                Some(text) => {
                    evaluations.push(text);
                },
                None => {
                    return None;
                },
            }
            i += 1;
        }
        let evaluation = Evaluation { typ, from, to, evaluations };
        proof {
            assert(evaluation@.evaluations =~= Self::decoded(e@).unwrap().evaluations);
        }
        Some(evaluation)
    }

    /// What the client thinks of the `i`-th step, if it said so. The steps
    /// are counted as the keys are: `1F`, `1B`, `2F` and so on.
    pub fn evaluation(&self, i: usize) -> (r: Option<&str>)
        ensures
            match r {
                Some(text) => i < self@.evaluations.len() && self@.evaluations[i as int] == Some(
                    text@,
                ),
                None => i >= self@.evaluations.len() || self@.evaluations[i as int] is None,
            },
    {
        if i < self.evaluations.len() {
            match &self.evaluations[i] {
                Some(text) => Some(text.as_str()),
                None => None,
            }
        } else {
            None
        }
    }
}

/// A movement as a duellist announces it: a card and a direction.
pub struct PlayMovement {
    typ: String,
    from: String,
    to: String,
    message_id: String,
    play_card: u8,
    direction: Direction,
}

/// A `PlayMovement` as the contracts see it.
pub struct PlayMovementView {
    pub typ: Seq<char>,
    pub from: Seq<char>,
    pub to: Seq<char>,
    pub message_id: Seq<char>,
    pub play_card: u8,
    pub direction: Direction,
}

impl View for PlayMovement {
    type V = PlayMovementView;

    closed spec fn view(&self) -> PlayMovementView {
        PlayMovementView {
            typ: self.typ@,
            from: self.from@,
            to: self.to@,
            message_id: self.message_id@,
            play_card: self.play_card,
            direction: self.direction,
        }
    }
}

impl PlayMovement {
    /// A movement by `play_card` cells in `direction`, as a client words it.
    pub fn new(play_card: u8, direction: Direction) -> (r: Self)
        ensures
            r@ == (PlayMovementView {
                typ: "Play"@,
                from: "Client"@,
                to: "Server"@,
                message_id: "101"@,
                play_card,
                direction,
            }),
    {
        PlayMovement {
            typ: "Play".to_owned(),
            from: "Client".to_owned(),
            to: "Server".to_owned(),
            message_id: "101".to_owned(),
            play_card,
            direction,
        }
    }

    /// The movement that an envelope holds, if it holds one: `Type`,
    /// `From`, `To` and `MessageID` are strings, `PlayCard` is a number
    /// below 256 or a string that writes one, and `Direction` names a
    /// direction.
    pub open spec fn decoded(e: EnvelopeView) -> Option<PlayMovementView> {
        match (
            text_of(e.typ),
            text_of(e.from),
            text_of(e.to),
            text_of(e.message_id),
            number_of(e.play_card),
            direction_of(e.direction),
        ) {
            (Some(typ), Some(from), Some(to), Some(message_id), Some(play_card), Some(direction)) => {
                Some(PlayMovementView { typ, from, to, message_id, play_card, direction })
            },
            _ => None,
        }
    }

    /// Reads a movement from an envelope.
    pub fn from_envelope(e: &Envelope) -> (r: Option<PlayMovement>)
        ensures
            match r {
                Some(movement) => Self::decoded(e@) == Some(movement@),
                None => Self::decoded(e@) is None,
            },
    {
        match (
            read_text(&e.typ),
            read_text(&e.from),
            read_text(&e.to),
            read_text(&e.message_id),
            read_number(&e.play_card),
            read_direction(&e.direction),
        ) {
            (Some(typ), Some(from), Some(to), Some(message_id), Some(play_card), Some(direction)) => {
                Some(PlayMovement { typ, from, to, message_id, play_card, direction })
            },
            _ => None,
        }
    }

    pub fn play_card(&self) -> (r: u8)
        ensures
            r == self@.play_card,
    {
        self.play_card
    }

    pub fn direction(&self) -> (r: Direction)
        ensures
            r == self@.direction,
    {
        self.direction
    }
}

/// An attack as a duellist announces it: a card and how many of it.
pub struct PlayAttack {
    typ: String,
    from: String,
    to: String,
    message_id: String,
    play_card: u8,
    num_of_card: u8,
}

/// A `PlayAttack` as the contracts see it.
pub struct PlayAttackView {
    pub typ: Seq<char>,
    pub from: Seq<char>,
    pub to: Seq<char>,
    pub message_id: Seq<char>,
    pub play_card: u8,
    pub num_of_card: u8,
}

impl View for PlayAttack {
    type V = PlayAttackView;

    closed spec fn view(&self) -> PlayAttackView {
        PlayAttackView {
            typ: self.typ@,
            from: self.from@,
            to: self.to@,
            message_id: self.message_id@,
            play_card: self.play_card,
            num_of_card: self.num_of_card,
        }
    }
}

impl PlayAttack {
    /// An attack with `num_of_card` cards of rank `play_card`, as a client
    /// words it.
    pub fn new(play_card: u8, num_of_card: u8) -> (r: Self)
        ensures
            r@ == (PlayAttackView {
                typ: "Play"@,
                from: "Client"@,
                to: "Server"@,
                message_id: "102"@,
                play_card,
                num_of_card,
            }),
    {
        PlayAttack {
            typ: "Play".to_owned(),
            from: "Client".to_owned(),
            to: "Server".to_owned(),
            message_id: "102".to_owned(),
            play_card,
            num_of_card,
        }
    }

    /// The attack that an envelope holds, if it holds one: `Type`, `From`,
    /// `To` and `MessageID` are strings, and `PlayCard` and `NumOfCard` are
    /// numbers below 256 or strings that write one.
    pub open spec fn decoded(e: EnvelopeView) -> Option<PlayAttackView> {
        match (
            text_of(e.typ),
            text_of(e.from),
            text_of(e.to),
            text_of(e.message_id),
            number_of(e.play_card),
            number_of(e.num_of_card),
        ) {
            (Some(typ), Some(from), Some(to), Some(message_id), Some(play_card), Some(num_of_card)) => {
                Some(PlayAttackView { typ, from, to, message_id, play_card, num_of_card })
            },
            _ => None,
        }
    }

    /// Reads an attack from an envelope.
    pub fn from_envelope(e: &Envelope) -> (r: Option<PlayAttack>)
        ensures
            match r {
                Some(attack) => Self::decoded(e@) == Some(attack@),
                None => Self::decoded(e@) is None,
            },
    {
        match (
            read_text(&e.typ),
            read_text(&e.from),
            read_text(&e.to),
            read_text(&e.message_id),
            read_number(&e.play_card),
            read_number(&e.num_of_card),
        ) {
            (Some(typ), Some(from), Some(to), Some(message_id), Some(play_card), Some(num_of_card)) => {
                Some(PlayAttack { typ, from, to, message_id, play_card, num_of_card })
            },
            _ => None,
        }
    }

    pub fn play_card(&self) -> (r: u8)
        ensures
            r == self@.play_card,
    {
        self.play_card
    }

    pub fn num_of_card(&self) -> (r: u8)
        ensures
            r == self@.num_of_card,
    {
        self.num_of_card
    }
}

/// A message from a client.
pub enum Messages {
    Eval(Box<Evaluation>),
    PlayM(PlayMovement),
    PlayA(PlayAttack),
}

/// A message from a client as the contracts see it.
pub enum MessagesView {
    Eval(EvaluationView),
    PlayM(PlayMovementView),
    PlayA(PlayAttackView),
}

impl View for Messages {
    type V = MessagesView;

    open spec fn view(&self) -> MessagesView {
        match self {
            Messages::Eval(evaluation) => MessagesView::Eval(evaluation@),
            Messages::PlayM(movement) => MessagesView::PlayM(movement@),
            Messages::PlayA(attack) => MessagesView::PlayA(attack@),
        }
    }
}

/// What reading a text as a message comes to.
pub enum Reading {
    /// The text is this message.
    Message(MessagesView),
    /// The text is not JSON.
    NotJson,
    /// A member is missing or of the wrong kind; the words say which.
    Refused(Seq<char>),
    /// The text is JSON, but of no kind of message that a client may send;
    /// the text is handed back.
    Unknown(Seq<char>),
}

impl Messages {
    /// What a result of reading comes to.
    pub open spec fn reading(r: Result<Messages, Errors>) -> Reading {
        match r {
            Ok(message) => Reading::Message(message@),
            Err(Errors::Serde(_)) => Reading::NotJson,
            Err(Errors::Other(words)) => Reading::Refused(words@),
            Err(Errors::ParseMessage(e)) => Reading::Unknown(e.invalid_info@),
        }
    }

    /// The message that the envelope of the document `json` holds. `Type`
    /// decides the kind: `Evaluation` is a declaration; `Play` is an action,
    /// a movement with the `MessageID` `101` and an attack with `102`.
    pub open spec fn read(json: Seq<char>, e: EnvelopeView) -> Reading {
        match e.typ {
            MemberView::Absent => Reading::Refused("Typeキー無し"@),
            MemberView::Text(typ) => {
                if typ == "Evaluation"@ {
                    match Evaluation::decoded(e) {
                        Some(evaluation) => Reading::Message(MessagesView::Eval(evaluation)),
                        None => Reading::Refused("Evaluationの形式が正しくない"@),
                    }
                } else if typ == "Play"@ {
                    match e.message_id {
                        MemberView::Absent => Reading::Refused("MessageID無し"@),
                        MemberView::Text(id) => {
                            if id == "101"@ {
                                match PlayMovement::decoded(e) {
                                    Some(movement) => Reading::Message(
                                        MessagesView::PlayM(movement),
                                    ),
                                    None => Reading::Refused("移動の形式が正しくない"@),
                                }
                            } else if id == "102"@ {
                                match PlayAttack::decoded(e) {
                                    Some(attack) => Reading::Message(MessagesView::PlayA(attack)),
                                    None => Reading::Refused("攻撃の形式が正しくない"@),
                                }
                            } else {
                                Reading::Unknown(json)
                            }
                        },
                        _ => Reading::Refused("MessageIDが文字列ではない"@),
                    }
                } else {
                    Reading::Unknown(json)
                }
            },
            _ => Reading::Refused("Typeキーが文字列ではない"@),
        }
    }

    /// Reads a message from the envelope of the document `json`.
    pub fn from_envelope(json: &str, e: &Envelope) -> (r: Result<Messages, Errors>)
        ensures
            Self::reading(r) == Self::read(json@, e@),
    {
        let typ = match &e.typ {
            Member::Absent => {
                return Err(Errors::Other("Typeキー無し"));
            },
            Member::Text(typ) => typ.as_str(),
            _ => {
                return Err(Errors::Other("Typeキーが文字列ではない"));
            },
        };
        if same_text(typ, "Evaluation") {
            match Evaluation::from_envelope(e) {
                Some(evaluation) => Ok(Messages::Eval(Box::new(evaluation))),
                None => Err(Errors::Other("Evaluationの形式が正しくない")),
            }
        } else if same_text(typ, "Play") {
            let id = match &e.message_id {
                Member::Absent => {
                    return Err(Errors::Other("MessageID無し"));
                },
                Member::Text(id) => id.as_str(),
                _ => {
                    return Err(Errors::Other("MessageIDが文字列ではない"));
                },
            };
            if same_text(id, "101") {
                match PlayMovement::from_envelope(e) {
                    Some(movement) => Ok(Messages::PlayM(movement)),
                    None => Err(Errors::Other("移動の形式が正しくない")),
                }
            } else if same_text(id, "102") {
                match PlayAttack::from_envelope(e) {
                    Some(attack) => Ok(Messages::PlayA(attack)),
                    None => Err(Errors::Other("攻撃の形式が正しくない")),
                }
            } else {
                Err(Errors::ParseMessage(ParseMessageError { invalid_info: json.to_owned() }))
            }
        } else {
            Err(Errors::ParseMessage(ParseMessageError { invalid_info: json.to_owned() }))
        }
    }

    /// Reads a message from a line of JSON.
    pub fn parse(json: &str) -> (r: Result<Messages, Errors>)
        ensures
            Self::reading(r) == (match json_members(json@) {
                Some(members) => Self::read(json@, envelope_of(members)),
                None => Reading::NotJson,
            }),
    {
        let value = match parse_value(json) {
            Ok(value) => value,
            Err(e) => {
                return Err(Errors::Serde(e));
            },
        };
        let ghost members = json_members(json@).unwrap();
        let mut evaluations: Vec<Member> = Vec::new();
        let mut i: usize = 0;
        while i < 10
            invariant
                i <= 10,
                evaluations@.len() == i,
                json_members(json@) == Some(members_of(value)),
                members == members_of(value),
                forall|j: int|
                    0 <= j < i ==> (#[trigger] evaluations@[j])@ == member_at(
                        members,
                        evaluation_key(j),
                    ),
            decreases 10 - i,
        {
            evaluations.push(member(&value, evaluation_key_text(i)));
            i += 1;
        }
        let envelope = Envelope {
            typ: member(&value, "Type"),
            from: member(&value, "From"),
            to: member(&value, "To"),
            message_id: member(&value, "MessageID"),
            play_card: member(&value, "PlayCard"),
            direction: member(&value, "Direction"),
            num_of_card: member(&value, "NumOfCard"),
            evaluations,
        };
        proof {
            assert(envelope@.evaluations =~= envelope_of(members).evaluations);
            assert(envelope@ == envelope_of(members));
        }
        Self::from_envelope(json, &envelope)
    }
}

} // verus!
