//! What can go wrong with a duellist's action, and with a message.
use crate::json::error_text;
use crate::protocol::{Direction, ParseMessageError};
use vstd::prelude::*;
use vstd::std_specs::convert::FromSpecImpl;

verus! {

/// Why an action was refused. A refused action changes nothing, and the
/// duellist is asked again.
#[derive(Debug, Clone, Copy, PartialEq, Eq)]
pub enum PlayError {
    /// The duellist holds no card of this rank.
    CardNotHeld { card: u8 },
    /// The step would leave the strip, or reach or pass the opponent.
    IllegalMove { card: u8, direction: Direction },
    /// The rank is not the distance to the opponent, or the duellist holds
    /// fewer cards of it than announced.
    AttackUnreachableOrInsufficient { card: u8, count: u8 },
}

impl PlayError {
    /// The words in which the duellist is told.
    pub open spec fn words(self) -> Seq<char> {
        match self {
            PlayError::CardNotHeld { .. } => "そのカードは持ってません!"@,
            PlayError::IllegalMove { .. } => "そちらへは動けません!"@,
            PlayError::AttackUnreachableOrInsufficient { .. } =>
                "攻撃はとどかないか、そんなに枚数持っていません！"@,
        }
    }

    /// The words in which the duellist is told.
    pub fn message(&self) -> (r: &'static str)
        ensures
            r@ == self.words(),
    {
        match self {
            PlayError::CardNotHeld { .. } => "そのカードは持ってません!",
            PlayError::IllegalMove { .. } => "そちらへは動けません!",
            PlayError::AttackUnreachableOrInsufficient { .. } =>
                "攻撃はとどかないか、そんなに枚数持っていません！",
        }
    }
}

/// Why a message was refused in a turn. The refusal is reported to the
/// client that sent the message, nothing changes, and the turn begins again.
#[derive(Debug, Clone, Copy, PartialEq, Eq)]
pub enum TurnError {
    /// The text could not be read as a message.
    Malformed,
    /// An action came before the declaration.
    DeclarationMissing,
    /// A second declaration came in place of the action.
    DeclaredTwice,
    /// The action was refused by the rules.
    Play(PlayError),
}

impl TurnError {
    /// The words in which the client is told.
    pub open spec fn words(self) -> Seq<char> {
        match self {
            TurnError::Malformed => "送信されたメッセージがおかしいです"@,
            TurnError::DeclarationMissing => "先にEvalしてください"@,
            TurnError::DeclaredTwice => "もうEvalは受け取りました"@,
            TurnError::Play(e) => e.words(),
        }
    }

    /// The words in which the client is told.
    pub fn message(&self) -> (r: &'static str)
        ensures
            r@ == self.words(),
    {
        match self {
            TurnError::Malformed => "送信されたメッセージがおかしいです",
            TurnError::DeclarationMissing => "先にEvalしてください",
            TurnError::DeclaredTwice => "もうEvalは受け取りました",
            TurnError::Play(e) => e.message(),
        }
    }
}

/// Why a message could not be read.
#[derive(Debug)]
pub enum Errors {
    /// The text is JSON, but no message that a client may send.
    ParseMessage(ParseMessageError),
    /// The text is not JSON.
    Serde(serde_json::Error),
    /// A member of the message is missing or of the wrong kind.
    Other(&'static str),
}

impl Errors {
    /// The error in words.
    pub fn to_string(&self) -> (r: String)
        ensures
            match self {
                Errors::ParseMessage(e) => r@ == "MessageParseError, json is "@ + e.invalid_info@,
                Errors::Serde(_) => true,
                Errors::Other(text) => r@ == text@,
            },
    {
        match self {
            Errors::ParseMessage(e) => e.to_string(),
            Errors::Serde(e) => error_text(e),
            Errors::Other(text) => (*text).to_owned(),
        }
    }
}

impl From<ParseMessageError> for Errors {
    fn from(value: ParseMessageError) -> (r: Self) {
        Errors::ParseMessage(value)
    }
}

impl FromSpecImpl<ParseMessageError> for Errors {
    open spec fn obeys_from_spec() -> bool {
        true
    }

    open spec fn from_spec(value: ParseMessageError) -> Self {
        Errors::ParseMessage(value)
    }
}

impl From<serde_json::Error> for Errors {
    fn from(value: serde_json::Error) -> (r: Self) {
        Errors::Serde(value)
    }
}

impl FromSpecImpl<serde_json::Error> for Errors {
    open spec fn obeys_from_spec() -> bool {
        true
    }

    open spec fn from_spec(value: serde_json::Error) -> Self {
        Errors::Serde(value)
    }
}

impl From<&'static str> for Errors {
    fn from(value: &'static str) -> (r: Self) {
        Errors::Other(value)
    }
}

impl FromSpecImpl<&'static str> for Errors {
    open spec fn obeys_from_spec() -> bool {
        true
    }

    open spec fn from_spec(value: &'static str) -> Self {
        Errors::Other(value)
    }
}

} // verus!
