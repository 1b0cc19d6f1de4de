//! Why an operation on a vault was rejected.

use vstd::prelude::*;

verus! {

/// The reason a request was rejected. A rejected request changes nothing
/// and asks for no transfer.
#[derive(Clone, Copy, Debug, PartialEq, Eq, Structural)]
pub enum ErrorCode {
    /// A counter or the pot would exceed the range of its type.
    Overflow,
    /// The storage slot already holds a vault.
    AlreadyInitialized,
    /// The vault no longer accepts entries.
    VaultInactive,
    /// The entry window has not opened yet.
    EntryNotOpen,
    /// The entry window has closed.
    EntryClosed,
    /// The vault holds as many participants as it admits.
    VaultFull,
    /// The caller is not the vault's authority.
    Unauthorized,
    /// The vault has been settled before.
    AlreadyDistributed,
    /// The entry window has not closed yet.
    SettlementTooEarly,
    /// An identity occurs twice among the winners.
    DuplicateWinner,
    /// The percentages of the split add up to more than 100.
    InvalidSplit,
    /// The escrow balance does not cover the computed shares.
    InsufficientEscrow,
}

/// The classes into which the rejections fall.
#[derive(Clone, Copy, Debug, PartialEq, Eq, Structural)]
pub enum ErrorKind {
    /// The caller is not the configured authority.
    Authorization,
    /// The request came outside its time window.
    Temporal,
    /// The vault is full.
    Capacity,
    /// The state of the vault or of its storage rules the request out.
    StateConflict,
    /// A total would overflow, or the shares exceed the funds at hand.
    Arithmetic,
    /// The request is malformed in itself.
    InputValidity,
}

impl ErrorCode {
    /// The class of each rejection.
    pub open spec fn spec_kind(self) -> ErrorKind {
        match self {
            ErrorCode::Overflow => ErrorKind::Arithmetic,
            ErrorCode::AlreadyInitialized => ErrorKind::StateConflict,
            ErrorCode::VaultInactive => ErrorKind::StateConflict,
            ErrorCode::EntryNotOpen => ErrorKind::Temporal,
            ErrorCode::EntryClosed => ErrorKind::Temporal,
            ErrorCode::VaultFull => ErrorKind::Capacity,
            ErrorCode::Unauthorized => ErrorKind::Authorization,
            ErrorCode::AlreadyDistributed => ErrorKind::StateConflict,
            ErrorCode::SettlementTooEarly => ErrorKind::Temporal,
            ErrorCode::DuplicateWinner => ErrorKind::InputValidity,
            ErrorCode::InvalidSplit => ErrorKind::InputValidity,
            ErrorCode::InsufficientEscrow => ErrorKind::Arithmetic,
        }
    }

    /// The text that describes each rejection.
    pub open spec fn spec_message(self) -> &'static str {
        match self {
            ErrorCode::Overflow => "Overflow ao adicionar ao cofre.",
            ErrorCode::AlreadyInitialized => "O cofre já foi inicializado.",
            ErrorCode::VaultInactive => "O cofre não está ativo.",
            ErrorCode::EntryNotOpen => "O período de entrada ainda não abriu.",
            ErrorCode::EntryClosed => "O período de entrada já fechou.",
            ErrorCode::VaultFull => "O cofre está cheio.",
            ErrorCode::Unauthorized => "Apenas a autoridade do cofre pode distribuir os prêmios.",
            ErrorCode::AlreadyDistributed => "Os prêmios já foram distribuídos.",
            ErrorCode::SettlementTooEarly => "O período de entrada ainda não fechou.",
            ErrorCode::DuplicateWinner => "Os vencedores devem ser distintos.",
            ErrorCode::InvalidSplit => "As percentagens somam mais de 100.",
            ErrorCode::InsufficientEscrow => "Saldo insuficiente no cofre.",
        }
    }

    /// The text that describes this rejection.
    pub fn message(self) -> (text: String)
        ensures
            text@ == self.spec_message()@,
    {
        let text = match self {
            ErrorCode::Overflow => "Overflow ao adicionar ao cofre.",
            ErrorCode::AlreadyInitialized => "O cofre já foi inicializado.",
            ErrorCode::VaultInactive => "O cofre não está ativo.",
            ErrorCode::EntryNotOpen => "O período de entrada ainda não abriu.",
            ErrorCode::EntryClosed => "O período de entrada já fechou.",
            ErrorCode::VaultFull => "O cofre está cheio.",
            ErrorCode::Unauthorized => "Apenas a autoridade do cofre pode distribuir os prêmios.",
            ErrorCode::AlreadyDistributed => "Os prêmios já foram distribuídos.",
            ErrorCode::SettlementTooEarly => "O período de entrada ainda não fechou.",
            ErrorCode::DuplicateWinner => "Os vencedores devem ser distintos.",
            ErrorCode::InvalidSplit => "As percentagens somam mais de 100.",
            ErrorCode::InsufficientEscrow => "Saldo insuficiente no cofre.",
        };
        text.to_owned()
    }

    /// The class this rejection belongs to.
    #[verifier::when_used_as_spec(spec_kind)]
    pub fn kind(self) -> (kind: ErrorKind)
        ensures
            kind == self.spec_kind(),
    {
        match self {
            ErrorCode::Overflow | ErrorCode::InsufficientEscrow => ErrorKind::Arithmetic,
            ErrorCode::AlreadyInitialized
            | ErrorCode::VaultInactive
            | ErrorCode::AlreadyDistributed => ErrorKind::StateConflict,
            ErrorCode::EntryNotOpen
            | ErrorCode::EntryClosed
            | ErrorCode::SettlementTooEarly => ErrorKind::Temporal,
            ErrorCode::VaultFull => ErrorKind::Capacity,
            ErrorCode::Unauthorized => ErrorKind::Authorization,
            ErrorCode::DuplicateWinner | ErrorCode::InvalidSplit => ErrorKind::InputValidity,
        }
    }
}

} // verus!
