//! What can go wrong.

use vstd::prelude::*;

verus! {

/// The reasons for which set-up or the transfer hook refuse to go on. Either
/// leaves every record as it found it when it returns one of these.
#[derive(Clone, Copy, Debug, PartialEq, Eq, Structural)]
pub enum ErrorCode {
    /// The mint under observation is the mint of neither vault.
    MintNotInPair,
    /// The price does not fit in 64 bits.
    ArithmeticFault,
    /// Set-up was handed storage that is not a fresh allocation.
    AllocationConflict,
    /// The clock of the runtime could not be read.
    ClockUnavailable,
}

impl ErrorCode {
    /// The text of [`ErrorCode::message`].
    pub open spec fn spec_message(self) -> Seq<char> {
        match self {
            ErrorCode::MintNotInPair => "El mint no pertenece al par de vaults"@,
            ErrorCode::ArithmeticFault => "El precio no cabe en 64 bits"@,
            ErrorCode::AllocationConflict => "La cuenta ya estaba inicializada"@,
            ErrorCode::ClockUnavailable => "No se pudo leer el reloj"@,
        }
    }

    /// What to tell the user.
    pub fn message(&self) -> (text: &'static str)
        ensures
            text@ == self.spec_message(),
    {
        match self {
            ErrorCode::MintNotInPair => "El mint no pertenece al par de vaults",
            ErrorCode::ArithmeticFault => "El precio no cabe en 64 bits",
            ErrorCode::AllocationConflict => "La cuenta ya estaba inicializada",
            ErrorCode::ClockUnavailable => "No se pudo leer el reloj",
        }
    }
}

} // verus!
