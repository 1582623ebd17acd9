use twap_hook_cpmm::ErrorCode;

#[test]
fn messages() {
    assert_eq!(ErrorCode::MintNotInPair.message(), "El mint no pertenece al par de vaults");
    assert_eq!(ErrorCode::ArithmeticFault.message(), "El precio no cabe en 64 bits");
    assert_eq!(ErrorCode::AllocationConflict.message(), "La cuenta ya estaba inicializada");
    assert_eq!(ErrorCode::ClockUnavailable.message(), "No se pudo leer el reloj");
}

#[test]
fn variants_are_distinct() {
    assert_ne!(ErrorCode::MintNotInPair, ErrorCode::ArithmeticFault);
    assert_ne!(ErrorCode::MintNotInPair, ErrorCode::AllocationConflict);
    assert_ne!(ErrorCode::ArithmeticFault, ErrorCode::AllocationConflict);
    assert_ne!(ErrorCode::AllocationConflict, ErrorCode::ClockUnavailable);
}
