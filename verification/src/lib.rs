//! A verified builder for the inner transaction-validity circuit of a
//! record-based confidential ledger.
//!
//! Given the secret and public values of a private state transition, the
//! builder allocates public inputs in a fixed, protocol-critical order and
//! emits the constraints whose conjunction holds exactly when the transaction
//! is valid: Merkle membership of every spent (non-dummy) record, account
//! key-pair consistency, serial-number derivation, value commitments, record
//! well-formedness, output-record encryption correctness (bit-packing of the
//! record fields into field elements and curve-point recovery), and the three
//! aggregate checks (predicate commitment, local-data commitment, binding
//! signature).
//!
//! The cryptographic schemes themselves are capabilities: the builder is
//! generic over a [`schemes::SchemeSuite`], whose methods promise to agree
//! with their mathematical models. A non-hiding reference suite,
//! [`transparent::TransparentSuite`], instantiates the capabilities with
//! plain byte-string constructions.

pub mod bits;
pub mod builder;
pub mod cs;
pub mod data;
pub mod field;
pub mod laws;
pub mod packing;
pub mod schemes;
pub mod transparent;
