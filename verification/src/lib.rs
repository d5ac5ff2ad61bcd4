//! Domain logic kernel for Brazilian-market payment processing.
//!
//! The crate validates identity documents (CPF, CNPJ, CEP, phone), encodes
//! PIX BR Code payment payloads with their CRC16 trailer, computes state and
//! city tax breakdowns, classifies shipping zones, and drives the payment and
//! subscription lifecycle state machines. All amounts use exact fixed-point
//! decimal arithmetic; no floating point is involved.

pub mod checksum;
pub mod documents;
pub mod entity;
pub mod errors;
pub mod external;
pub mod graphql;
pub mod identifiers;
pub mod money;
pub mod payment;
pub mod pix;
pub mod shipping;
pub mod status;
pub mod subscription;
pub mod tax;
pub mod text;
pub mod wallet;

pub use money::Money;
