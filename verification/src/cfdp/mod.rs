//! CFDP Class 1 PDU encoding and file slicing for NASA CF (cFS CFDP app).

pub mod pdu;
pub mod sender;
