//! JSON-to-CCSDS telecommand bridge with a CRC-16 trailer, cFS telemetry decoding,
//! CFDP Class 1 PDU encoding, cFE table-file image building, and the decisions of the
//! master brain upload sequence.
//!
//! On-wire telecommand layout: `[ 6-byte primary header ][ N-byte payload ][ CRC-16 BE ]`.

pub mod ai_app;
pub mod brain_upload;
pub mod cfdp;
pub mod command;
pub mod crc;
pub mod packet;
pub mod persistence;
pub mod text;
pub mod tlm;

pub use command::{
    command_dictionary_entries, command_dictionary_resolve, decode_hex, hex_val, BridgeCommandSpec,
    CommandJson, CommandMetadata, PayloadConstraintJson, PayloadLenRule, BRIDGE_SB_MSGID_HEARTBEAT,
    BRIDGE_SB_MSGID_PING, BRIDGE_SB_MSGID_VALUE, BRIDGE_TLM_DEFAULT_BIND, BRIDGE_WIRE_APID,
    BRIDGE_WIRE_APID_CFE_TBL_ACTIVATE, BRIDGE_WIRE_APID_CFE_TBL_LOAD_FILE,
    BRIDGE_WIRE_APID_HEARTBEAT, BRIDGE_WIRE_APID_PING, BRIDGE_WIRE_APID_TO_LAB_DISABLE_OUTPUT,
    BRIDGE_WIRE_APID_TO_LAB_ENABLE_OUTPUT, CFE_TBL_CMD_SB_MSGID,
    CMD_CFE_TBL_ACTIVATE_DEFAULT_PAYLOAD, CMD_CFE_TBL_LOAD_FILE_DEFAULT_PAYLOAD,
    CMD_TO_LAB_ENABLE_OUTPUT_DEFAULT_PAYLOAD, TO_LAB_CMD_SB_MSGID,
};
pub use crc::compute_crc16_ccitt;
pub use packet::{BridgeError, CcsdsPacket, SpaceCommand};
