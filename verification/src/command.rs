//! Named command dictionary, hex payload decoding and the JSON command shapes.

use vstd::prelude::*;
use vstd::utf8::*;

use crate::packet::{BridgeError, SpaceCommand};
use crate::text::{char_debug, char_debug_string, str_eq, str_trim, string_push_str, trim_ws};

verus! {

// --- Mission ID mapping (cFS Software Bus vs CCSDS wire) ---
// Keep numeric values in sync with `cfs/apps/bridge_reader/fsw/inc/bridge_reader_mission_ids.h`.
/// Heartbeat: Software Bus MsgId (CI_LAB routing). **Not** placed in the CCSDS APID field.
pub const BRIDGE_SB_MSGID_HEARTBEAT: u16 = 0x18F0;
/// Second dictionary command: SB MsgId for wire APID [`BRIDGE_WIRE_APID_PING`].
pub const BRIDGE_SB_MSGID_PING: u16 = 0x18F1;
/// Legacy alias: first bridge SB MsgId (`CMD_HEARTBEAT`).
pub const BRIDGE_SB_MSGID_VALUE: u16 = BRIDGE_SB_MSGID_HEARTBEAT;
/// On-wire CCSDS APID for `CMD_HEARTBEAT` (11 bits).
pub const BRIDGE_WIRE_APID_HEARTBEAT: u16 = 0x006;
/// On-wire CCSDS APID for `CMD_PING`.
pub const BRIDGE_WIRE_APID_PING: u16 = 0x007;
/// On-wire CCSDS APID for `CMD_TO_LAB_ENABLE_OUTPUT` (CI_LAB → TO_LAB `EnableOutput`).
pub const BRIDGE_WIRE_APID_TO_LAB_ENABLE_OUTPUT: u16 = 0x008;
/// On-wire CCSDS APID for `CMD_TO_LAB_DISABLE_OUTPUT` (CI_LAB → TO_LAB `DisableOutput`).
pub const BRIDGE_WIRE_APID_TO_LAB_DISABLE_OUTPUT: u16 = 0x009;
/// On-wire CCSDS APID for `CMD_CFE_TBL_LOAD_FILE` (CI_LAB → CFE_TBL `LOAD`).
pub const BRIDGE_WIRE_APID_CFE_TBL_LOAD_FILE: u16 = 0x00A;
/// On-wire CCSDS APID for `CMD_CFE_TBL_ACTIVATE` (CI_LAB → CFE_TBL `ACTIVATE`).
pub const BRIDGE_WIRE_APID_CFE_TBL_ACTIVATE: u16 = 0x00B;
/// TO_LAB command Software Bus MsgId (`0x1800 | 0x80`) — matches `TO_LAB_CMD_MID` in cFS.
pub const TO_LAB_CMD_SB_MSGID: u16 = 0x1880;
/// CFE_TBL command Software Bus MsgId (`0x1800 | 0x04`) — matches `CFE_TBL_CMD_MID` in cFS.
pub const CFE_TBL_CMD_SB_MSGID: u16 = 0x1804;
/// Legacy alias: same as [`BRIDGE_WIRE_APID_HEARTBEAT`].
pub const BRIDGE_WIRE_APID: u16 = BRIDGE_WIRE_APID_HEARTBEAT;

/// Default UDP bind for incoming telemetry. Align with cFS **`TO_LAB_MISSION_TLM_PORT`** (often **2234**) and `BRIDGE_TLM_BIND`.
pub const BRIDGE_TLM_DEFAULT_BIND: &'static str = "127.0.0.1:2234";

/// Default 16-byte `dest_IP` field for `CMD_TO_LAB_ENABLE_OUTPUT` (`127.0.0.1` NUL-padded).
pub const CMD_TO_LAB_ENABLE_OUTPUT_DEFAULT_PAYLOAD: [u8; 16] = [
    0x31, 0x32, 0x37, 0x2E, 0x30, 0x2E, 0x30, 0x2E, 0x31, 0x00, 0x00, 0x00, 0x00, 0x00, 0x00, 0x00,
];

/// Default `CFE_TBL_LoadCmd_Payload_t.LoadFilename` (`/cf/ai_app_weights.tbl`, 64 bytes NUL-padded).
pub const CMD_CFE_TBL_LOAD_FILE_DEFAULT_PAYLOAD: [u8; 64] = [
    0x2F, 0x63, 0x66, 0x2F, 0x61, 0x69, 0x5F, 0x61, 0x70, 0x70, 0x5F, 0x77, 0x65, 0x69, 0x67, 0x68,
    0x74, 0x73, 0x2E, 0x74, 0x62, 0x6C, 0x00, 0x00, 0x00, 0x00, 0x00, 0x00, 0x00, 0x00, 0x00, 0x00,
    0x00, 0x00, 0x00, 0x00, 0x00, 0x00, 0x00, 0x00, 0x00, 0x00, 0x00, 0x00, 0x00, 0x00, 0x00, 0x00,
    0x00, 0x00, 0x00, 0x00, 0x00, 0x00, 0x00, 0x00, 0x00, 0x00, 0x00, 0x00, 0x00, 0x00, 0x00, 0x00,
];

/// Default `CFE_TBL_ActivateCmd_Payload_t.TableName` (`AI_APP.WEIGHTS`, 40 bytes NUL-padded).
pub const CMD_CFE_TBL_ACTIVATE_DEFAULT_PAYLOAD: [u8; 40] = [
    0x41, 0x49, 0x5F, 0x41, 0x50, 0x50, 0x2E, 0x57, 0x45, 0x49, 0x47, 0x48, 0x54, 0x53, 0x00, 0x00,
    0x00, 0x00, 0x00, 0x00, 0x00, 0x00, 0x00, 0x00, 0x00, 0x00, 0x00, 0x00, 0x00, 0x00, 0x00, 0x00,
    0x00, 0x00, 0x00, 0x00, 0x00, 0x00, 0x00, 0x00,
];

/// Allowed user payload sizes for a named command.
#[derive(Debug, Clone, Copy, PartialEq, Eq)]
pub enum PayloadLenRule {
    Exact(usize),
    Range { min: usize, max: usize },
}

impl PayloadLenRule {
    /// `len` is an allowed payload size.
    pub open spec fn admits(self, len: nat) -> bool {
        match self {
            PayloadLenRule::Exact(n) => len == n,
            PayloadLenRule::Range { min, max } => min <= len <= max,
        }
    }
}

/// Human-readable command name → payload rules, wire APID, and matching SB MsgId (CI_LAB maps APID → MsgId).
#[derive(Debug, Clone, Copy, PartialEq, Eq)]
pub struct BridgeCommandSpec {
    pub wire_apid: u16,
    /// cFS Software Bus MsgId for this command; must match C headers for the same `wire_apid`.
    pub software_bus_msg_id: u16,
    pub default_payload: &'static [u8],
    pub payload_len: PayloadLenRule,
}

/// The dictionary's model of one command: wire APID, SB MsgId, default payload, size rule.
pub struct DictionaryEntry {
    pub wire_apid: u16,
    pub software_bus_msg_id: u16,
    pub default_payload: Seq<u8>,
    pub payload_len: PayloadLenRule,
}

/// The dictionary: which entry a command name selects, if any.
pub open spec fn dictionary_lookup(name: Seq<char>) -> Option<DictionaryEntry> {
    if name == "CMD_HEARTBEAT"@ {
        Some(
            DictionaryEntry {
                wire_apid: BRIDGE_WIRE_APID_HEARTBEAT,
                software_bus_msg_id: BRIDGE_SB_MSGID_HEARTBEAT,
                default_payload: seq![0xC0u8, 0xFFu8, 0xEEu8],
                payload_len: PayloadLenRule::Exact(3),
            },
        )
    } else if name == "CMD_PING"@ {
        Some(
            DictionaryEntry {
                wire_apid: BRIDGE_WIRE_APID_PING,
                software_bus_msg_id: BRIDGE_SB_MSGID_PING,
                default_payload: seq![0x50u8, 0x49u8, 0x4Eu8],
                payload_len: PayloadLenRule::Exact(3),
            },
        )
    } else if name == "CMD_TO_LAB_ENABLE_OUTPUT"@ {
        Some(
            DictionaryEntry {
                wire_apid: BRIDGE_WIRE_APID_TO_LAB_ENABLE_OUTPUT,
                software_bus_msg_id: TO_LAB_CMD_SB_MSGID,
                default_payload: CMD_TO_LAB_ENABLE_OUTPUT_DEFAULT_PAYLOAD@,
                payload_len: PayloadLenRule::Exact(16),
            },
        )
    } else if name == "CMD_TO_LAB_DISABLE_OUTPUT"@ {
        Some(
            DictionaryEntry {
                wire_apid: BRIDGE_WIRE_APID_TO_LAB_DISABLE_OUTPUT,
                software_bus_msg_id: TO_LAB_CMD_SB_MSGID,
                default_payload: Seq::empty(),
                payload_len: PayloadLenRule::Exact(0),
            },
        )
    } else if name == "CMD_CFE_TBL_LOAD_FILE"@ {
        Some(
            DictionaryEntry {
                wire_apid: BRIDGE_WIRE_APID_CFE_TBL_LOAD_FILE,
                software_bus_msg_id: CFE_TBL_CMD_SB_MSGID,
                default_payload: CMD_CFE_TBL_LOAD_FILE_DEFAULT_PAYLOAD@,
                payload_len: PayloadLenRule::Exact(64),
            },
        )
    } else if name == "CMD_CFE_TBL_ACTIVATE"@ {
        Some(
            DictionaryEntry {
                wire_apid: BRIDGE_WIRE_APID_CFE_TBL_ACTIVATE,
                software_bus_msg_id: CFE_TBL_CMD_SB_MSGID,
                default_payload: CMD_CFE_TBL_ACTIVATE_DEFAULT_PAYLOAD@,
                payload_len: PayloadLenRule::Exact(40),
            },
        )
    } else {
        None
    }
}

impl BridgeCommandSpec {
    /// This spec is the dictionary's entry `e`.
    pub open spec fn is_entry(self, e: DictionaryEntry) -> bool {
        &&& self.wire_apid == e.wire_apid
        &&& self.software_bus_msg_id == e.software_bus_msg_id
        &&& self.default_payload@ == e.default_payload
        &&& self.payload_len == e.payload_len
    }

    /// Built-in dictionary: heartbeat telecommand (3-byte payload, 11-byte wire with CRC).
    #[allow(non_snake_case)]
    pub fn CMD_HEARTBEAT() -> (s: Self)
        ensures
            s.is_entry(dictionary_lookup("CMD_HEARTBEAT"@)->Some_0),
    {
        BridgeCommandSpec {
            wire_apid: BRIDGE_WIRE_APID_HEARTBEAT,
            software_bus_msg_id: BRIDGE_SB_MSGID_HEARTBEAT,
            default_payload: &[0xC0, 0xFF, 0xEE],
            payload_len: PayloadLenRule::Exact(3),
        }
    }

    /// Sample second telecommand (3-byte payload); distinct APID / MsgId from heartbeat.
    #[allow(non_snake_case)]
    pub fn CMD_PING() -> (s: Self)
        ensures
            s.is_entry(dictionary_lookup("CMD_PING"@)->Some_0),
    {
        proof {
            lemma_dictionary_names_distinct();
        }
        let s = BridgeCommandSpec {
            wire_apid: BRIDGE_WIRE_APID_PING,
            software_bus_msg_id: BRIDGE_SB_MSGID_PING,
            default_payload: &[0x50, 0x49, 0x4E],
            payload_len: PayloadLenRule::Exact(3),
        };
        assert(s.default_payload@ =~= seq![0x50u8, 0x49u8, 0x4Eu8]);
        s
    }

    /// TO_LAB `EnableOutput`: 16-byte destination IP string (NUL-padded) per `TO_LAB_EnableOutput_Payload_t`.
    #[allow(non_snake_case)]
    pub fn CMD_TO_LAB_ENABLE_OUTPUT() -> (s: Self)
        ensures
            s.is_entry(dictionary_lookup("CMD_TO_LAB_ENABLE_OUTPUT"@)->Some_0),
    {
        proof {
            lemma_dictionary_names_distinct();
        }
        BridgeCommandSpec {
            wire_apid: BRIDGE_WIRE_APID_TO_LAB_ENABLE_OUTPUT,
            software_bus_msg_id: TO_LAB_CMD_SB_MSGID,
            default_payload: &CMD_TO_LAB_ENABLE_OUTPUT_DEFAULT_PAYLOAD,
            payload_len: PayloadLenRule::Exact(16),
        }
    }

    /// TO_LAB `DisableOutput`: zero-byte payload. Stops TO_LAB telemetry forwarding.
    #[allow(non_snake_case)]
    pub fn CMD_TO_LAB_DISABLE_OUTPUT() -> (s: Self)
        ensures
            s.is_entry(dictionary_lookup("CMD_TO_LAB_DISABLE_OUTPUT"@)->Some_0),
    {
        proof {
            lemma_dictionary_names_distinct();
        }
        let s = BridgeCommandSpec {
            wire_apid: BRIDGE_WIRE_APID_TO_LAB_DISABLE_OUTPUT,
            software_bus_msg_id: TO_LAB_CMD_SB_MSGID,
            default_payload: &[],
            payload_len: PayloadLenRule::Exact(0),
        };
        assert(s.default_payload@ =~= Seq::<u8>::empty());
        s
    }

    /// CFE_TBL `LOAD`: payload is a fixed-size NUL-padded load filename (64 bytes).
    #[allow(non_snake_case)]
    pub fn CMD_CFE_TBL_LOAD_FILE() -> (s: Self)
        ensures
            s.is_entry(dictionary_lookup("CMD_CFE_TBL_LOAD_FILE"@)->Some_0),
    {
        proof {
            lemma_dictionary_names_distinct();
        }
        BridgeCommandSpec {
            wire_apid: BRIDGE_WIRE_APID_CFE_TBL_LOAD_FILE,
            software_bus_msg_id: CFE_TBL_CMD_SB_MSGID,
            default_payload: &CMD_CFE_TBL_LOAD_FILE_DEFAULT_PAYLOAD,
            payload_len: PayloadLenRule::Exact(64),
        }
    }

    /// CFE_TBL `ACTIVATE`: payload is a fixed-size NUL-padded full table name (40 bytes).
    #[allow(non_snake_case)]
    pub fn CMD_CFE_TBL_ACTIVATE() -> (s: Self)
        ensures
            s.is_entry(dictionary_lookup("CMD_CFE_TBL_ACTIVATE"@)->Some_0),
    {
        proof {
            lemma_dictionary_names_distinct();
        }
        BridgeCommandSpec {
            wire_apid: BRIDGE_WIRE_APID_CFE_TBL_ACTIVATE,
            software_bus_msg_id: CFE_TBL_CMD_SB_MSGID,
            default_payload: &CMD_CFE_TBL_ACTIVATE_DEFAULT_PAYLOAD,
            payload_len: PayloadLenRule::Exact(40),
        }
    }

    /// Checks `len` against this command's payload size rule.
    pub fn validate_payload_len(&self, command_name: &str, len: usize) -> (r: Result<(), BridgeError>)
        ensures
            self.payload_len.admits(len as nat) <==> r is Ok,
            !self.payload_len.admits(len as nat) ==> match self.payload_len {
                PayloadLenRule::Exact(n) => r matches Err(BridgeError::PayloadConstraint { command, expected, got })
                    && command@ == command_name@ && expected == n && got == len,
                PayloadLenRule::Range { min, max } => r == Err::<(), BridgeError>(
                    BridgeError::PayloadConstraintRange { min, max, got: len },
                ),
            },
    {
        match self.payload_len {
            PayloadLenRule::Exact(n) => {
                if len == n {
                    Ok(())
                } else {
                    Err(BridgeError::PayloadConstraint { command: command_name.to_owned(), expected: n, got: len })
                }
            },
            PayloadLenRule::Range { min, max } => {
                if min <= len && len <= max {
                    Ok(())
                } else {
                    Err(BridgeError::PayloadConstraintRange { min, max, got: len })
                }
            },
        }
    }
}

/// The error that the size rule `rule` reports for a `len`-byte payload of command `name`.
pub open spec fn is_payload_rule_error(rule: PayloadLenRule, name: Seq<char>, len: nat, e: BridgeError) -> bool {
    match rule {
        PayloadLenRule::Exact(n) => e matches BridgeError::PayloadConstraint { command, expected, got }
            && command@ == name && expected == n && got == len,
        PayloadLenRule::Range { min, max } => e == BridgeError::PayloadConstraintRange {
            min,
            max,
            got: len as usize,
        },
    }
}

/// What resolving `name` with `sequence_count` and an optional payload override yields.
pub open spec fn resolve_outcome(
    name: Seq<char>,
    sequence_count: u16,
    payload_override: Option<Seq<u8>>,
    r: Result<SpaceCommand, BridgeError>,
) -> bool {
    match dictionary_lookup(name) {
        None => r matches Err(BridgeError::UnknownCommand(n)) && n@ == name,
        Some(e) => if sequence_count > 0x3FFF {
            r == Err::<SpaceCommand, BridgeError>(BridgeError::SequenceCountOutOfRange(sequence_count))
        } else {
            let p = match payload_override {
                Some(v) => v,
                None => e.default_payload,
            };
            if e.payload_len.admits(p.len()) {
                r matches Ok(c) && c.apid == e.wire_apid && c.sequence_count == sequence_count
                    && c.payload@ == p
            } else {
                r matches Err(err) && is_payload_rule_error(e.payload_len, name, p.len(), err)
            }
        },
    }
}

/// Looks up the dictionary spec for `name`.
pub fn lookup_command_spec(name: &str) -> (r: Option<BridgeCommandSpec>)
    ensures
        match dictionary_lookup(name@) {
            None => r is None,
            Some(e) => r matches Some(s) && s.is_entry(e),
        },
{
    if str_eq(name, "CMD_HEARTBEAT") {
        Some(BridgeCommandSpec::CMD_HEARTBEAT())
    } else if str_eq(name, "CMD_PING") {
        Some(BridgeCommandSpec::CMD_PING())
    } else if str_eq(name, "CMD_TO_LAB_ENABLE_OUTPUT") {
        Some(BridgeCommandSpec::CMD_TO_LAB_ENABLE_OUTPUT())
    } else if str_eq(name, "CMD_TO_LAB_DISABLE_OUTPUT") {
        Some(BridgeCommandSpec::CMD_TO_LAB_DISABLE_OUTPUT())
    } else if str_eq(name, "CMD_CFE_TBL_LOAD_FILE") {
        Some(BridgeCommandSpec::CMD_CFE_TBL_LOAD_FILE())
    } else if str_eq(name, "CMD_CFE_TBL_ACTIVATE") {
        Some(BridgeCommandSpec::CMD_CFE_TBL_ACTIVATE())
    } else {
        None
    }
}

/// Resolves a command name to a [`SpaceCommand`] using the static dictionary.
pub fn command_dictionary_resolve(
    name: &str,
    sequence_count: u16,
    payload_override: Option<Vec<u8>>,
) -> (r: Result<SpaceCommand, BridgeError>)
    ensures
        resolve_outcome(
            name@,
            sequence_count,
            match payload_override {
                Some(v) => Some(v@),
                None => None,
            },
            r,
        ),
{
    let spec = match lookup_command_spec(name) {
        Some(s) => s,
        None => {
            return Err(BridgeError::UnknownCommand(name.to_owned()));
        },
    };
    if sequence_count > 0x3FFF {
        return Err(BridgeError::SequenceCountOutOfRange(sequence_count));
    }
    let payload = match payload_override {
        Some(p) => {
            match spec.validate_payload_len(name, p.len()) {
                Ok(()) => {},
                Err(e) => {
                    return Err(e);
                },
            }
            p
        },
        None => {
            match spec.validate_payload_len(name, spec.default_payload.len()) {
                Ok(()) => {},
                Err(e) => {
                    return Err(e);
                },
            }
            vstd::slice::slice_to_vec(spec.default_payload)
        },
    };
    Ok(SpaceCommand { apid: spec.wire_apid, sequence_count, payload })
}

/// JSON-friendly payload size rule for forms and client-side checks.
#[derive(Debug, Clone, PartialEq, Eq)]
pub enum PayloadConstraintJson {
    Exact { bytes: usize },
    Range { min: usize, max: usize },
}

/// The JSON form of a payload size rule.
pub open spec fn constraint_of_rule(rule: PayloadLenRule) -> PayloadConstraintJson {
    match rule {
        PayloadLenRule::Exact(n) => PayloadConstraintJson::Exact { bytes: n },
        PayloadLenRule::Range { min, max } => PayloadConstraintJson::Range { min, max },
    }
}

impl PayloadConstraintJson {
    /// The JSON form of `rule`.
    pub fn from_rule(rule: PayloadLenRule) -> (r: Self)
        ensures
            r == constraint_of_rule(rule),
    {
        match rule {
            PayloadLenRule::Exact(n) => PayloadConstraintJson::Exact { bytes: n },
            PayloadLenRule::Range { min, max } => PayloadConstraintJson::Range { min, max },
        }
    }
}

/// User-facing metadata for a named dictionary command (mirrors [`BridgeCommandSpec`]).
#[derive(Debug, Clone, PartialEq, Eq)]
pub struct CommandMetadata {
    pub name: &'static str,
    pub title: &'static str,
    pub description: &'static str,
    pub wire_apid: u16,
    pub software_bus_msg_id: u16,
    pub payload: PayloadConstraintJson,
}

/// Dictionary command names, in listing order.
pub open spec fn dictionary_names() -> Seq<Seq<char>> {
    seq![
        "CMD_HEARTBEAT"@,
        "CMD_PING"@,
        "CMD_TO_LAB_ENABLE_OUTPUT"@,
        "CMD_TO_LAB_DISABLE_OUTPUT"@,
        "CMD_CFE_TBL_LOAD_FILE"@,
        "CMD_CFE_TBL_ACTIVATE"@,
    ]
}

/// Dictionary command titles, in listing order.
pub open spec fn dictionary_titles() -> Seq<Seq<char>> {
    seq![
        "Heartbeat"@,
        "Ping"@,
        "TO_LAB EnableOutput"@,
        "TO_LAB DisableOutput"@,
        "CFE_TBL Load File"@,
        "CFE_TBL Activate"@,
    ]
}

/// Dictionary command descriptions, in listing order.
pub open spec fn dictionary_descriptions() -> Seq<Seq<char>> {
    seq![
        "Sample telecommand to validate the bridge. On-wire CCSDS APID 0x006; CI_LAB publishes SB MsgId 0x18F0 (APID and MsgId are different fields)."@,
        "Second dictionary command for multi-APID routing. On-wire APID 0x007; CI_LAB publishes SB MsgId 0x18F1."@,
        "Enable TO_LAB telemetry forwarding by sending `EnableOutput` to TO_LAB via CI_LAB bridge ingest."@,
        "Disable TO_LAB telemetry forwarding by sending `DisableOutput` to TO_LAB via CI_LAB bridge ingest."@,
        "Load a table image from the cFS filesystem into an inactive buffer (CFE_TBL LOAD). Default is `/cf/ai_app_weights.tbl`."@,
        "Activate a previously-loaded table image (CFE_TBL ACTIVATE). Default is `AI_APP.WEIGHTS`."@,
    ]
}

/// Metadata entry `m` is listing position `i` of the dictionary.
pub open spec fn is_listed_entry(m: CommandMetadata, i: int) -> bool {
    let e = dictionary_lookup(dictionary_names()[i])->Some_0;
    &&& m.name@ == dictionary_names()[i]
    &&& m.title@ == dictionary_titles()[i]
    &&& m.description@ == dictionary_descriptions()[i]
    &&& m.wire_apid == e.wire_apid
    &&& m.software_bus_msg_id == e.software_bus_msg_id
    &&& m.payload == constraint_of_rule(e.payload_len)
}

/// Metadata for a dictionary spec.
fn metadata_entry(
    name: &'static str,
    title: &'static str,
    description: &'static str,
    spec: BridgeCommandSpec,
) -> (m: CommandMetadata)
    ensures
        m.name == name,
        m.title == title,
        m.description == description,
        m.wire_apid == spec.wire_apid,
        m.software_bus_msg_id == spec.software_bus_msg_id,
        m.payload == constraint_of_rule(spec.payload_len),
{
    CommandMetadata {
        name,
        title,
        description,
        wire_apid: spec.wire_apid,
        software_bus_msg_id: spec.software_bus_msg_id,
        payload: PayloadConstraintJson::from_rule(spec.payload_len),
    }
}

/// Entries for the HTTP `GET /api/commands` response and for the UI dictionary.
pub fn command_dictionary_entries() -> (v: Vec<CommandMetadata>)
    ensures
        v@.len() == 6,
        forall|i: int| 0 <= i < 6 ==> is_listed_entry(#[trigger] v@[i], i),
{
    proof {
        lemma_dictionary_names_distinct();
    }
    let mut v: Vec<CommandMetadata> = Vec::new();
    v.push(metadata_entry(
        "CMD_HEARTBEAT",
        "Heartbeat",
        "Sample telecommand to validate the bridge. On-wire CCSDS APID 0x006; CI_LAB publishes SB MsgId 0x18F0 (APID and MsgId are different fields).",
        BridgeCommandSpec::CMD_HEARTBEAT(),
    ));
    v.push(metadata_entry(
        "CMD_PING",
        "Ping",
        "Second dictionary command for multi-APID routing. On-wire APID 0x007; CI_LAB publishes SB MsgId 0x18F1.",
        BridgeCommandSpec::CMD_PING(),
    ));
    v.push(metadata_entry(
        "CMD_TO_LAB_ENABLE_OUTPUT",
        "TO_LAB EnableOutput",
        "Enable TO_LAB telemetry forwarding by sending `EnableOutput` to TO_LAB via CI_LAB bridge ingest.",
        BridgeCommandSpec::CMD_TO_LAB_ENABLE_OUTPUT(),
    ));
    v.push(metadata_entry(
        "CMD_TO_LAB_DISABLE_OUTPUT",
        "TO_LAB DisableOutput",
        "Disable TO_LAB telemetry forwarding by sending `DisableOutput` to TO_LAB via CI_LAB bridge ingest.",
        BridgeCommandSpec::CMD_TO_LAB_DISABLE_OUTPUT(),
    ));
    v.push(metadata_entry(
        "CMD_CFE_TBL_LOAD_FILE",
        "CFE_TBL Load File",
        "Load a table image from the cFS filesystem into an inactive buffer (CFE_TBL LOAD). Default is `/cf/ai_app_weights.tbl`.",
        BridgeCommandSpec::CMD_CFE_TBL_LOAD_FILE(),
    ));
    v.push(metadata_entry(
        "CMD_CFE_TBL_ACTIVATE",
        "CFE_TBL Activate",
        "Activate a previously-loaded table image (CFE_TBL ACTIVATE). Default is `AI_APP.WEIGHTS`.",
        BridgeCommandSpec::CMD_CFE_TBL_ACTIVATE(),
    ));
    assert forall|i: int| 0 <= i < 6 implies is_listed_entry(#[trigger] v@[i], i) by {
        if i == 0 {
        } else if i == 1 {
        } else if i == 2 {
        } else if i == 3 {
        } else if i == 4 {
        } else {
        }
    }
    v
}

/// Every listed command resolves with its default payload: the name is in the dictionary,
/// the default payload satisfies the size rule, and the wire APID fits the 11-bit field (so
/// the resolved command always frames).
pub proof fn lemma_listed_commands_resolve(i: int)
    requires
        0 <= i < 6,
    ensures
        dictionary_lookup(dictionary_names()[i]) is Some,
        dictionary_lookup(dictionary_names()[i])->Some_0.payload_len.admits(
            dictionary_lookup(dictionary_names()[i])->Some_0.default_payload.len(),
        ),
        dictionary_lookup(dictionary_names()[i])->Some_0.wire_apid <= 0x7FF,
{
    lemma_dictionary_names_distinct();
}

/// Every dictionary command has an 11-bit wire APID, so a resolved command always frames.
pub proof fn lemma_dictionary_apids_fit(name: Seq<char>)
    requires
        dictionary_lookup(name) is Some,
    ensures
        dictionary_lookup(name)->Some_0.wire_apid <= 0x7FF,
        dictionary_lookup(name)->Some_0.payload_len.admits(
            dictionary_lookup(name)->Some_0.default_payload.len(),
        ),
{
}

/// Value of an ASCII hex digit (either case).
pub open spec fn hex_value(b: u8) -> Option<u8> {
    if 0x30 <= b <= 0x39 {
        Some((b - 0x30) as u8)
    } else if 0x61 <= b <= 0x66 {
        Some((b - 0x61 + 10) as u8)
    } else if 0x41 <= b <= 0x46 {
        Some((b - 0x41 + 10) as u8)
    } else {
        None
    }
}

/// Decodes hex digit pairs front to back; the error is the first byte (high digit before
/// low digit) that is not a hex digit.
pub open spec fn hex_pairs(t: Seq<u8>) -> Result<Seq<u8>, u8>
    decreases t.len(),
{
    if t.len() < 2 {
        Ok(Seq::empty())
    } else {
        match hex_value(t[0]) {
            None => Err(t[0]),
            Some(hi) => match hex_value(t[1]) {
                None => Err(t[1]),
                Some(lo) => match hex_pairs(t.skip(2)) {
                    Ok(rest) => Ok(seq![(hi * 16 + lo) as u8] + rest),
                    Err(b) => Err(b),
                },
            },
        }
    }
}

/// Why a hex payload was rejected.
pub enum HexFault {
    OddLength,
    BadDigit(u8),
}

/// Hex decoding of a payload string: surrounding whitespace is ignored, an empty string is
/// an empty payload, an odd number of (UTF-8) bytes is rejected, and otherwise each byte pair
/// is one payload byte.
pub open spec fn spec_decode_hex(s: Seq<char>) -> Result<Seq<u8>, HexFault> {
    let t = encode_utf8(trim_ws(s));
    if t.len() == 0 {
        Ok(Seq::empty())
    } else if t.len() % 2 != 0 {
        Err(HexFault::OddLength)
    } else {
        match hex_pairs(t) {
            Ok(v) => Ok(v),
            Err(b) => Err(HexFault::BadDigit(b)),
        }
    }
}

/// The message for an odd-length hex payload.
pub open spec fn odd_hex_message() -> Seq<char> {
    "hex payload must have an even number of digits"@
}

/// The message for a byte that is not a hex digit.
pub open spec fn bad_hex_digit_message(b: u8) -> Seq<char> {
    "invalid hex digit: "@ + char_debug(b as char)
}

/// `r` is what hex-decoding `s` yields, messages included.
pub open spec fn decode_hex_outcome(s: Seq<char>, r: Result<Vec<u8>, String>) -> bool {
    match spec_decode_hex(s) {
        Ok(v) => r matches Ok(out) && out@ == v,
        Err(HexFault::OddLength) => r matches Err(m) && m@ == odd_hex_message(),
        Err(HexFault::BadDigit(b)) => r matches Err(m) && m@ == bad_hex_digit_message(b),
    }
}

/// Value of one hex digit, or the error message for a non-digit.
pub fn hex_val(b: u8) -> (r: Result<u8, String>)
    ensures
        match hex_value(b) {
            Some(v) => r == Ok::<u8, String>(v),
            None => r matches Err(m) && m@ == bad_hex_digit_message(b),
        },
{
    if b >= 0x30 && b <= 0x39 {
        Ok(b - 0x30)
    } else if b >= 0x61 && b <= 0x66 {
        Ok(b - 0x61 + 10)
    } else if b >= 0x41 && b <= 0x46 {
        Ok(b - 0x41 + 10)
    } else {
        let mut m = String::new();
        string_push_str(&mut m, "invalid hex digit: ");
        let d = char_debug_string(b as char);
        string_push_str(&mut m, d.as_str());
        Err(m)
    }
}

/// Decodes a hex payload string (see [`spec_decode_hex`]).
pub fn decode_hex(s: &str) -> (r: Result<Vec<u8>, String>)
    ensures
        decode_hex_outcome(s@, r),
{
    let t = str_trim(s);
    let bytes = t.as_bytes();
    let n = bytes.len();
    if n == 0 {
        return Ok(Vec::new());
    }
    if n % 2 != 0 {
        let mut m = String::new();
        string_push_str(&mut m, "hex payload must have an even number of digits");
        return Err(m);
    }
    let mut out: Vec<u8> = Vec::new();
    let mut i: usize = 0;
    proof {
        assert(bytes@.skip(0) =~= bytes@);
        match hex_pairs(bytes@) {
            Ok(rest) => {
                assert(out@ + rest =~= rest);
            },
            Err(_) => {},
        }
    }
    while i < n
        invariant
            n == bytes@.len(),
            bytes@ == encode_utf8(trim_ws(s@)),
            n % 2 == 0,
            i % 2 == 0,
            i <= n,
            hex_pairs(bytes@) == match hex_pairs(bytes@.skip(i as int)) {
                Ok(rest) => Ok(out@ + rest),
                Err(b) => Err::<Seq<u8>, u8>(b),
            },
        decreases n - i,
    {
        let ghost rest = bytes@.skip(i as int);
        assert(rest[0] == bytes@[i as int] && rest[1] == bytes@[i + 1]);
        assert(rest.skip(2) =~= bytes@.skip(i + 2));
        let hi = match hex_val(bytes[i]) {
            Ok(v) => v,
            Err(m) => {
                assert(hex_pairs(rest) == Err::<Seq<u8>, u8>(bytes@[i as int]));
                return Err(m);
            },
        };
        let lo = match hex_val(bytes[i + 1]) {
            Ok(v) => v,
            Err(m) => {
                assert(hex_pairs(rest) == Err::<Seq<u8>, u8>(bytes@[i + 1]));
                return Err(m);
            },
        };
        let ghost old_out = out@;
        out.push(hi * 16 + lo);
        proof {
            assert(out@ =~= old_out + seq![(hi * 16 + lo) as u8]);
            match hex_pairs(bytes@.skip(i + 2)) {
                Ok(r2) => {
                    assert(old_out + (seq![(hi * 16 + lo) as u8] + r2) =~= out@ + r2);
                },
                Err(_) => {},
            }
        }
        i = i + 2;
    }
    proof {
        assert(bytes@.skip(n as int) =~= Seq::<u8>::empty());
        assert(out@ + Seq::<u8>::empty() =~= out@);
    }
    Ok(out)
}

/// The two accepted JSON command shapes: a dictionary command name (with optional sequence
/// count and hex payload override) or a legacy raw APID with a hex payload (already decoded).
#[derive(Debug, Clone, PartialEq, Eq)]
pub enum CommandJson {
    Named { command: String, sequence_count: u16, payload: Option<String> },
    Legacy { apid: u16, sequence_count: u16, payload: Vec<u8> },
}

impl SpaceCommand {
    /// Builds a command from its parsed JSON shape: a named command is resolved through the
    /// dictionary (its hex override decoded first); a legacy command is taken as is.
    pub fn from_command_json(j: CommandJson) -> (r: Result<SpaceCommand, BridgeError>)
        ensures
            match j {
                CommandJson::Legacy { apid, sequence_count, payload } => r matches Ok(c)
                    && c.apid == apid && c.sequence_count == sequence_count && c.payload@
                    == payload@,
                CommandJson::Named { command, sequence_count, payload: None } => resolve_outcome(
                    command@,
                    sequence_count,
                    None,
                    r,
                ),
                CommandJson::Named { command, sequence_count, payload: Some(hex) } => match spec_decode_hex(hex@) {
                    Ok(bytes) => resolve_outcome(command@, sequence_count, Some(bytes), r),
                    Err(HexFault::OddLength) => r matches Err(BridgeError::HexPayload(m)) && m@
                        == odd_hex_message(),
                    Err(HexFault::BadDigit(b)) => r matches Err(BridgeError::HexPayload(m)) && m@
                        == bad_hex_digit_message(b),
                },
            },
    {
        match j {
            CommandJson::Named { command, sequence_count, payload } => {
                let override_bytes = match payload {
                    None => None,
                    Some(hex) => match decode_hex(hex.as_str()) {
                        Ok(v) => Some(v),
                        Err(m) => {
                            return Err(BridgeError::HexPayload(m));
                        },
                    },
                };
                command_dictionary_resolve(command.as_str(), sequence_count, override_bytes)
            },
            CommandJson::Legacy { apid, sequence_count, payload } => Ok(
                SpaceCommand { apid, sequence_count, payload },
            ),
        }
    }
}

/// The six dictionary names are pairwise different.
pub proof fn lemma_dictionary_names_distinct()
    ensures
        "CMD_HEARTBEAT"@ != "CMD_PING"@,
        "CMD_HEARTBEAT"@ != "CMD_TO_LAB_ENABLE_OUTPUT"@,
        "CMD_HEARTBEAT"@ != "CMD_TO_LAB_DISABLE_OUTPUT"@,
        "CMD_HEARTBEAT"@ != "CMD_CFE_TBL_LOAD_FILE"@,
        "CMD_HEARTBEAT"@ != "CMD_CFE_TBL_ACTIVATE"@,
        "CMD_PING"@ != "CMD_TO_LAB_ENABLE_OUTPUT"@,
        "CMD_PING"@ != "CMD_TO_LAB_DISABLE_OUTPUT"@,
        "CMD_PING"@ != "CMD_CFE_TBL_LOAD_FILE"@,
        "CMD_PING"@ != "CMD_CFE_TBL_ACTIVATE"@,
        "CMD_TO_LAB_ENABLE_OUTPUT"@ != "CMD_TO_LAB_DISABLE_OUTPUT"@,
        "CMD_TO_LAB_ENABLE_OUTPUT"@ != "CMD_CFE_TBL_LOAD_FILE"@,
        "CMD_TO_LAB_ENABLE_OUTPUT"@ != "CMD_CFE_TBL_ACTIVATE"@,
        "CMD_TO_LAB_DISABLE_OUTPUT"@ != "CMD_CFE_TBL_LOAD_FILE"@,
        "CMD_TO_LAB_DISABLE_OUTPUT"@ != "CMD_CFE_TBL_ACTIVATE"@,
        "CMD_CFE_TBL_LOAD_FILE"@ != "CMD_CFE_TBL_ACTIVATE"@,
{
    reveal_strlit("CMD_HEARTBEAT");
    reveal_strlit("CMD_PING");
    reveal_strlit("CMD_TO_LAB_ENABLE_OUTPUT");
    reveal_strlit("CMD_TO_LAB_DISABLE_OUTPUT");
    reveal_strlit("CMD_CFE_TBL_LOAD_FILE");
    reveal_strlit("CMD_CFE_TBL_ACTIVATE");
    assert("CMD_HEARTBEAT"@.len() != "CMD_PING"@.len());
    assert("CMD_HEARTBEAT"@[4] != "CMD_TO_LAB_ENABLE_OUTPUT"@[4]);
    assert("CMD_HEARTBEAT"@[4] != "CMD_TO_LAB_DISABLE_OUTPUT"@[4]);
    assert("CMD_HEARTBEAT"@[4] != "CMD_CFE_TBL_LOAD_FILE"@[4]);
    assert("CMD_HEARTBEAT"@[4] != "CMD_CFE_TBL_ACTIVATE"@[4]);
    assert("CMD_PING"@.len() != "CMD_TO_LAB_ENABLE_OUTPUT"@.len());
    assert("CMD_PING"@.len() != "CMD_TO_LAB_DISABLE_OUTPUT"@.len());
    assert("CMD_PING"@.len() != "CMD_CFE_TBL_LOAD_FILE"@.len());
    assert("CMD_PING"@.len() != "CMD_CFE_TBL_ACTIVATE"@.len());
    assert("CMD_TO_LAB_ENABLE_OUTPUT"@[11] != "CMD_TO_LAB_DISABLE_OUTPUT"@[11]);
    assert("CMD_TO_LAB_ENABLE_OUTPUT"@[4] != "CMD_CFE_TBL_LOAD_FILE"@[4]);
    assert("CMD_TO_LAB_ENABLE_OUTPUT"@[4] != "CMD_CFE_TBL_ACTIVATE"@[4]);
    assert("CMD_TO_LAB_DISABLE_OUTPUT"@[4] != "CMD_CFE_TBL_LOAD_FILE"@[4]);
    assert("CMD_TO_LAB_DISABLE_OUTPUT"@[4] != "CMD_CFE_TBL_ACTIVATE"@[4]);
    assert("CMD_CFE_TBL_LOAD_FILE"@[12] != "CMD_CFE_TBL_ACTIVATE"@[12]);
}

} // verus!
