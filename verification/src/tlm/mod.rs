//! Telemetry ingestion: CCSDS primary header + cFE telemetry payload parsing (Linux LE).

pub mod cf_eot;
pub mod cfe_primary;
pub mod es_hk;
pub mod evs_long_event;
pub mod to_lab_hk;

use vstd::prelude::*;

use crate::text::{decimal, digit_char, push_decimal, string_push, string_push_str};
use crate::tlm::cf_eot::CfEotV1;
use crate::tlm::cfe_primary::{spec_parse_primary, spec_primary_of, CcsdsPrimaryHeader};
use crate::tlm::es_hk::{es_hk_matches, parse_es_hk_datagram, EsHkV1, CFE_TLM_HEADER_PREFIX_BYTES, ES_HK_PAYLOAD_BYTES};
use crate::tlm::evs_long_event::{evs_accepts, evs_matches, parse_evs_long_event_datagram, EvsLongEventV1};
use crate::tlm::to_lab_hk::{parse_to_lab_hk_datagram, spec_to_lab_hk, to_lab_hk_overruns, ToLabHkV1};

verus! {

#[derive(Debug, Clone, PartialEq, Eq)]
pub struct CcsdsPrimarySummary {
    pub apid: u16,
    pub packet_type: u8,
    pub sequence_count: u16,
}

/// The summary of a primary header.
pub open spec fn summary_of(h: CcsdsPrimaryHeader) -> CcsdsPrimarySummary {
    CcsdsPrimarySummary { apid: h.apid, packet_type: h.packet_type, sequence_count: h.sequence_count }
}

impl From<&CcsdsPrimaryHeader> for CcsdsPrimarySummary {
    fn from(h: &CcsdsPrimaryHeader) -> (s: Self) {
        CcsdsPrimarySummary { apid: h.apid, packet_type: h.packet_type, sequence_count: h.sequence_count }
    }
}

impl vstd::std_specs::convert::FromSpecImpl<&CcsdsPrimaryHeader> for CcsdsPrimarySummary {
    open spec fn obeys_from_spec() -> bool {
        true
    }

    open spec fn from_spec(h: &CcsdsPrimaryHeader) -> Self {
        summary_of(*h)
    }
}

/// Decoded telemetry or a parse failure, one per datagram (`kind` discriminates the schema
/// on the JSON side).
#[derive(Debug, Clone, PartialEq, Eq)]
pub enum TlmEvent {
    EsHkV1 { received_at: String, raw_len: usize, primary: CcsdsPrimarySummary, es_hk: EsHkV1 },
    ToLabHkV1 {
        received_at: String,
        raw_len: usize,
        primary: CcsdsPrimarySummary,
        to_lab_hk: ToLabHkV1,
    },
    EvsLongEventV1 {
        received_at: String,
        raw_len: usize,
        primary: CcsdsPrimarySummary,
        evs_long_event: EvsLongEventV1,
    },
    CfEotV1 { received_at: String, raw_len: usize, primary: CcsdsPrimarySummary, cf_eot: CfEotV1 },
    BrainUploadProgress { received_at: String, step: String, detail: String },
    ParseError {
        received_at: String,
        raw_len: usize,
        primary: Option<CcsdsPrimarySummary>,
        message: String,
        hex_preview: String,
    },
}

/// How a datagram is classified.
pub enum TlmKind {
    LengthMismatch,
    EsHk,
    ToLabHk,
    EvsLongEvent,
    Unrecognized,
}

/// Classification of `d`, in the order the checks are made: a header whose announced length
/// differs from the datagram's, then ES HK (at least 180 bytes), TO_LAB HK, EVS long event.
pub open spec fn spec_classify_kind(d: Seq<u8>) -> TlmKind {
    if d.len() >= 6 && d.len() != spec_primary_of(d).spec_total_bytes() {
        TlmKind::LengthMismatch
    } else if d.len() >= CFE_TLM_HEADER_PREFIX_BYTES + ES_HK_PAYLOAD_BYTES {
        TlmKind::EsHk
    } else if spec_to_lab_hk(d) is Some {
        TlmKind::ToLabHk
    } else if evs_accepts(d) {
        TlmKind::EvsLongEvent
    } else {
        TlmKind::Unrecognized
    }
}

/// Lowercase hex digit for `n < 16`.
pub open spec fn nibble_char(n: nat) -> char {
    if n < 10 {
        digit_char(n)
    } else {
        ((n - 10 + 0x61) as u32) as char
    }
}

/// Two lowercase hex digits of `b`.
pub open spec fn hex2(b: u8) -> Seq<char> {
    seq![nibble_char((b / 16) as nat), nibble_char((b % 16) as nat)]
}

/// The bytes of `bs` as two-digit hex separated by single spaces.
pub open spec fn hex_joined(bs: Seq<u8>) -> Seq<char>
    decreases bs.len(),
{
    if bs.len() == 0 {
        Seq::empty()
    } else if bs.len() == 1 {
        hex2(bs[0])
    } else {
        hex_joined(bs.drop_last()) + seq![' '] + hex2(bs.last())
    }
}

/// Hex preview: the first 64 bytes, then `" …"` if there were more.
pub open spec fn spec_hex_preview(d: Seq<u8>) -> Seq<char> {
    if d.len() > 64 {
        hex_joined(d.take(64)) + seq![' ', '\u{2026}']
    } else {
        hex_joined(d)
    }
}

/// Message for a datagram whose length differs from what its header announces.
pub open spec fn length_mismatch_message(expected: nat, got: nat) -> Seq<char> {
    "length mismatch: header implies "@ + decimal(expected) + " bytes, got "@ + decimal(got)
}

/// Message for a datagram that no parser accepts.
pub open spec fn unrecognized_message() -> Seq<char> {
    "not a recognized ES HK, TO_LAB HK, or EVS long event datagram"@
}

/// The header summary of `d`, or all zeros when `d` is shorter than a header.
pub open spec fn summary_or_zero(d: Seq<u8>) -> CcsdsPrimarySummary {
    if d.len() >= 6 {
        summary_of(spec_primary_of(d))
    } else {
        CcsdsPrimarySummary { apid: 0, packet_type: 0, sequence_count: 0 }
    }
}

/// The header summary of `d`, if it has a header.
pub open spec fn summary_opt(d: Seq<u8>) -> Option<CcsdsPrimarySummary> {
    match spec_parse_primary(d) {
        Some(h) => Some(summary_of(h)),
        None => None,
    }
}

/// `e` is the event that classifying `d` (received at `received_at`) yields.
pub open spec fn classified_as(e: TlmEvent, d: Seq<u8>, received_at: String) -> bool {
    match spec_classify_kind(d) {
        TlmKind::LengthMismatch => e matches TlmEvent::ParseError {
            received_at: ra,
            raw_len,
            primary,
            message,
            hex_preview,
        } && ra == received_at && raw_len == d.len() && primary == summary_opt(d) && message@
            == length_mismatch_message(spec_primary_of(d).spec_total_bytes(), d.len())
            && hex_preview@ == spec_hex_preview(d),
        TlmKind::EsHk => e matches TlmEvent::EsHkV1 { received_at: ra, raw_len, primary, es_hk }
            && ra == received_at && raw_len == d.len() && primary == summary_or_zero(d)
            && es_hk_matches(es_hk, d.skip(CFE_TLM_HEADER_PREFIX_BYTES as int)),
        TlmKind::ToLabHk => e matches TlmEvent::ToLabHkV1 {
            received_at: ra,
            raw_len,
            primary,
            to_lab_hk,
        } && ra == received_at && raw_len == d.len() && primary == summary_or_zero(d)
            && to_lab_hk == spec_to_lab_hk(d)->Some_0,
        TlmKind::EvsLongEvent => e matches TlmEvent::EvsLongEventV1 {
            received_at: ra,
            raw_len,
            primary,
            evs_long_event,
        } && ra == received_at && raw_len == d.len() && primary == summary_or_zero(d)
            && evs_matches(evs_long_event, d),
        TlmKind::Unrecognized => e matches TlmEvent::ParseError {
            received_at: ra,
            raw_len,
            primary,
            message,
            hex_preview,
        } && ra == received_at && raw_len == d.len() && primary == summary_opt(d) && message@
            == unrecognized_message() && hex_preview@ == spec_hex_preview(d),
    }
}

/// Classify and parse a raw UDP datagram from TO_LAB / mock.
pub fn classify_datagram(data: &[u8], received_at: String) -> (e: TlmEvent)
    requires
        !to_lab_hk_overruns(data@),
    ensures
        classified_as(e, data@, received_at),
{
    let raw_len = data.len();
    let primary = CcsdsPrimaryHeader::parse(data);
    let primary_summary = match &primary {
        Some(h) => Some(CcsdsPrimarySummary::from(h)),
        None => None,
    };
    if let Some(ph) = &primary {
        let expected = ph.total_bytes_including_primary();
        if data.len() != expected {
            let mut message = String::new();
            string_push_str(&mut message, "length mismatch: header implies ");
            push_decimal(&mut message, expected as u64);
            string_push_str(&mut message, " bytes, got ");
            push_decimal(&mut message, raw_len as u64);
            return TlmEvent::ParseError {
                received_at,
                raw_len,
                primary: primary_summary,
                message,
                hex_preview: hex_preview(data),
            };
        }
    }
    let zero = CcsdsPrimarySummary { apid: 0, packet_type: 0, sequence_count: 0 };
    if let Some(hk) = parse_es_hk_datagram(data) {
        let primary = match primary_summary {
            Some(p) => p,
            None => zero,
        };
        return TlmEvent::EsHkV1 { received_at, raw_len, primary, es_hk: hk };
    }
    if let Some(hk) = parse_to_lab_hk_datagram(data) {
        let primary = match primary_summary {
            Some(p) => p,
            None => zero,
        };
        return TlmEvent::ToLabHkV1 { received_at, raw_len, primary, to_lab_hk: hk };
    }
    if let Some(evs) = parse_evs_long_event_datagram(data) {
        let primary = match primary_summary {
            Some(p) => p,
            None => zero,
        };
        return TlmEvent::EvsLongEventV1 { received_at, raw_len, primary, evs_long_event: evs };
    }
    let mut message = String::new();
    string_push_str(&mut message, "not a recognized ES HK, TO_LAB HK, or EVS long event datagram");
    TlmEvent::ParseError { received_at, raw_len, primary: primary_summary, message, hex_preview: hex_preview(data) }
}

/// Lowercase hex digit character for `n < 16`.
fn nibble_to_char(n: u8) -> (c: char)
    requires
        n < 16,
    ensures
        c == nibble_char(n as nat),
{
    match n {
        0 => '0',
        1 => '1',
        2 => '2',
        3 => '3',
        4 => '4',
        5 => '5',
        6 => '6',
        7 => '7',
        8 => '8',
        9 => '9',
        10 => 'a',
        11 => 'b',
        12 => 'c',
        13 => 'd',
        14 => 'e',
        _ => 'f',
    }
}

/// Hex preview of a datagram (see [`spec_hex_preview`]).
pub fn hex_preview(data: &[u8]) -> (s: String)
    ensures
        s@ == spec_hex_preview(data@),
{
    let take = if data.len() < 64 {
        data.len()
    } else {
        64
    };
    let mut s = String::new();
    let mut i: usize = 0;
    while i < take
        invariant
            take <= data@.len(),
            take <= 64,
            i <= take,
            s@ == hex_joined(data@.take(i as int)),
        decreases take - i,
    {
        if i > 0 {
            string_push(&mut s, ' ');
        }
        let b = data[i];
        string_push(&mut s, nibble_to_char(b / 16));
        string_push(&mut s, nibble_to_char(b % 16));
        proof {
            let t = data@.take(i + 1);
            assert(t.drop_last() =~= data@.take(i as int));
            assert(t.last() == b);
            if i > 0 {
                assert(s@ =~= hex_joined(data@.take(i as int)) + seq![' '] + hex2(b));
            } else {
                assert(s@ =~= hex2(b));
            }
        }
        i = i + 1;
    }
    if data.len() > take {
        string_push(&mut s, ' ');
        string_push(&mut s, '\u{2026}');
    } else {
        assert(data@.take(take as int) =~= data@);
    }
    s
}

/// Initial delay before rebinding the telemetry socket after a failed bind.
pub const REBIND_BACKOFF_INITIAL_MS: u64 = 200;
/// Upper bound of the rebind delay.
pub const REBIND_BACKOFF_MAX_MS: u64 = 10_000;

/// The rebind delay after another failed bind: doubled, at most 10 s.
pub fn next_rebind_backoff_ms(ms: u64) -> (next: u64)
    ensures
        next == if 2 * ms < REBIND_BACKOFF_MAX_MS {
            2 * ms
        } else {
            REBIND_BACKOFF_MAX_MS as int
        },
{
    if ms < REBIND_BACKOFF_MAX_MS / 2 {
        ms * 2
    } else {
        REBIND_BACKOFF_MAX_MS
    }
}

} // verus!
