//! Master Brain Upload orchestrator: the decisions of the upload sequence.
//!
//! The sequence is:
//! - enable TO_LAB downlink and wait for ES HK telemetry
//! - generate the AI_APP weights table image (deterministic golden) and wrap it in a cFE file
//! - CFDP Class 1 send over UDP 5235 (to udp_cfdp_ingest)
//! - gate on the CF retained-file EVS event, then (best effort) on CF EOT telemetry
//! - send CFE_TBL LOAD + ACTIVATE over CI_LAB UDP 1234 (bridge wire), each gated on EVS text
//!
//! [`BrainUpload`] is the state machine: the driver performs each [`UploadAction`] (sending,
//! waiting for telemetry with a deadline, sleeping) and feeds back what happened as an
//! [`UploadEvent`]; [`BrainUpload::step`] returns the progress lines to publish and the next
//! action.

use vstd::prelude::*;

use crate::text::{contains_seq, decimal, push_decimal, str_contains, str_eq, string_push_str};
use crate::cfdp::sender::CfdpFileTransferConfig;
use crate::tlm::TlmEvent;

verus! {

#[derive(Debug, Clone)]
pub struct BrainUploadConfig {
    /// e.g. 127.0.0.1:5235
    pub cfdp_udp_target: String,
    /// e.g. 127.0.0.1:1234
    pub ci_lab_udp_target: String,
    /// /cf/ai_app_weights.tbl (PSP: /cf -> ./cf; CF tmp uses /cf/tmp)
    pub dst_filename: String,
    /// AI_APP.WEIGHTS
    pub tbl_name: String,
    /// Milliseconds to wait for the CF retained-file event.
    pub timeout_file_gate: u64,
    /// Milliseconds to wait for each CFE_TBL EVS gate.
    pub timeout_cmd_ack: u64,
    pub retries: u32,
    /// Milliseconds to pause before the first CFDP PDU.
    pub pre_cfdp_delay: u64,
    /// Milliseconds to pause after each CFDP PDU.
    pub inter_pdu_delay: u64,
}

impl Default for BrainUploadConfig {
    fn default() -> (c: Self)
        ensures
            c.cfdp_udp_target@ == "127.0.0.1:5235"@,
            c.ci_lab_udp_target@ == "127.0.0.1:1234"@,
            c.dst_filename@ == "/cf/ai_app_weights.tbl"@,
            c.tbl_name@ == "AI_APP.WEIGHTS"@,
            c.timeout_file_gate == 120_000,
            c.timeout_cmd_ack == 120_000,
            c.retries == 3,
            c.pre_cfdp_delay == 2_000,
            c.inter_pdu_delay == 100,
    {
        BrainUploadConfig {
            cfdp_udp_target: String::from_str("127.0.0.1:5235"),
            ci_lab_udp_target: String::from_str("127.0.0.1:1234"),
            dst_filename: String::from_str("/cf/ai_app_weights.tbl"),
            tbl_name: String::from_str("AI_APP.WEIGHTS"),
            timeout_file_gate: 120_000,
            timeout_cmd_ack: 120_000,
            retries: 3,
            pre_cfdp_delay: 2_000,
            inter_pdu_delay: 100,
        }
    }
}

/// Mission version string written into the golden table image.
pub const GOLDEN_MISSION_VERSION: &'static str = "LAB_GOLDEN";
/// `CFE_FS_Header_t` description of the uplinked table file.
pub const TABLE_FILE_DESCRIPTION: &'static str = "AI_APP weights uplink";

/// The CFDP Class 1 transfer of the table file: source entity 23 to destination entity 25,
/// transaction 0x01020304, source name `ai_app_weights.tbl`, the configured destination name,
/// modular checksum, no closure, 480-byte file data segments.
pub fn upload_transfer_config(cfg: &BrainUploadConfig) -> (t: CfdpFileTransferConfig)
    ensures
        t.source_eid == 23,
        t.destination_eid == 25,
        t.transaction_seq == 0x01020304,
        t.src_filename@ == "ai_app_weights.tbl"@,
        t.dst_filename@ == cfg.dst_filename@,
        t.checksum_type == 0,
        !t.closure_requested,
        t.max_segment_data == 480,
{
    CfdpFileTransferConfig {
        source_eid: 23,
        destination_eid: 25,
        transaction_seq: 0x01020304,
        src_filename: String::from_str("ai_app_weights.tbl"),
        dst_filename: String::from_str(cfg.dst_filename.as_str()),
        checksum_type: 0,
        closure_requested: false,
        max_segment_data: 480,
    }
}

/// Dictionary command that enables TO_LAB downlink.
pub const CMD_TO_LAB_ENABLE_OUTPUT: &'static str = "CMD_TO_LAB_ENABLE_OUTPUT";
/// Dictionary command that loads the table file into the working buffer.
pub const CMD_CFE_TBL_LOAD_FILE: &'static str = "CMD_CFE_TBL_LOAD_FILE";
/// Dictionary command that activates the loaded table.
pub const CMD_CFE_TBL_ACTIVATE: &'static str = "CMD_CFE_TBL_ACTIVATE";

/// CFE_TBL load success text (see `CFE_TBL_SendLoadFileEventHelper` in cFE `cfe_tbl_load.c`).
pub const EVS_CFE_TBL_LOAD_INTO_WORKING_BUF: &'static str =
    "Successful load into 'AI_APP.WEIGHTS' working buffer";
/// Alternate success line from `CFE_TBL_LoadContentFromFile` completion path.
pub const EVS_CFE_TBL_LOADED_FROM_FILE: &'static str = "Successfully loaded 'AI_APP.WEIGHTS'";
/// AI_APP's post-activate validation success text.
pub const EVS_AI_APP_VALIDATE_OK: &'static str = "AI_APP weights table validation success";
/// AI_APP's validation failure text; seen at any gate, it fails that gate.
pub const EVS_AI_APP_VALIDATE_FAILED: &'static str = "AI_APP weights table validation failed";

/// What the ES HK wait is for.
pub const ES_HK_TIMEOUT_MESSAGE: &'static str = "timeout waiting for ES HK downlink after enabling TO_LAB";
/// The telemetry stream ended.
pub const CHANNEL_CLOSED_MESSAGE: &'static str = "telemetry channel closed";
/// Waiting detail of the load gate.
pub const LOAD_WAIT_DETAIL: &'static str = "CFE_TBL load into working buffer";
/// Waiting detail of the activate gate.
pub const ACTIVATE_WAIT_DETAIL: &'static str = "AI_APP post-activate validation";
/// The load gate timed out.
pub const LOAD_TIMEOUT_MESSAGE: &'static str =
    "timeout waiting for EVS (CFE_TBL load into working buffer); expected one of: [\"Successful load into 'AI_APP.WEIGHTS' working buffer\", \"Successfully loaded 'AI_APP.WEIGHTS'\"]";
/// The activate gate timed out.
pub const ACTIVATE_TIMEOUT_MESSAGE: &'static str =
    "timeout waiting for EVS (AI_APP post-activate validation); expected one of: [\"AI_APP weights table validation success\"]";
/// The EOT gate is best effort: after its 10 s window the upload proceeds.
pub const EOT_NOT_OBSERVED_MESSAGE: &'static str =
    "CF EOT telemetry not observed within 10s; proceeding after retained-file gate";

/// Marker lines the end-to-end harness looks for on stderr.
pub const E2E_LOAD_EVS_OK: &'static str = "BRAIN_UPLOAD_E2E: CFE_TBL_LOAD_EVS_OK";
pub const E2E_VALIDATE_OK: &'static str = "BRAIN_UPLOAD_E2E: AI_APP_VALIDATE_OK";
pub const E2E_COMPLETE: &'static str = "BRAIN_UPLOAD_E2E: COMPLETE";

/// Milliseconds slept before retry `attempt + 1`: 250 ms, doubling up to 4 s.
pub open spec fn spec_backoff_ms(attempt: u32) -> u64 {
    if attempt == 0 {
        250
    } else if attempt == 1 {
        500
    } else if attempt == 2 {
        1000
    } else if attempt == 3 {
        2000
    } else {
        4000
    }
}

/// Milliseconds to sleep after failed attempt `attempt` (250ms, 500ms, 1s, 2s, then 4s).
pub fn backoff_ms(attempt: u32) -> (ms: u64)
    ensures
        ms == spec_backoff_ms(attempt),
{
    let e: u64 = if attempt < 4 {
        attempt as u64
    } else {
        4
    };
    assert(1u64 << 0u64 == 1 && 1u64 << 1u64 == 2 && 1u64 << 2u64 == 4 && 1u64 << 3u64 == 8 && 1u64
        << 4u64 == 16) by (bit_vector);
    250 * (1u64 << e)
}

/// How long a telemetry wait may last.
#[derive(Clone, Copy, Debug, PartialEq, Eq)]
pub enum WaitWindow {
    /// 10 s for ES HK after enabling TO_LAB.
    EsHk,
    /// `timeout_file_gate` milliseconds for the CF retained-file event.
    FileGate,
    /// 10 s for CF EOT after the retained-file event.
    EotAfterRetained,
    /// `timeout_cmd_ack` milliseconds for each CFE_TBL EVS gate.
    CmdAck,
}

impl WaitWindow {
    /// The length of this wait in seconds when it is fixed (10 s for ES HK and for CF EOT), or
    /// `None` when the configuration sets it (`timeout_file_gate`, `timeout_cmd_ack`).
    pub fn fixed_secs(&self) -> (s: Option<u64>)
        ensures
            s == (match *self {
                WaitWindow::EsHk | WaitWindow::EotAfterRetained => Some(10u64),
                WaitWindow::FileGate | WaitWindow::CmdAck => None,
            }),
    {
        match self {
            WaitWindow::EsHk | WaitWindow::EotAfterRetained => Some(10),
            WaitWindow::FileGate | WaitWindow::CmdAck => None,
        }
    }
}

/// Where the upload stands.
#[derive(Clone, Copy, Debug, PartialEq, Eq)]
pub enum UploadStage {
    EnableDownlink,
    AwaitEsHk,
    BuildImage,
    SendCfdp,
    AwaitRetained,
    AwaitEot,
    Settle,
    SendTblLoad,
    AwaitLoadEvs,
    SendTblActivate,
    AwaitActivateEvs,
    Done,
    Failed,
}

/// What the driver should do next.
#[derive(Clone, Copy, Debug, PartialEq, Eq)]
pub enum UploadAction {
    /// Resolve the dictionary command and send it over CI_LAB; report `Sent` or `SendFailed`.
    /// With `report`, publish "sending {name}" before and "{name} sent ({n} bytes wire)" after.
    SendCommand { name: &'static str, report: bool },
    /// Generate the golden table image and its cFE file; report `ImageReady` or `ImageFailed`.
    BuildImage,
    /// Send the CFDP Class 1 PDUs of the file; report `Sent` or `SendFailed`.
    SendCfdp,
    /// Start a telemetry wait bounded by `window`; report `Telemetry`, `TimedOut` or
    /// `ChannelClosed`.
    Wait(WaitWindow),
    /// Go on waiting under the current deadline.
    KeepWaiting,
    /// Sleep this many milliseconds, then report `Slept`.
    Sleep(u64),
    /// Stop; the outcome is decided.
    Finish,
}

/// What happened since the last action.
pub enum UploadEvent {
    Sent,
    SendFailed(String),
    ImageReady,
    ImageFailed(String),
    Telemetry(TlmEvent),
    TimedOut,
    ChannelClosed,
    Slept,
}

/// A progress line for the telemetry stream.
pub struct UploadProgress {
    pub step: &'static str,
    pub detail: String,
}

/// The result of one step: progress lines in order, marker lines for stderr, the next action.
pub struct UploadStep {
    pub progress: Vec<UploadProgress>,
    pub markers: Vec<&'static str>,
    pub action: UploadAction,
}

/// The upload state machine.
pub struct BrainUpload {
    stage: UploadStage,
    attempt: u32,
    retries: u32,
    dst_filename: String,
    cfdp_udp_target: String,
    outcome: Option<Result<(), String>>,
}

/// The abstract state of the machine.
pub struct UploadState {
    pub stage: UploadStage,
    pub attempt: u32,
    pub retries: u32,
    pub dst_filename: Seq<char>,
    pub cfdp_udp_target: Seq<char>,
    pub outcome: Option<Result<(), Seq<char>>>,
}

/// The abstract result of a step.
pub struct StepView {
    pub progress: Seq<(Seq<char>, Seq<char>)>,
    pub markers: Seq<Seq<char>>,
    pub action: UploadAction,
}

/// The abstract view of an event: telemetry is kept as is.
pub enum EventView {
    Sent,
    SendFailed(Seq<char>),
    ImageReady,
    ImageFailed(Seq<char>),
    Telemetry(TlmEvent),
    TimedOut,
    ChannelClosed,
    Slept,
}

impl View for BrainUpload {
    type V = UploadState;

    closed spec fn view(&self) -> UploadState {
        UploadState {
            stage: self.stage,
            attempt: self.attempt,
            retries: self.retries,
            dst_filename: self.dst_filename@,
            cfdp_udp_target: self.cfdp_udp_target@,
            outcome: match self.outcome {
                None => None,
                Some(Ok(())) => Some(Ok(())),
                Some(Err(e)) => Some(Err(e@)),
            },
        }
    }
}

impl View for UploadEvent {
    type V = EventView;

    open spec fn view(&self) -> EventView {
        match self {
            UploadEvent::Sent => EventView::Sent,
            UploadEvent::SendFailed(e) => EventView::SendFailed(e@),
            UploadEvent::ImageReady => EventView::ImageReady,
            UploadEvent::ImageFailed(e) => EventView::ImageFailed(e@),
            UploadEvent::Telemetry(t) => EventView::Telemetry(*t),
            UploadEvent::TimedOut => EventView::TimedOut,
            UploadEvent::ChannelClosed => EventView::ChannelClosed,
            UploadEvent::Slept => EventView::Slept,
        }
    }
}

impl View for UploadStep {
    type V = StepView;

    open spec fn view(&self) -> StepView {
        StepView {
            progress: self.progress@.map_values(|p: UploadProgress| (p.step@, p.detail@)),
            markers: self.markers@.map_values(|m: &'static str| m@),
            action: self.action,
        }
    }
}

/// A progress line.
pub open spec fn line(step: &str, detail: Seq<char>) -> (Seq<char>, Seq<char>) {
    (step@, detail)
}

/// "sending CFDP PDUs to {target} (attempt {a + 1}/{retries + 1})".
pub open spec fn cfdp_sending_detail(target: Seq<char>, attempt: u32, retries: u32) -> Seq<char> {
    "sending CFDP PDUs to "@ + target + " (attempt "@ + decimal((attempt + 1) as nat) + "/"@
        + decimal((retries + 1) as nat) + ")"@
}

/// "{what} failed (attempt {a}): {e}".
pub open spec fn retry_detail(what: &str, attempt: u32, e: Seq<char>) -> Seq<char> {
    what@ + " failed (attempt "@ + decimal(attempt as nat) + "): "@ + e
}

/// The EVS message carried by an event, if it is an EVS long event.
pub open spec fn evs_message(t: TlmEvent) -> Option<Seq<char>> {
    match t {
        TlmEvent::EvsLongEventV1 { evs_long_event, .. } => Some(evs_long_event.message@),
        _ => None,
    }
}

/// The message reports a failed AI_APP table validation.
pub open spec fn is_validation_failure(msg: Seq<char>) -> bool {
    contains_seq(msg, EVS_AI_APP_VALIDATE_FAILED@)
}

/// "AI_APP validation failure observed: {msg}".
pub open spec fn validation_failure_message(msg: Seq<char>) -> Seq<char> {
    "AI_APP validation failure observed: "@ + msg
}

/// The text of the CF event that reports the file retained as `dst`.
pub open spec fn retained_needle(dst: Seq<char>) -> Seq<char> {
    "successfully retained file as "@ + dst
}

/// The state after a step that only changes the stage and the attempt.
pub open spec fn moved(s: UploadState, stage: UploadStage, attempt: u32) -> UploadState {
    UploadState { stage, attempt, ..s }
}

/// The state after the upload ends with `outcome`.
pub open spec fn finished(s: UploadState, outcome: Result<(), Seq<char>>) -> UploadState {
    UploadState {
        stage: if outcome is Ok {
            UploadStage::Done
        } else {
            UploadStage::Failed
        },
        outcome: Some(outcome),
        ..s
    }
}

/// A step with the given lines and action, and no markers.
pub open spec fn plain(progress: Seq<(Seq<char>, Seq<char>)>, action: UploadAction) -> StepView {
    StepView { progress, markers: Seq::empty(), action }
}

/// After failed attempt `s.attempt` of a stage with retries: either back off and retry the stage
/// with the next attempt, publishing "{what} failed (attempt {a}): {e}", or fail with
/// "{what} failed: {e}" (`fail_plain`: with `e` alone) when the attempts are used up.
pub open spec fn retry_or_fail(
    s: UploadState,
    stage: UploadStage,
    what: &str,
    e: Seq<char>,
    fail_plain: bool,
) -> (UploadState, StepView) {
    if s.attempt < s.retries {
        (
            moved(s, stage, (s.attempt + 1) as u32),
            plain(
                seq![line("retry", retry_detail(what, s.attempt, e))],
                UploadAction::Sleep(spec_backoff_ms(s.attempt)),
            ),
        )
    } else {
        (
            finished(
                s,
                Err(
                    if fail_plain {
                        e
                    } else {
                        what@ + " failed: "@ + e
                    },
                ),
            ),
            plain(Seq::empty(), UploadAction::Finish),
        )
    }
}

/// The table-command gates retry the whole load + activate sequence.
pub open spec fn tbl_retry(s: UploadState, e: Seq<char>) -> (UploadState, StepView) {
    retry_or_fail(s, UploadStage::SendTblLoad, "TBL load/activate", e, false)
}

/// Closes the retained-file gate with `first` and a "gate satisfied" line, then sleeps 5 s.
pub open spec fn gate_satisfied(s: UploadState, first: (Seq<char>, Seq<char>)) -> (UploadState, StepView) {
    (
        moved(s, UploadStage::Settle, s.attempt),
        plain(
            seq![first, line("gate", "CF retained-file gate satisfied"@)],
            UploadAction::Sleep(5000),
        ),
    )
}

/// One step of the upload: the next state and what to do, for each stage and event.
pub open spec fn spec_step(s: UploadState, ev: EventView) -> (UploadState, StepView) {
    let keep = (s, plain(Seq::empty(), UploadAction::KeepWaiting));
    match s.stage {
        UploadStage::EnableDownlink => match ev {
            EventView::Sent => (
                moved(s, UploadStage::AwaitEsHk, s.attempt),
                plain(Seq::empty(), UploadAction::Wait(WaitWindow::EsHk)),
            ),
            EventView::SendFailed(e) => retry_or_fail(
                s,
                UploadStage::EnableDownlink,
                "to_lab enable send",
                e,
                false,
            ),
            EventView::Slept => (
                s,
                plain(
                    seq![line("cmd_send", "sending CMD_TO_LAB_ENABLE_OUTPUT"@)],
                    UploadAction::SendCommand { name: CMD_TO_LAB_ENABLE_OUTPUT, report: false },
                ),
            ),
            _ => keep,
        },
        UploadStage::AwaitEsHk => match ev {
            EventView::Telemetry(TlmEvent::EsHkV1 { .. }) => (
                moved(s, UploadStage::BuildImage, s.attempt),
                plain(
                    seq![
                        line("gate", "ES HK downlink observed (TO_LAB enabled)"@),
                        line("table_generate", "generating AI_APP weights image"@),
                    ],
                    UploadAction::BuildImage,
                ),
            ),
            EventView::TimedOut => retry_or_fail(
                s,
                UploadStage::EnableDownlink,
                "waiting for ES HK",
                ES_HK_TIMEOUT_MESSAGE@,
                true,
            ),
            EventView::ChannelClosed => retry_or_fail(
                s,
                UploadStage::EnableDownlink,
                "waiting for ES HK",
                CHANNEL_CLOSED_MESSAGE@,
                true,
            ),
            _ => keep,
        },
        UploadStage::BuildImage => match ev {
            EventView::ImageReady => (
                moved(s, UploadStage::SendCfdp, 0),
                plain(
                    seq![line("cfdp_send", cfdp_sending_detail(s.cfdp_udp_target, 0, s.retries))],
                    UploadAction::SendCfdp,
                ),
            ),
            EventView::ImageFailed(e) => (finished(s, Err(e)), plain(Seq::empty(), UploadAction::Finish)),
            _ => keep,
        },
        UploadStage::SendCfdp => match ev {
            EventView::Sent => (
                moved(s, UploadStage::AwaitRetained, s.attempt),
                plain(
                    seq![line("gate", "waiting for CF retained-file + EOT telemetry"@)],
                    UploadAction::Wait(WaitWindow::FileGate),
                ),
            ),
            EventView::SendFailed(e) => retry_or_fail(s, UploadStage::SendCfdp, "CFDP send", e, false),
            EventView::Slept => (
                s,
                plain(
                    seq![
                        line(
                            "cfdp_send",
                            cfdp_sending_detail(s.cfdp_udp_target, s.attempt, s.retries),
                        ),
                    ],
                    UploadAction::SendCfdp,
                ),
            ),
            _ => keep,
        },
        UploadStage::AwaitRetained => match ev {
            EventView::Telemetry(t) => match evs_message(t) {
                Some(msg) => if is_validation_failure(msg) {
                    (
                        finished(s, Err(validation_failure_message(msg))),
                        plain(Seq::empty(), UploadAction::Finish),
                    )
                } else if contains_seq(msg, retained_needle(s.dst_filename)) {
                    (
                        moved(s, UploadStage::AwaitEot, s.attempt),
                        plain(
                            seq![
                                line(
                                    "gate",
                                    "CF retained-file event observed for "@ + s.dst_filename,
                                ),
                            ],
                            UploadAction::Wait(WaitWindow::EotAfterRetained),
                        ),
                    )
                } else {
                    keep
                },
                None => keep,
            },
            EventView::TimedOut => (
                finished(
                    s,
                    Err("timeout waiting for CF retained-file event for "@ + s.dst_filename),
                ),
                plain(Seq::empty(), UploadAction::Finish),
            ),
            EventView::ChannelClosed => (
                finished(s, Err(CHANNEL_CLOSED_MESSAGE@)),
                plain(Seq::empty(), UploadAction::Finish),
            ),
            _ => keep,
        },
        UploadStage::AwaitEot => match ev {
            EventView::Telemetry(TlmEvent::CfEotV1 { cf_eot, .. }) => if cf_eot.dst_filename@
                == s.dst_filename {
                gate_satisfied(s, line("gate", "CF EOT telemetry observed for "@ + s.dst_filename))
            } else {
                keep
            },
            EventView::Telemetry(t) => match evs_message(t) {
                Some(msg) => if is_validation_failure(msg) {
                    (
                        finished(s, Err(validation_failure_message(msg))),
                        plain(Seq::empty(), UploadAction::Finish),
                    )
                } else {
                    keep
                },
                None => keep,
            },
            EventView::TimedOut => gate_satisfied(s, line("gate", EOT_NOT_OBSERVED_MESSAGE@)),
            EventView::ChannelClosed => (
                finished(s, Err(CHANNEL_CLOSED_MESSAGE@)),
                plain(Seq::empty(), UploadAction::Finish),
            ),
            _ => keep,
        },
        UploadStage::Settle => match ev {
            EventView::Slept => (
                moved(s, UploadStage::SendTblLoad, 0),
                plain(
                    seq![line("tbl", "CFE_TBL load/activate (EVS-gated)"@)],
                    UploadAction::SendCommand { name: CMD_CFE_TBL_LOAD_FILE, report: true },
                ),
            ),
            _ => keep,
        },
        UploadStage::SendTblLoad => match ev {
            EventView::Sent => (
                moved(s, UploadStage::AwaitLoadEvs, s.attempt),
                plain(
                    seq![line("tbl_wait", LOAD_WAIT_DETAIL@)],
                    UploadAction::Wait(WaitWindow::CmdAck),
                ),
            ),
            EventView::SendFailed(e) => tbl_retry(s, e),
            EventView::Slept => (
                s,
                plain(
                    Seq::empty(),
                    UploadAction::SendCommand { name: CMD_CFE_TBL_LOAD_FILE, report: true },
                ),
            ),
            _ => keep,
        },
        UploadStage::AwaitLoadEvs => match ev {
            EventView::Telemetry(t) => match evs_message(t) {
                Some(msg) => if is_validation_failure(msg) {
                    tbl_retry(s, validation_failure_message(msg))
                } else if contains_seq(msg, EVS_CFE_TBL_LOAD_INTO_WORKING_BUF@) || contains_seq(
                    msg,
                    EVS_CFE_TBL_LOADED_FROM_FILE@,
                ) {
                    let needle = if contains_seq(msg, EVS_CFE_TBL_LOAD_INTO_WORKING_BUF@) {
                        EVS_CFE_TBL_LOAD_INTO_WORKING_BUF@
                    } else {
                        EVS_CFE_TBL_LOADED_FROM_FILE@
                    };
                    (
                        moved(s, UploadStage::SendTblActivate, s.attempt),
                        StepView {
                            progress: seq![
                                line(
                                    "tbl_evs",
                                    "matched EVS ("@ + LOAD_WAIT_DETAIL@ + "): "@ + needle,
                                ),
                            ],
                            markers: seq![E2E_LOAD_EVS_OK@],
                            action: UploadAction::SendCommand {
                                name: CMD_CFE_TBL_ACTIVATE,
                                report: true,
                            },
                        },
                    )
                } else {
                    keep
                },
                None => keep,
            },
            EventView::TimedOut => tbl_retry(s, LOAD_TIMEOUT_MESSAGE@),
            EventView::ChannelClosed => tbl_retry(s, CHANNEL_CLOSED_MESSAGE@),
            _ => keep,
        },
        UploadStage::SendTblActivate => match ev {
            EventView::Sent => (
                moved(s, UploadStage::AwaitActivateEvs, s.attempt),
                plain(
                    seq![line("tbl_wait", ACTIVATE_WAIT_DETAIL@)],
                    UploadAction::Wait(WaitWindow::CmdAck),
                ),
            ),
            EventView::SendFailed(e) => tbl_retry(s, e),
            _ => keep,
        },
        UploadStage::AwaitActivateEvs => match ev {
            EventView::Telemetry(t) => match evs_message(t) {
                Some(msg) => if is_validation_failure(msg) {
                    tbl_retry(s, validation_failure_message(msg))
                } else if contains_seq(msg, EVS_AI_APP_VALIDATE_OK@) {
                    (
                        finished(s, Ok(())),
                        StepView {
                            progress: seq![
                                line(
                                    "tbl_evs",
                                    "matched EVS ("@ + ACTIVATE_WAIT_DETAIL@ + "): "@
                                        + EVS_AI_APP_VALIDATE_OK@,
                                ),
                                line("done", "master brain upload completed"@),
                            ],
                            markers: seq![E2E_VALIDATE_OK@, E2E_COMPLETE@],
                            action: UploadAction::Finish,
                        },
                    )
                } else {
                    keep
                },
                None => keep,
            },
            EventView::TimedOut => tbl_retry(s, ACTIVATE_TIMEOUT_MESSAGE@),
            EventView::ChannelClosed => tbl_retry(s, CHANNEL_CLOSED_MESSAGE@),
            _ => keep,
        },
        UploadStage::Done | UploadStage::Failed => (s, plain(Seq::empty(), UploadAction::Finish)),
    }
}

impl UploadState {
    /// The machine's invariant: attempts stay within the retry budget, and an outcome is
    /// recorded exactly when the upload has ended, `Ok` exactly when it is done.
    pub open spec fn wf(&self) -> bool {
        &&& self.retries < u32::MAX
        &&& self.attempt <= self.retries
        &&& (self.outcome is Some <==> (self.stage == UploadStage::Done || self.stage
            == UploadStage::Failed))
        &&& (self.stage == UploadStage::Done <==> self.outcome == Some(Ok::<(), Seq<char>>(())))
    }
}

/// The state a fresh upload starts in.
pub open spec fn initial_state(retries: u32, dst: Seq<char>, target: Seq<char>) -> UploadState {
    UploadState {
        stage: UploadStage::EnableDownlink,
        attempt: 0,
        retries,
        dst_filename: dst,
        cfdp_udp_target: target,
        outcome: None,
    }
}

/// The first step of a fresh upload.
pub open spec fn initial_step() -> StepView {
    plain(
        seq![
            line("start", "master brain upload starting"@),
            line("cmd_send", "sending CMD_TO_LAB_ENABLE_OUTPUT"@),
        ],
        UploadAction::SendCommand { name: CMD_TO_LAB_ENABLE_OUTPUT, report: false },
    )
}

/// A `String` holding `s`.
fn owned(s: &str) -> (r: String)
    ensures
        r@ == s@,
{
    let mut r = String::new();
    string_push_str(&mut r, s);
    r
}

/// `a` followed by `b`.
fn concat2(a: &str, b: &str) -> (r: String)
    ensures
        r@ == a@ + b@,
{
    let mut r = String::new();
    string_push_str(&mut r, a);
    string_push_str(&mut r, b);
    r
}

/// A step with no progress lines and no markers.
fn bare(action: UploadAction) -> (st: UploadStep)
    ensures
        st@ == plain(Seq::empty(), action),
{
    let st = UploadStep { progress: Vec::new(), markers: Vec::new(), action };
    assert(st@.progress =~= Seq::empty());
    assert(st@.markers =~= Seq::empty());
    st
}

/// A step with one progress line and no markers.
fn one_line(step: &'static str, detail: String, action: UploadAction) -> (st: UploadStep)
    ensures
        st@ == plain(seq![line(step, detail@)], action),
{
    let mut progress = Vec::new();
    progress.push(UploadProgress { step, detail });
    let st = UploadStep { progress, markers: Vec::new(), action };
    assert(st@.progress =~= seq![line(step, detail@)]);
    assert(st@.markers =~= Seq::empty());
    st
}

/// A step with two progress lines and no markers.
fn two_lines(
    step1: &'static str,
    detail1: String,
    step2: &'static str,
    detail2: String,
    action: UploadAction,
) -> (st: UploadStep)
    ensures
        st@ == plain(seq![line(step1, detail1@), line(step2, detail2@)], action),
{
    let mut progress = Vec::new();
    progress.push(UploadProgress { step: step1, detail: detail1 });
    progress.push(UploadProgress { step: step2, detail: detail2 });
    let st = UploadStep { progress, markers: Vec::new(), action };
    assert(st@.progress =~= seq![line(step1, detail1@), line(step2, detail2@)]);
    assert(st@.markers =~= Seq::empty());
    st
}

/// "sending CFDP PDUs to {target} (attempt {a + 1}/{retries + 1})".
fn cfdp_sending(target: &str, attempt: u32, retries: u32) -> (r: String)
    requires
        retries < u32::MAX,
        attempt <= retries,
    ensures
        r@ == cfdp_sending_detail(target@, attempt, retries),
{
    let mut r = String::new();
    string_push_str(&mut r, "sending CFDP PDUs to ");
    string_push_str(&mut r, target);
    string_push_str(&mut r, " (attempt ");
    push_decimal(&mut r, attempt as u64 + 1);
    string_push_str(&mut r, "/");
    push_decimal(&mut r, retries as u64 + 1);
    string_push_str(&mut r, ")");
    r
}

/// "{what} failed (attempt {a}): {e}".
fn retry_line(what: &str, attempt: u32, e: &str) -> (r: String)
    ensures
        r@ == retry_detail(what, attempt, e@),
{
    let mut r = String::new();
    string_push_str(&mut r, what);
    string_push_str(&mut r, " failed (attempt ");
    push_decimal(&mut r, attempt as u64);
    string_push_str(&mut r, "): ");
    string_push_str(&mut r, e);
    r
}

/// The EVS message of a telemetry event, if it is an EVS long event.
fn evs_text(t: &TlmEvent) -> (m: Option<&str>)
    ensures
        match evs_message(*t) {
            Some(msg) => m is Some && m->0@ == msg,
            None => m is None,
        },
{
    match t {
        TlmEvent::EvsLongEventV1 { evs_long_event, .. } => Some(evs_long_event.message.as_str()),
        _ => None,
    }
}

impl BrainUpload {
    /// A fresh upload for `cfg` and its first step (enable TO_LAB downlink).
    pub fn start(cfg: &BrainUploadConfig) -> (r: (BrainUpload, UploadStep))
        requires
            cfg.retries < u32::MAX,
        ensures
            r.0@ == initial_state(cfg.retries, cfg.dst_filename@, cfg.cfdp_udp_target@),
            r.0@.wf(),
            r.1@ == initial_step(),
    {
        let m = BrainUpload {
            stage: UploadStage::EnableDownlink,
            attempt: 0,
            retries: cfg.retries,
            dst_filename: owned(cfg.dst_filename.as_str()),
            cfdp_udp_target: owned(cfg.cfdp_udp_target.as_str()),
            outcome: None,
        };
        let st = two_lines(
            "start",
            owned("master brain upload starting"),
            "cmd_send",
            owned("sending CMD_TO_LAB_ENABLE_OUTPUT"),
            UploadAction::SendCommand { name: CMD_TO_LAB_ENABLE_OUTPUT, report: false },
        );
        (m, st)
    }

    /// Where the upload stands.
    pub fn stage(&self) -> (s: UploadStage)
        ensures
            s == self@.stage,
    {
        self.stage
    }

    /// The zero-based attempt of the current stage.
    pub fn attempt(&self) -> (a: u32)
        ensures
            a == self@.attempt,
    {
        self.attempt
    }

    /// The outcome once the upload has ended.
    pub fn outcome(&self) -> (o: Option<Result<(), String>>)
        ensures
            match o {
                None => self@.outcome is None,
                Some(Ok(())) => self@.outcome == Some(Ok::<(), Seq<char>>(())),
                Some(Err(e)) => self@.outcome == Some(Err::<(), Seq<char>>(e@)),
            },
    {
        match &self.outcome {
            None => None,
            Some(Ok(())) => Some(Ok(())),
            Some(Err(e)) => Some(Err(owned(e.as_str()))),
        }
    }

    /// Ends the upload with `outcome`.
    fn finish(&mut self, outcome: Result<(), String>) -> (st: UploadStep)
        requires
            old(self)@.wf(),
        ensures
            final(self)@ == finished(
                old(self)@,
                match outcome {
                    Ok(()) => Ok(()),
                    Err(e) => Err(e@),
                },
            ),
            final(self)@.wf(),
            st@ == plain(Seq::empty(), UploadAction::Finish),
    {
        self.stage = if outcome.is_ok() {
            UploadStage::Done
        } else {
            UploadStage::Failed
        };
        self.outcome = Some(outcome);
        bare(UploadAction::Finish)
    }

    /// Retries `stage` after a backoff, or ends the upload (see `retry_or_fail`).
    fn retry_or_fail(&mut self, stage: UploadStage, what: &'static str, e: String, fail_plain: bool) -> (st: UploadStep)
        requires
            old(self)@.wf(),
            old(self)@.outcome is None,
        ensures
            (final(self)@, st@) == retry_or_fail(old(self)@, stage, what, e@, fail_plain),
    {
        if self.attempt < self.retries {
            let detail = retry_line(what, self.attempt, e.as_str());
            let ms = backoff_ms(self.attempt);
            self.attempt = self.attempt + 1;
            self.stage = stage;
            one_line("retry", detail, UploadAction::Sleep(ms))
        } else if fail_plain {
            self.finish(Err(e))
        } else {
            let mut msg = String::new();
            string_push_str(&mut msg, what);
            string_push_str(&mut msg, " failed: ");
            string_push_str(&mut msg, e.as_str());
            self.finish(Err(msg))
        }
    }
}

impl BrainUpload {
    /// Decides what follows `ev`: the machine's next state and the step to perform.
    pub fn step(&mut self, ev: UploadEvent) -> (st: UploadStep)
        requires
            old(self)@.wf(),
        ensures
            (final(self)@, st@) == spec_step(old(self)@, ev@),
            final(self)@.wf(),
    {
        proof {
            lemma_step_preserves_wf(self@, ev@);
        }
        match self.stage {
            UploadStage::EnableDownlink => self.on_enable_downlink(ev),
            UploadStage::AwaitEsHk => self.on_await_es_hk(ev),
            UploadStage::BuildImage => self.on_build_image(ev),
            UploadStage::SendCfdp => self.on_send_cfdp(ev),
            UploadStage::AwaitRetained => self.on_await_retained(ev),
            UploadStage::AwaitEot => self.on_await_eot(ev),
            UploadStage::Settle => self.on_settle(ev),
            UploadStage::SendTblLoad => self.on_send_tbl_load(ev),
            UploadStage::AwaitLoadEvs => self.on_await_load_evs(ev),
            UploadStage::SendTblActivate => self.on_send_tbl_activate(ev),
            UploadStage::AwaitActivateEvs => self.on_await_activate_evs(ev),
            UploadStage::Done | UploadStage::Failed => bare(UploadAction::Finish),
        }
    }

    fn on_enable_downlink(&mut self, ev: UploadEvent) -> (st: UploadStep)
        requires
            old(self)@.wf(),
            old(self)@.stage == UploadStage::EnableDownlink,
        ensures
            (final(self)@, st@) == spec_step(old(self)@, ev@),
    {
        match ev {
            UploadEvent::Sent => {
                self.stage = UploadStage::AwaitEsHk;
                bare(UploadAction::Wait(WaitWindow::EsHk))
            },
            UploadEvent::SendFailed(e) => self.retry_or_fail(
                UploadStage::EnableDownlink,
                "to_lab enable send",
                e,
                false,
            ),
            UploadEvent::Slept => one_line(
                "cmd_send",
                owned("sending CMD_TO_LAB_ENABLE_OUTPUT"),
                UploadAction::SendCommand { name: CMD_TO_LAB_ENABLE_OUTPUT, report: false },
            ),
            _ => bare(UploadAction::KeepWaiting),
        }
    }

    fn on_await_es_hk(&mut self, ev: UploadEvent) -> (st: UploadStep)
        requires
            old(self)@.wf(),
            old(self)@.stage == UploadStage::AwaitEsHk,
        ensures
            (final(self)@, st@) == spec_step(old(self)@, ev@),
    {
        match ev {
            UploadEvent::Telemetry(TlmEvent::EsHkV1 { .. }) => {
                self.stage = UploadStage::BuildImage;
                two_lines(
                    "gate",
                    owned("ES HK downlink observed (TO_LAB enabled)"),
                    "table_generate",
                    owned("generating AI_APP weights image"),
                    UploadAction::BuildImage,
                )
            },
            UploadEvent::TimedOut => self.retry_or_fail(
                UploadStage::EnableDownlink,
                "waiting for ES HK",
                owned(ES_HK_TIMEOUT_MESSAGE),
                true,
            ),
            UploadEvent::ChannelClosed => self.retry_or_fail(
                UploadStage::EnableDownlink,
                "waiting for ES HK",
                owned(CHANNEL_CLOSED_MESSAGE),
                true,
            ),
            _ => bare(UploadAction::KeepWaiting),
        }
    }

    fn on_build_image(&mut self, ev: UploadEvent) -> (st: UploadStep)
        requires
            old(self)@.wf(),
            old(self)@.stage == UploadStage::BuildImage,
        ensures
            (final(self)@, st@) == spec_step(old(self)@, ev@),
    {
        match ev {
            UploadEvent::ImageReady => {
                self.stage = UploadStage::SendCfdp;
                self.attempt = 0;
                let detail = cfdp_sending(self.cfdp_udp_target.as_str(), 0, self.retries);
                one_line("cfdp_send", detail, UploadAction::SendCfdp)
            },
            UploadEvent::ImageFailed(e) => self.finish(Err(e)),
            _ => bare(UploadAction::KeepWaiting),
        }
    }

    fn on_send_cfdp(&mut self, ev: UploadEvent) -> (st: UploadStep)
        requires
            old(self)@.wf(),
            old(self)@.stage == UploadStage::SendCfdp,
        ensures
            (final(self)@, st@) == spec_step(old(self)@, ev@),
    {
        match ev {
            UploadEvent::Sent => {
                self.stage = UploadStage::AwaitRetained;
                one_line(
                    "gate",
                    owned("waiting for CF retained-file + EOT telemetry"),
                    UploadAction::Wait(WaitWindow::FileGate),
                )
            },
            UploadEvent::SendFailed(e) => self.retry_or_fail(UploadStage::SendCfdp, "CFDP send", e, false),
            UploadEvent::Slept => {
                let detail = cfdp_sending(self.cfdp_udp_target.as_str(), self.attempt, self.retries);
                one_line("cfdp_send", detail, UploadAction::SendCfdp)
            },
            _ => bare(UploadAction::KeepWaiting),
        }
    }

    fn on_await_retained(&mut self, ev: UploadEvent) -> (st: UploadStep)
        requires
            old(self)@.wf(),
            old(self)@.stage == UploadStage::AwaitRetained,
        ensures
            (final(self)@, st@) == spec_step(old(self)@, ev@),
    {
        match ev {
            UploadEvent::Telemetry(t) => {
                let m = evs_text(&t);
                match m {
                    Some(msg) => {
                        if str_contains(msg, EVS_AI_APP_VALIDATE_FAILED) {
                            let e = concat2("AI_APP validation failure observed: ", msg);
                            self.finish(Err(e))
                        } else {
                            let needle = concat2(
                                "successfully retained file as ",
                                self.dst_filename.as_str(),
                            );
                            if str_contains(msg, needle.as_str()) {
                                self.stage = UploadStage::AwaitEot;
                                let detail = concat2(
                                    "CF retained-file event observed for ",
                                    self.dst_filename.as_str(),
                                );
                                one_line(
                                    "gate",
                                    detail,
                                    UploadAction::Wait(WaitWindow::EotAfterRetained),
                                )
                            } else {
                                bare(UploadAction::KeepWaiting)
                            }
                        }
                    },
                    None => bare(UploadAction::KeepWaiting),
                }
            },
            UploadEvent::TimedOut => {
                let e = concat2(
                    "timeout waiting for CF retained-file event for ",
                    self.dst_filename.as_str(),
                );
                self.finish(Err(e))
            },
            UploadEvent::ChannelClosed => self.finish(Err(owned(CHANNEL_CLOSED_MESSAGE))),
            _ => bare(UploadAction::KeepWaiting),
        }
    }

    /// Closes the file gate with `first` and the "gate satisfied" line, then settles.
    fn close_gate(&mut self, first: String) -> (st: UploadStep)
        requires
            old(self)@.wf(),
        ensures
            (final(self)@, st@) == gate_satisfied(old(self)@, line("gate", first@)),
    {
        self.stage = UploadStage::Settle;
        two_lines(
            "gate",
            first,
            "gate",
            owned("CF retained-file gate satisfied"),
            UploadAction::Sleep(5000),
        )
    }

    fn on_await_eot(&mut self, ev: UploadEvent) -> (st: UploadStep)
        requires
            old(self)@.wf(),
            old(self)@.stage == UploadStage::AwaitEot,
        ensures
            (final(self)@, st@) == spec_step(old(self)@, ev@),
    {
        match ev {
            UploadEvent::Telemetry(t) => {
                match &t {
                    TlmEvent::CfEotV1 { cf_eot, .. } => {
                        if str_eq(cf_eot.dst_filename.as_str(), self.dst_filename.as_str()) {
                            let first = concat2(
                                "CF EOT telemetry observed for ",
                                self.dst_filename.as_str(),
                            );
                            self.close_gate(first)
                        } else {
                            bare(UploadAction::KeepWaiting)
                        }
                    },
                    _ => {
                        let m = evs_text(&t);
                        match m {
                            Some(msg) => {
                                if str_contains(msg, EVS_AI_APP_VALIDATE_FAILED) {
                                    let e = concat2("AI_APP validation failure observed: ", msg);
                                    self.finish(Err(e))
                                } else {
                                    bare(UploadAction::KeepWaiting)
                                }
                            },
                            None => bare(UploadAction::KeepWaiting),
                        }
                    },
                }
            },
            UploadEvent::TimedOut => self.close_gate(owned(EOT_NOT_OBSERVED_MESSAGE)),
            UploadEvent::ChannelClosed => self.finish(Err(owned(CHANNEL_CLOSED_MESSAGE))),
            _ => bare(UploadAction::KeepWaiting),
        }
    }

    fn on_settle(&mut self, ev: UploadEvent) -> (st: UploadStep)
        requires
            old(self)@.wf(),
            old(self)@.stage == UploadStage::Settle,
        ensures
            (final(self)@, st@) == spec_step(old(self)@, ev@),
    {
        match ev {
            UploadEvent::Slept => {
                self.stage = UploadStage::SendTblLoad;
                self.attempt = 0;
                one_line(
                    "tbl",
                    owned("CFE_TBL load/activate (EVS-gated)"),
                    UploadAction::SendCommand { name: CMD_CFE_TBL_LOAD_FILE, report: true },
                )
            },
            _ => bare(UploadAction::KeepWaiting),
        }
    }

    fn on_send_tbl_load(&mut self, ev: UploadEvent) -> (st: UploadStep)
        requires
            old(self)@.wf(),
            old(self)@.stage == UploadStage::SendTblLoad,
        ensures
            (final(self)@, st@) == spec_step(old(self)@, ev@),
    {
        match ev {
            UploadEvent::Sent => {
                self.stage = UploadStage::AwaitLoadEvs;
                one_line("tbl_wait", owned(LOAD_WAIT_DETAIL), UploadAction::Wait(WaitWindow::CmdAck))
            },
            UploadEvent::SendFailed(e) => self.retry_or_fail(
                UploadStage::SendTblLoad,
                "TBL load/activate",
                e,
                false,
            ),
            UploadEvent::Slept => bare(
                UploadAction::SendCommand { name: CMD_CFE_TBL_LOAD_FILE, report: true },
            ),
            _ => bare(UploadAction::KeepWaiting),
        }
    }

    fn on_await_load_evs(&mut self, ev: UploadEvent) -> (st: UploadStep)
        requires
            old(self)@.wf(),
            old(self)@.stage == UploadStage::AwaitLoadEvs,
        ensures
            (final(self)@, st@) == spec_step(old(self)@, ev@),
    {
        match ev {
            UploadEvent::Telemetry(t) => {
                let m = evs_text(&t);
                match m {
                    Some(msg) => {
                        if str_contains(msg, EVS_AI_APP_VALIDATE_FAILED) {
                            let e = concat2("AI_APP validation failure observed: ", msg);
                            self.retry_or_fail(UploadStage::SendTblLoad, "TBL load/activate", e, false)
                        } else {
                            let first = str_contains(msg, EVS_CFE_TBL_LOAD_INTO_WORKING_BUF);
                            if first || str_contains(msg, EVS_CFE_TBL_LOADED_FROM_FILE) {
                                let needle = if first {
                                    EVS_CFE_TBL_LOAD_INTO_WORKING_BUF
                                } else {
                                    EVS_CFE_TBL_LOADED_FROM_FILE
                                };
                                let mut detail = String::new();
                                string_push_str(&mut detail, "matched EVS (");
                                string_push_str(&mut detail, LOAD_WAIT_DETAIL);
                                string_push_str(&mut detail, "): ");
                                string_push_str(&mut detail, needle);
                                self.stage = UploadStage::SendTblActivate;
                                let mut st = one_line(
                                    "tbl_evs",
                                    detail,
                                    UploadAction::SendCommand {
                                        name: CMD_CFE_TBL_ACTIVATE,
                                        report: true,
                                    },
                                );
                                st.markers.push(E2E_LOAD_EVS_OK);
                                assert(st@.markers =~= seq![E2E_LOAD_EVS_OK@]);
                                st
                            } else {
                                bare(UploadAction::KeepWaiting)
                            }
                        }
                    },
                    None => bare(UploadAction::KeepWaiting),
                }
            },
            UploadEvent::TimedOut => self.retry_or_fail(
                UploadStage::SendTblLoad,
                "TBL load/activate",
                owned(LOAD_TIMEOUT_MESSAGE),
                false,
            ),
            UploadEvent::ChannelClosed => self.retry_or_fail(
                UploadStage::SendTblLoad,
                "TBL load/activate",
                owned(CHANNEL_CLOSED_MESSAGE),
                false,
            ),
            _ => bare(UploadAction::KeepWaiting),
        }
    }

    fn on_send_tbl_activate(&mut self, ev: UploadEvent) -> (st: UploadStep)
        requires
            old(self)@.wf(),
            old(self)@.stage == UploadStage::SendTblActivate,
        ensures
            (final(self)@, st@) == spec_step(old(self)@, ev@),
    {
        match ev {
            UploadEvent::Sent => {
                self.stage = UploadStage::AwaitActivateEvs;
                one_line(
                    "tbl_wait",
                    owned(ACTIVATE_WAIT_DETAIL),
                    UploadAction::Wait(WaitWindow::CmdAck),
                )
            },
            UploadEvent::SendFailed(e) => self.retry_or_fail(
                UploadStage::SendTblLoad,
                "TBL load/activate",
                e,
                false,
            ),
            _ => bare(UploadAction::KeepWaiting),
        }
    }

    fn on_await_activate_evs(&mut self, ev: UploadEvent) -> (st: UploadStep)
        requires
            old(self)@.wf(),
            old(self)@.stage == UploadStage::AwaitActivateEvs,
        ensures
            (final(self)@, st@) == spec_step(old(self)@, ev@),
    {
        match ev {
            UploadEvent::Telemetry(t) => {
                let m = evs_text(&t);
                match m {
                    Some(msg) => {
                        if str_contains(msg, EVS_AI_APP_VALIDATE_FAILED) {
                            let e = concat2("AI_APP validation failure observed: ", msg);
                            self.retry_or_fail(UploadStage::SendTblLoad, "TBL load/activate", e, false)
                        } else if str_contains(msg, EVS_AI_APP_VALIDATE_OK) {
                            let mut detail = String::new();
                            string_push_str(&mut detail, "matched EVS (");
                            string_push_str(&mut detail, ACTIVATE_WAIT_DETAIL);
                            string_push_str(&mut detail, "): ");
                            string_push_str(&mut detail, EVS_AI_APP_VALIDATE_OK);
                            let _ = self.finish(Ok(()));
                            let mut st = two_lines(
                                "tbl_evs",
                                detail,
                                "done",
                                owned("master brain upload completed"),
                                UploadAction::Finish,
                            );
                            assert(st.markers@.len() == st@.markers.len());
                            st.markers.push(E2E_VALIDATE_OK);
                            st.markers.push(E2E_COMPLETE);
                            assert(st.markers@ =~= seq![E2E_VALIDATE_OK, E2E_COMPLETE]);
                            assert(st@.markers[0] == E2E_VALIDATE_OK@);
                            assert(st@.markers[1] == E2E_COMPLETE@);
                            assert(st@.markers =~= seq![E2E_VALIDATE_OK@, E2E_COMPLETE@]);
                            st
                        } else {
                            bare(UploadAction::KeepWaiting)
                        }
                    },
                    None => bare(UploadAction::KeepWaiting),
                }
            },
            UploadEvent::TimedOut => self.retry_or_fail(
                UploadStage::SendTblLoad,
                "TBL load/activate",
                owned(ACTIVATE_TIMEOUT_MESSAGE),
                false,
            ),
            UploadEvent::ChannelClosed => self.retry_or_fail(
                UploadStage::SendTblLoad,
                "TBL load/activate",
                owned(CHANNEL_CLOSED_MESSAGE),
                false,
            ),
            _ => bare(UploadAction::KeepWaiting),
        }
    }
}

/// Every step keeps the machine's invariant.
pub proof fn lemma_step_preserves_wf(s: UploadState, ev: EventView)
    requires
        s.wf(),
    ensures
        spec_step(s, ev).0.wf(),
{
}

/// An ended upload stays ended: its state does not change and the driver is told to stop.
pub proof fn lemma_terminal_is_absorbing(s: UploadState, ev: EventView)
    requires
        s.stage == UploadStage::Done || s.stage == UploadStage::Failed,
    ensures
        spec_step(s, ev).0 == s,
        spec_step(s, ev).1.action == UploadAction::Finish,
{
}

/// The upload completes only from the activate gate, on an EVS event that reports AI_APP's
/// validation success and no validation failure.
pub proof fn lemma_done_only_after_validation(s: UploadState, ev: EventView)
    requires
        s.stage != UploadStage::Done,
        spec_step(s, ev).0.stage == UploadStage::Done,
    ensures
        s.stage == UploadStage::AwaitActivateEvs,
        ev matches EventView::Telemetry(t) && evs_message(t) matches Some(msg) && contains_seq(
            msg,
            EVS_AI_APP_VALIDATE_OK@,
        ) && !is_validation_failure(msg),
{
}

/// An EVS event reporting a failed validation never completes the upload.
pub proof fn lemma_validation_failure_never_completes(s: UploadState, t: TlmEvent)
    requires
        s.stage != UploadStage::Done,
        evs_message(t) matches Some(msg) && is_validation_failure(msg),
    ensures
        spec_step(s, EventView::Telemetry(t)).0.stage != UploadStage::Done,
{
}

/// The driver is told to stop exactly when the upload has ended.
pub proof fn lemma_finish_iff_ended(s: UploadState, ev: EventView)
    requires
        s.wf(),
    ensures
        (spec_step(s, ev).1.action == UploadAction::Finish) <==> (spec_step(s, ev).0.stage
            == UploadStage::Done || spec_step(s, ev).0.stage == UploadStage::Failed),
{
}

/// Every sleep other than the 5 s pause after the file gate is a retry: it waits the backoff of
/// the failed attempt and moves to the next attempt, and no stage is tried more than
/// `retries + 1` times.
pub proof fn lemma_retry_backs_off(s: UploadState, ev: EventView)
    requires
        s.wf(),
        spec_step(s, ev).1.action matches UploadAction::Sleep(ms) && ms != 5000,
    ensures
        spec_step(s, ev).0.attempt == s.attempt + 1,
        spec_step(s, ev).1.action == UploadAction::Sleep(spec_backoff_ms(s.attempt)),
        spec_step(s, ev).0.attempt <= s.retries,
{
}

/// The state after feeding `evs` in order, starting from `s`.
pub open spec fn run(s: UploadState, evs: Seq<EventView>) -> UploadState
    decreases evs.len(),
{
    if evs.len() == 0 {
        s
    } else {
        spec_step(run(s, evs.drop_last()), evs.last()).0
    }
}

/// An EVS event reporting the file retained as `dst` (and no validation failure).
pub open spec fn is_retained_event(ev: EventView, dst: Seq<char>) -> bool {
    ev matches EventView::Telemetry(t) && evs_message(t) matches Some(msg) && !is_validation_failure(
        msg,
    ) && contains_seq(msg, retained_needle(dst))
}

/// An EVS event reporting a successful CFE_TBL load (and no validation failure).
pub open spec fn is_load_success_event(ev: EventView) -> bool {
    ev matches EventView::Telemetry(t) && evs_message(t) matches Some(msg) && !is_validation_failure(
        msg,
    ) && (contains_seq(msg, EVS_CFE_TBL_LOAD_INTO_WORKING_BUF@) || contains_seq(
        msg,
        EVS_CFE_TBL_LOADED_FROM_FILE@,
    ))
}

/// An EVS event reporting AI_APP's validation success (and no validation failure).
pub open spec fn is_validation_success_event(ev: EventView) -> bool {
    ev matches EventView::Telemetry(t) && evs_message(t) matches Some(msg) && !is_validation_failure(
        msg,
    ) && contains_seq(msg, EVS_AI_APP_VALIDATE_OK@)
}

/// The upload has passed the retained-file gate (and has not failed).
pub open spec fn past_file_gate(stage: UploadStage) -> bool {
    match stage {
        UploadStage::AwaitEot | UploadStage::Settle | UploadStage::SendTblLoad
        | UploadStage::AwaitLoadEvs | UploadStage::SendTblActivate
        | UploadStage::AwaitActivateEvs | UploadStage::Done => true,
        _ => false,
    }
}

/// The upload has passed a table load gate (and has not failed).
pub open spec fn past_load(stage: UploadStage) -> bool {
    match stage {
        UploadStage::SendTblActivate | UploadStage::AwaitActivateEvs | UploadStage::Done => true,
        _ => false,
    }
}

/// Some event of `evs` satisfies `p`.
pub open spec fn some_event(evs: Seq<EventView>, p: spec_fn(EventView) -> bool) -> bool {
    exists|i: int| 0 <= i < evs.len() && #[trigger] p(evs[i])
}

/// One step enters the later stages only through their gates.
proof fn lemma_step_gates(s: UploadState, ev: EventView)
    ensures
        spec_step(s, ev).0.dst_filename == s.dst_filename,
        past_file_gate(spec_step(s, ev).0.stage) ==> past_file_gate(s.stage) || (s.stage
            == UploadStage::AwaitRetained && is_retained_event(ev, s.dst_filename)),
        past_load(spec_step(s, ev).0.stage) ==> past_load(s.stage) || (s.stage
            == UploadStage::AwaitLoadEvs && is_load_success_event(ev)),
        spec_step(s, ev).0.stage == UploadStage::Done ==> s.stage == UploadStage::Done || (s.stage
            == UploadStage::AwaitActivateEvs && is_validation_success_event(ev)),
{
}

/// Whole-run ordering: whatever events arrive, an upload started fresh reaches the table
/// commands only after the CF event reporting its file retained, activates only after a
/// successful table load was reported, and completes only after AI_APP reported a successful
/// validation.
pub proof fn lemma_run_ordering(retries: u32, dst: Seq<char>, target: Seq<char>, evs: Seq<EventView>)
    ensures
        run(initial_state(retries, dst, target), evs).dst_filename == dst,
        past_file_gate(run(initial_state(retries, dst, target), evs).stage) ==> some_event(
            evs,
            |ev: EventView| is_retained_event(ev, dst),
        ),
        past_load(run(initial_state(retries, dst, target), evs).stage) ==> some_event(
            evs,
            |ev: EventView| is_load_success_event(ev),
        ),
        run(initial_state(retries, dst, target), evs).stage == UploadStage::Done ==> some_event(
            evs,
            |ev: EventView| is_validation_success_event(ev),
        ),
    decreases evs.len(),
{
    let s0 = initial_state(retries, dst, target);
    if evs.len() > 0 {
        let pre = evs.drop_last();
        lemma_run_ordering(retries, dst, target, pre);
        let s = run(s0, pre);
        let ev = evs.last();
        lemma_step_gates(s, ev);
        let pr = |e: EventView| is_retained_event(e, dst);
        let pl = |e: EventView| is_load_success_event(e);
        let pv = |e: EventView| is_validation_success_event(e);
        assert forall|i: int| 0 <= i < pre.len() implies evs[i] == pre[i] by {}
        if past_file_gate(run(s0, evs).stage) {
            if past_file_gate(s.stage) {
                let i = choose|i: int| 0 <= i < pre.len() && #[trigger] pr(pre[i]);
                assert(pr(evs[i]));
            } else {
                assert(pr(evs[evs.len() - 1]));
            }
        }
        if past_load(run(s0, evs).stage) {
            if past_load(s.stage) {
                let i = choose|i: int| 0 <= i < pre.len() && #[trigger] pl(pre[i]);
                assert(pl(evs[i]));
            } else {
                assert(pl(evs[evs.len() - 1]));
            }
        }
        if run(s0, evs).stage == UploadStage::Done {
            if s.stage == UploadStage::Done {
                let i = choose|i: int| 0 <= i < pre.len() && #[trigger] pv(pre[i]);
                assert(pv(evs[i]));
            } else {
                assert(pv(evs[evs.len() - 1]));
            }
        }
    }
}

} // verus!
