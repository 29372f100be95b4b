//! Master brain upload decision tests: the happy path and each failure path.

use rust_bridge::brain_upload::{
    backoff_ms, BrainUpload, BrainUploadConfig, UploadAction, UploadEvent, UploadStage, UploadStep,
    WaitWindow, E2E_COMPLETE, E2E_LOAD_EVS_OK, E2E_VALIDATE_OK,
};
use rust_bridge::tlm::cf_eot::CfEotV1;
use rust_bridge::tlm::es_hk::{CFE_TLM_HEADER_PREFIX_BYTES, ES_HK_PAYLOAD_BYTES};
use rust_bridge::tlm::evs_long_event::{EvsLongEventV1, EvsPacketIdV1};
use rust_bridge::tlm::{classify_datagram, CcsdsPrimarySummary, TlmEvent};

fn summary() -> CcsdsPrimarySummary {
    CcsdsPrimarySummary { apid: 0, packet_type: 0, sequence_count: 0 }
}

fn evs(msg: &str) -> UploadEvent {
    UploadEvent::Telemetry(TlmEvent::EvsLongEventV1 {
        received_at: "t".into(),
        raw_len: 0,
        primary: summary(),
        evs_long_event: EvsLongEventV1 {
            packet_id: EvsPacketIdV1 {
                app_name: "CF".into(),
                event_id: 1,
                event_type: 2,
                spacecraft_id: 0,
                processor_id: 0,
            },
            message: msg.into(),
        },
    })
}

fn eot(dst: &str) -> UploadEvent {
    UploadEvent::Telemetry(TlmEvent::CfEotV1 {
        received_at: "t".into(),
        raw_len: 0,
        primary: summary(),
        cf_eot: CfEotV1 {
            seq_num: 1,
            channel: 0,
            direction: 0,
            state: 0,
            txn_stat: 0,
            src_eid: 23,
            peer_eid: 25,
            fsize: 0,
            crc_result: 0,
            src_filename: "ai_app_weights.tbl".into(),
            dst_filename: dst.into(),
        },
    })
}

fn es_hk() -> UploadEvent {
    let total = CFE_TLM_HEADER_PREFIX_BYTES + ES_HK_PAYLOAD_BYTES;
    let mut d = vec![0u8; total];
    d[0..2].copy_from_slice(&0x0800u16.to_be_bytes());
    d[2..4].copy_from_slice(&0xc000u16.to_be_bytes());
    d[4..6].copy_from_slice(&((total - 7) as u16).to_be_bytes());
    UploadEvent::Telemetry(classify_datagram(&d, "t".into()))
}

fn lines(st: &UploadStep) -> Vec<(String, String)> {
    st.progress.iter().map(|p| (p.step.to_string(), p.detail.clone())).collect()
}

fn started() -> BrainUpload {
    let (m, st) = BrainUpload::start(&BrainUploadConfig::default());
    assert_eq!(
        lines(&st),
        vec![
            ("start".to_string(), "master brain upload starting".to_string()),
            ("cmd_send".to_string(), "sending CMD_TO_LAB_ENABLE_OUTPUT".to_string()),
        ]
    );
    assert_eq!(st.action, UploadAction::SendCommand { name: "CMD_TO_LAB_ENABLE_OUTPUT", report: false });
    m
}

/// Drives a fresh upload up to the retained-file gate.
fn at_file_gate() -> BrainUpload {
    let mut m = started();
    assert_eq!(m.step(UploadEvent::Sent).action, UploadAction::Wait(WaitWindow::EsHk));
    let st = m.step(es_hk());
    assert_eq!(st.action, UploadAction::BuildImage);
    let st = m.step(UploadEvent::ImageReady);
    assert_eq!(st.action, UploadAction::SendCfdp);
    assert_eq!(st.progress[0].detail, "sending CFDP PDUs to 127.0.0.1:5235 (attempt 1/4)");
    let st = m.step(UploadEvent::Sent);
    assert_eq!(st.action, UploadAction::Wait(WaitWindow::FileGate));
    m
}

#[test]
fn default_config_values() {
    let c = BrainUploadConfig::default();
    assert_eq!(c.cfdp_udp_target, "127.0.0.1:5235");
    assert_eq!(c.ci_lab_udp_target, "127.0.0.1:1234");
    assert_eq!(c.dst_filename, "/cf/ai_app_weights.tbl");
    assert_eq!(c.tbl_name, "AI_APP.WEIGHTS");
    assert_eq!(c.retries, 3);
    assert_eq!(c.timeout_file_gate, 120_000);
    assert_eq!(c.timeout_cmd_ack, 120_000);
    assert_eq!(c.pre_cfdp_delay, 2_000);
    assert_eq!(c.inter_pdu_delay, 100);
}

#[test]
fn backoff_doubles_from_250ms_up_to_4s() {
    assert_eq!(backoff_ms(0), 250);
    assert_eq!(backoff_ms(1), 500);
    assert_eq!(backoff_ms(2), 1000);
    assert_eq!(backoff_ms(3), 2000);
    assert_eq!(backoff_ms(4), 4000);
    assert_eq!(backoff_ms(u32::MAX), 4000);
}

#[test]
fn happy_path_completes_after_activate_validation() {
    let mut m = at_file_gate();
    assert_eq!(m.step(evs("unrelated event")).action, UploadAction::KeepWaiting);
    let st = m.step(evs("CF: successfully retained file as /cf/ai_app_weights.tbl"));
    assert_eq!(st.action, UploadAction::Wait(WaitWindow::EotAfterRetained));
    assert_eq!(st.progress[0].detail, "CF retained-file event observed for /cf/ai_app_weights.tbl");
    assert_eq!(m.step(eot("/cf/other.tbl")).action, UploadAction::KeepWaiting);
    let st = m.step(eot("/cf/ai_app_weights.tbl"));
    assert_eq!(st.action, UploadAction::Sleep(5000));
    assert_eq!(st.progress[1].detail, "CF retained-file gate satisfied");
    let st = m.step(UploadEvent::Slept);
    assert_eq!(st.action, UploadAction::SendCommand { name: "CMD_CFE_TBL_LOAD_FILE", report: true });
    assert_eq!(m.step(UploadEvent::Sent).action, UploadAction::Wait(WaitWindow::CmdAck));
    let st = m.step(evs("Successfully loaded 'AI_APP.WEIGHTS' from '/cf/ai_app_weights.tbl'"));
    assert_eq!(st.action, UploadAction::SendCommand { name: "CMD_CFE_TBL_ACTIVATE", report: true });
    assert_eq!(st.markers, vec![E2E_LOAD_EVS_OK]);
    assert_eq!(
        st.progress[0].detail,
        "matched EVS (CFE_TBL load into working buffer): Successfully loaded 'AI_APP.WEIGHTS'"
    );
    assert_eq!(m.step(UploadEvent::Sent).action, UploadAction::Wait(WaitWindow::CmdAck));
    let st = m.step(evs("AI_APP weights table validation success (crc ok)"));
    assert_eq!(st.action, UploadAction::Finish);
    assert_eq!(st.markers, vec![E2E_VALIDATE_OK, E2E_COMPLETE]);
    assert_eq!(st.progress[1].detail, "master brain upload completed");
    assert_eq!(m.stage(), UploadStage::Done);
    assert_eq!(m.outcome(), Some(Ok(())));
    // Once done, nothing changes.
    assert_eq!(m.step(UploadEvent::Sent).action, UploadAction::Finish);
    assert_eq!(m.stage(), UploadStage::Done);
}

#[test]
fn eot_timeout_proceeds_after_retained_gate() {
    let mut m = at_file_gate();
    m.step(evs("successfully retained file as /cf/ai_app_weights.tbl"));
    let st = m.step(UploadEvent::TimedOut);
    assert_eq!(st.action, UploadAction::Sleep(5000));
    assert_eq!(
        st.progress[0].detail,
        "CF EOT telemetry not observed within 10s; proceeding after retained-file gate"
    );
    assert_eq!(m.stage(), UploadStage::Settle);
}

#[test]
fn validation_failure_at_file_gate_fails_the_upload() {
    let mut m = at_file_gate();
    let st = m.step(evs("AI_APP weights table validation failed: crc"));
    assert_eq!(st.action, UploadAction::Finish);
    assert_eq!(
        m.outcome(),
        Some(Err("AI_APP validation failure observed: AI_APP weights table validation failed: crc".to_string()))
    );
}

#[test]
fn file_gate_timeout_fails_with_destination() {
    let mut m = at_file_gate();
    m.step(UploadEvent::TimedOut);
    assert_eq!(
        m.outcome(),
        Some(Err("timeout waiting for CF retained-file event for /cf/ai_app_weights.tbl".to_string()))
    );
    assert_eq!(m.stage(), UploadStage::Failed);
}

#[test]
fn enable_downlink_retries_then_gives_up() {
    let mut m = started();
    for attempt in 0..3u32 {
        let st = m.step(UploadEvent::SendFailed("boom".into()));
        assert_eq!(st.action, UploadAction::Sleep(backoff_ms(attempt)));
        assert_eq!(st.progress[0].detail, format!("to_lab enable send failed (attempt {attempt}): boom"));
        let st = m.step(UploadEvent::Slept);
        assert_eq!(st.action, UploadAction::SendCommand { name: "CMD_TO_LAB_ENABLE_OUTPUT", report: false });
        assert_eq!(m.attempt(), attempt + 1);
    }
    let st = m.step(UploadEvent::SendFailed("boom".into()));
    assert_eq!(st.action, UploadAction::Finish);
    assert_eq!(m.outcome(), Some(Err("to_lab enable send failed: boom".to_string())));
}

#[test]
fn es_hk_timeout_retries_and_last_error_is_plain() {
    let mut m = started();
    for _ in 0..3 {
        m.step(UploadEvent::Sent);
        let st = m.step(UploadEvent::TimedOut);
        assert!(matches!(st.action, UploadAction::Sleep(_)));
        m.step(UploadEvent::Slept);
    }
    m.step(UploadEvent::Sent);
    m.step(UploadEvent::ChannelClosed);
    assert_eq!(m.outcome(), Some(Err("telemetry channel closed".to_string())));
}

#[test]
fn cfdp_retry_reports_attempt_numbers() {
    let mut m = started();
    m.step(UploadEvent::Sent);
    m.step(es_hk());
    m.step(UploadEvent::ImageReady);
    let st = m.step(UploadEvent::SendFailed("connect refused".into()));
    assert_eq!(st.progress[0].detail, "CFDP send failed (attempt 0): connect refused");
    let st = m.step(UploadEvent::Slept);
    assert_eq!(st.action, UploadAction::SendCfdp);
    assert_eq!(st.progress[0].detail, "sending CFDP PDUs to 127.0.0.1:5235 (attempt 2/4)");
}

#[test]
fn image_failure_ends_the_upload() {
    let mut m = started();
    m.step(UploadEvent::Sent);
    m.step(es_hk());
    m.step(UploadEvent::ImageFailed("bad len".into()));
    assert_eq!(m.outcome(), Some(Err("bad len".to_string())));
}

#[test]
fn table_gate_failures_retry_from_load() {
    let mut m = at_file_gate();
    m.step(evs("successfully retained file as /cf/ai_app_weights.tbl"));
    m.step(UploadEvent::TimedOut);
    m.step(UploadEvent::Slept);
    m.step(UploadEvent::Sent);
    let st = m.step(evs("AI_APP weights table validation failed"));
    assert_eq!(st.action, UploadAction::Sleep(250));
    assert_eq!(m.stage(), UploadStage::SendTblLoad);
    let st = m.step(UploadEvent::Slept);
    assert_eq!(st.action, UploadAction::SendCommand { name: "CMD_CFE_TBL_LOAD_FILE", report: true });
    m.step(UploadEvent::Sent);
    let st = m.step(UploadEvent::TimedOut);
    assert!(st.progress[0].detail.starts_with("TBL load/activate failed (attempt 1): timeout waiting for EVS (CFE_TBL load into working buffer); expected one of: ["));
    m.step(UploadEvent::Slept);
    m.step(UploadEvent::Sent);
    m.step(evs("Successful load into 'AI_APP.WEIGHTS' working buffer"));
    m.step(UploadEvent::Sent);
    m.step(UploadEvent::TimedOut);
    m.step(UploadEvent::Slept);
    m.step(UploadEvent::SendFailed("io".into()));
    assert_eq!(m.outcome(), Some(Err("TBL load/activate failed: io".to_string())));
}

#[test]
fn fixed_wait_windows_are_ten_seconds() {
    assert_eq!(WaitWindow::EsHk.fixed_secs(), Some(10));
    assert_eq!(WaitWindow::EotAfterRetained.fixed_secs(), Some(10));
    assert_eq!(WaitWindow::FileGate.fixed_secs(), None);
    assert_eq!(WaitWindow::CmdAck.fixed_secs(), None);
}

#[test]
fn upload_transfer_config_values() {
    let t = rust_bridge::brain_upload::upload_transfer_config(&BrainUploadConfig::default());
    assert_eq!(t.source_eid, 23);
    assert_eq!(t.destination_eid, 25);
    assert_eq!(t.transaction_seq, 0x01020304);
    assert_eq!(t.src_filename, "ai_app_weights.tbl");
    assert_eq!(t.dst_filename, "/cf/ai_app_weights.tbl");
    assert_eq!(t.checksum_type, 0);
    assert!(!t.closure_requested);
    assert_eq!(t.max_segment_data, 480);
}
