use rustdesk_bridge::cursor::{take_headless_cursor, CursorData, HeadlessCursorState};
use rustdesk_bridge::file_transfer::{
    ft_take_dir_listing, ft_take_job_event, ft_take_override_confirm, HeadlessFt,
};
use rustdesk_bridge::handler::{FlutterHandler, SessionHandler};
use rustdesk_bridge::message::{
    ConnType, CursorPosition, Delivery, DisplayInfo, EventToUI, Features, FileEntry, PeerInfo,
    Platform, Resolution, SwitchDisplay, TerminalOpened, TerminalResponse, WindowsSession,
};
use rustdesk_bridge::quality::{take_headless_quality_status, HeadlessQualityStatus, QualityStatus};
use rustdesk_bridge::ui_events::{is_output_packed, JobReal, PRIVACY_MODE_VERSION};

fn listening() -> FlutterHandler {
    let mut session = SessionHandler::new();
    session.event_stream = Some(7);
    let mut handler = FlutterHandler::new(false);
    handler.session_handlers.insert(1, session);
    handler
}

fn text(out: Vec<Delivery>) -> String {
    assert_eq!(out.len(), 1);
    assert_eq!(out[0].stream, 7);
    match &out[0].event {
        EventToUI::Event(text) => text.clone(),
        _ => panic!("not a text"),
    }
}

#[test]
fn plain_events() {
    let h = listening();
    assert_eq!(
        text(h.set_cursor_position(CursorPosition { x: -3, y: 4 })),
        "{\"x\":\"-3\",\"y\":\"4\",\"name\":\"cursor_position\"}"
    );
    assert_eq!(text(h.update_privacy_mode()), "{\"name\":\"update_privacy_mode\"}");
    assert_eq!(
        text(h.set_permission("audio", true)),
        "{\"audio\":\"true\",\"name\":\"permission\"}"
    );
    assert_eq!(
        text(h.set_connection_type(true, false, "TCP")),
        "{\"secure\":\"true\",\"direct\":\"false\",\"stream_type\":\"TCP\",\"name\":\"connection_ready\"}"
    );
    assert_eq!(
        text(h.set_fingerprint("ab".to_owned())),
        "{\"fingerprint\":\"ab\",\"name\":\"fingerprint\"}"
    );
    assert_eq!(
        text(h.load_last_job(1, "{}", true)),
        "{\"value\":\"{}\",\"name\":\"load_last_job\"}"
    );
    assert_eq!(
        text(h.update_empty_dirs("[]")),
        "{\"is_local\":\"false\",\"value\":\"[]\",\"name\":\"empty_dirs\"}"
    );
    assert_eq!(
        text(h.set_platform_additions("{}")),
        "{\"platform_additions\":\"{}\",\"name\":\"sync_platform_additions\"}"
    );
    assert_eq!(text(h.cancel_msgbox("t")), "{\"tag\":\"t\",\"name\":\"cancel_msgbox\"}");
    assert_eq!(
        text(h.new_message("hi".to_owned())),
        "{\"text\":\"hi\",\"name\":\"chat_client_mode\"}"
    );
    assert_eq!(
        text(h.clipboard("c".to_owned())),
        "{\"content\":\"c\",\"name\":\"clipboard\"}"
    );
    assert_eq!(text(h.switch_back("9")), "{\"peer_id\":\"9\",\"name\":\"switch_back\"}");
    assert_eq!(
        text(h.portable_service_running(false)),
        "{\"running\":\"false\",\"name\":\"portable_service_running\"}"
    );
    assert_eq!(text(h.on_voice_call_started()), "{\"name\":\"on_voice_call_started\"}");
    assert_eq!(
        text(h.on_voice_call_closed("busy")),
        "{\"reason\":\"busy\",\"name\":\"on_voice_call_closed\"}"
    );
    assert_eq!(text(h.on_voice_call_waiting()), "{\"name\":\"on_voice_call_waiting\"}");
    assert_eq!(text(h.on_voice_call_incoming()), "{\"name\":\"on_voice_call_incoming\"}");
    assert_eq!(
        text(h.update_record_status(true)),
        "{\"start\":\"true\",\"name\":\"record_status\"}"
    );
    assert_eq!(
        text(h.printer_request(5, "/p".to_owned())),
        "{\"id\":5,\"path\":\"/p\",\"name\":\"printer_request\"}"
    );
    assert_eq!(
        text(h.update_block_input_state(true)),
        "{\"input_state\":\"on\",\"name\":\"update_block_input_state\"}"
    );
    assert_eq!(
        text(h.update_block_input_state(false)),
        "{\"input_state\":\"off\",\"name\":\"update_block_input_state\"}"
    );
    assert_eq!(
        text(h.msgbox("error", "T", "x", "", true)),
        "{\"type\":\"error\",\"title\":\"T\",\"text\":\"x\",\"link\":\"\",\"hasRetry\":\"true\",\"name\":\"msgbox\"}"
    );
    assert_eq!(
        text(h.msgbox("error", "T", "x", "", false)),
        "{\"type\":\"error\",\"title\":\"T\",\"text\":\"x\",\"link\":\"\",\"hasRetry\":\"\",\"name\":\"msgbox\"}"
    );
}

#[test]
fn silent_events() {
    let h = listening();
    assert!(h.set_display(0, 0, 1, 1, false).is_empty());
    assert!(h.close_success().is_empty());
    assert!(h.clear_all_jobs().is_empty());
    assert!(h.update_transfer_list().is_empty());
    assert!(h.confirm_delete_files(1, 2, "x".to_owned()).is_empty());
    assert!(h.adapt_size().is_empty());
    assert!(h.on_connected(ConnType::DEFAULT_CONN).is_empty());
}

#[test]
fn current_display_is_followed_by_a_single_session() {
    let mut h = listening();
    assert_eq!(
        text(h.set_current_display(2)),
        "{\"display_idx\":\"2\",\"name\":\"follow_current_display\"}"
    );
    h.session_handlers.insert(2, SessionHandler::new());
    assert!(h.set_current_display(2).is_empty());
}

#[test]
fn lists_become_texts() {
    let h = listening();
    let sessions = vec![WindowsSession { sid: 4294967295, name: "me".to_owned() }];
    assert_eq!(
        text(h.set_multiple_windows_session(sessions)),
        "{\"windows_sessions\":\"[{\\\"sid\\\":\\\"4294967295\\\",\\\"name\\\":\\\"me\\\"}]\",\"name\":\"set_multiple_windows_session\"}"
    );
    let display = SwitchDisplay {
        display: 1,
        x: -1,
        y: 2,
        width: 3,
        height: 4,
        cursor_embedded: true,
        resolutions: vec![Resolution { width: 5, height: 6 }],
        original_resolution: Resolution { width: 7, height: 8 },
    };
    assert_eq!(
        text(h.switch_display(&display)),
        "{\"display\":\"1\",\"x\":\"-1\",\"y\":\"2\",\"width\":\"3\",\"height\":\"4\",\"cursor_embedded\":\"1\",\"resolutions\":\"[{\\\"width\\\":5,\\\"height\\\":6}]\",\"original_width\":\"7\",\"original_height\":\"8\",\"name\":\"switch_display\"}"
    );
}

fn display() -> DisplayInfo {
    DisplayInfo {
        x: 0,
        y: 1,
        width: 2,
        height: 3,
        cursor_embedded: false,
        original_resolution: None,
        scaled_width: None,
    }
}

#[test]
fn displays_become_a_text() {
    assert_eq!(FlutterHandler::make_displays_msg(&vec![]), "[]");
    let scaled = DisplayInfo {
        cursor_embedded: true,
        original_resolution: Some(Resolution { width: 10, height: 20 }),
        scaled_width: Some(1),
        ..display()
    };
    assert_eq!(
        FlutterHandler::make_displays_msg(&vec![display(), scaled]),
        "[{\"x\":0,\"y\":1,\"width\":2,\"height\":3,\"cursor_embedded\":0},{\"x\":0,\"y\":1,\"width\":2,\"height\":3,\"cursor_embedded\":1,\"original_width\":10,\"original_height\":20,\"scaled_width\":1}]"
    );
    let mut h = listening();
    assert_eq!(
        text(h.set_displays(&vec![])),
        "{\"displays\":\"[]\",\"name\":\"sync_peer_info\"}"
    );
    h.set_displays(&vec![display()]);
    assert_eq!(h.peer_info.displays.len(), 1);
}

fn peer() -> PeerInfo {
    let mut pi = PeerInfo::new();
    pi.username = "u".to_owned();
    pi.version = "1.1.9".to_owned();
    pi.features = Some(Features { privacy_mode: true });
    pi
}

#[test]
fn peer_introduces_itself() {
    let mut h = listening();
    let out = h.set_peer_info(Platform::Linux, &peer(), 1002000, 1002000, true);
    assert_eq!(
        text(out),
        "{\"username\":\"u\",\"hostname\":\"\",\"platform\":\"\",\"sas_enabled\":\"false\",\"displays\":\"[]\",\"version\":\"1.1.9\",\"features\":\"{\\\"privacy_mode\\\":true}\",\"current_display\":\"0\",\"resolutions\":\"[]\",\"platform_additions\":\"\",\"name\":\"peer_info\"}"
    );
    assert_eq!(h.peer_info.username, "u");
    assert!(h.session_handlers.get(&1).unwrap().renderer.is_support_multi_ui_session);
    let old = text(h.set_peer_info(Platform::Android, &peer(), 1001009, 1002000, true));
    assert!(old.contains("\"features\":\"{\\\"privacy_mode\\\":false}\""));
    assert!(!h.session_handlers.get(&1).unwrap().renderer.is_support_multi_ui_session);
    assert_eq!(PRIVACY_MODE_VERSION, "1.2.0");
    let mut plain = peer();
    plain.features = None;
    let none = text(h.set_peer_info(Platform::Linux, &plain, 2, 1, false));
    assert!(none.contains("\"features\":\"{}\""));
}

#[test]
fn cursor_shapes_are_told_and_kept() {
    let h = listening();
    let mut cursor = HeadlessCursorState::new();
    let cd = CursorData { id: 12, hotx: 1, hoty: 2, width: 1, height: 1, colors: vec![9, 9] };
    assert_eq!(
        text(h.set_cursor_data(&mut cursor, cd, vec![0, 0, 0, 0])),
        "{\"id\":\"12\",\"hotx\":\"1\",\"hoty\":\"2\",\"width\":\"1\",\"height\":\"1\",\"colors\":\"[0,0,0,1]\",\"name\":\"cursor_data\"}"
    );
    assert_eq!(take_headless_cursor(&mut cursor).unwrap()[16..], [0, 0, 0, 1]);
    let other = CursorData { id: 13, hotx: 0, hoty: 0, width: 1, height: 1, colors: vec![] };
    h.set_cursor_data(&mut cursor, other, vec![5; 4]);
    assert_eq!(
        text(h.set_cursor_id(&mut cursor, "12".to_owned())),
        "{\"id\":\"12\",\"name\":\"cursor_id\"}"
    );
    assert_eq!(take_headless_cursor(&mut cursor).unwrap()[16..], [0, 0, 0, 1]);
    assert_eq!(
        text(h.set_cursor_id(&mut cursor, "x".to_owned())),
        "{\"id\":\"x\",\"name\":\"cursor_id\"}"
    );
    assert_eq!(take_headless_cursor(&mut cursor), None);
}

#[test]
fn statistics_are_told_and_kept() {
    let h = listening();
    let mut known = HeadlessQualityStatus::new();
    let status = QualityStatus {
        speed: None,
        fps: vec![(0, 30), (2, 15)],
        delay: Some(-1),
        target_bitrate: None,
        codec_format: Some("VP9".to_owned()),
        chroma: None,
    };
    assert_eq!(
        text(h.update_quality_status(&mut known, status)),
        "{\"speed\":\"\",\"fps\":\"{\\\"0\\\":30,\\\"2\\\":15}\",\"delay\":\"-1\",\"target_bitrate\":\"\",\"codec_format\":\"VP9\",\"chroma\":\"\",\"name\":\"update_quality_status\"}"
    );
    assert_eq!(
        take_headless_quality_status(&known),
        "{\"fps\":30,\"delay\":-1,\"codec_format\":\"VP9\"}"
    );
}

#[test]
fn jobs_are_told_and_queued() {
    let h = listening();
    let mut ft = HeadlessFt::new();
    assert_eq!(
        text(h.job_error(&mut ft, 1, "e".to_owned(), 2)),
        "{\"id\":\"1\",\"err\":\"e\",\"file_num\":\"2\",\"name\":\"job_error\"}"
    );
    assert_eq!(
        ft_take_job_event(&mut ft, &1).unwrap(),
        "{\"type\":\"error\",\"id\":1,\"file_num\":2,\"err\":\"e\"}"
    );
    assert_eq!(
        text(h.job_done(&mut ft, 1, 2)),
        "{\"id\":\"1\",\"file_num\":\"2\",\"name\":\"job_done\"}"
    );
    assert_eq!(
        ft_take_job_event(&mut ft, &1).unwrap(),
        "{\"type\":\"done\",\"id\":1,\"file_num\":2}"
    );
    let real = |x: f64| JobReal { text: x.to_string(), value: serde_json::Value::from(x) };
    assert_eq!(
        text(h.job_progress(&mut ft, 1, 2, real(1.5), real(3.0))),
        "{\"id\":\"1\",\"file_num\":\"2\",\"speed\":\"1.5\",\"finished_size\":\"3\",\"name\":\"job_progress\"}"
    );
    assert_eq!(
        ft_take_job_event(&mut ft, &1).unwrap(),
        "{\"type\":\"progress\",\"id\":1,\"file_num\":2,\"speed\":1.5,\"finished_size\":3.0}"
    );
    let nobody = FlutterHandler::new(false);
    assert!(nobody.job_done(&mut ft, 1, 2).is_empty());
    assert_eq!(ft_take_job_event(&mut ft, &1), None);
}

#[test]
fn listings_are_told_and_queued() {
    let h = listening();
    let mut ft = HeadlessFt::new();
    let entries = vec![FileEntry {
        entry_type: 4,
        name: "f".to_owned(),
        is_hidden: true,
        size: 6,
        modified_time: 7,
    }];
    let total = || serde_json::Value::from(6.0);
    assert_eq!(
        text(h.update_folder_files(&mut ft, 3, &entries, "/".to_owned(), true, true, total(), "")),
        "{\"info\":\"{\\\"id\\\":3,\\\"num_entries\\\":1,\\\"total_size\\\":6.0}\",\"name\":\"update_folder_files\"}"
    );
    assert_eq!(
        ft_take_dir_listing(&mut ft, &1).unwrap(),
        "{\"id\":3,\"path\":\"/\",\"is_local\":true,\"only_count\":true,\"entries\":[{\"entry_type\":4,\"name\":\"f\",\"is_hidden\":true,\"size\":6,\"modified_time\":7}]}"
    );
    assert_eq!(
        text(h.update_folder_files(
            &mut ft,
            3,
            &entries,
            "/".to_owned(),
            false,
            false,
            total(),
            "whole"
        )),
        "{\"is_local\":\"false\",\"value\":\"whole\",\"name\":\"file_dir\"}"
    );
    assert!(ft_take_dir_listing(&mut ft, &1).unwrap().contains("\"only_count\":false"));
}

#[test]
fn question_is_told_and_kept() {
    let h = listening();
    let mut ft = HeadlessFt::new();
    assert_eq!(
        text(h.override_file_confirm(&mut ft, 1, 2, "/t".to_owned(), true, false)),
        "{\"id\":\"1\",\"file_num\":\"2\",\"read_path\":\"/t\",\"is_upload\":\"true\",\"is_identical\":\"false\",\"name\":\"override_file_confirm\"}"
    );
    assert_eq!(
        ft_take_override_confirm(&mut ft, &1).unwrap(),
        "{\"id\":1,\"file_num\":2,\"to\":\"/t\",\"is_upload\":true,\"is_identical\":false}"
    );
}

#[test]
fn screenshot_goes_to_the_session_that_asked() {
    let h = listening();
    let asked = "00000000-0000-0000-0000-000000000001";
    assert_eq!(
        text(h.handle_screenshot_resp(asked.to_owned(), "m".to_owned())),
        "{\"msg\":\"m\",\"name\":\"screenshot\"}"
    );
    let other = "00000000-0000-0000-0000-000000000002";
    assert!(h.handle_screenshot_resp(other.to_owned(), "m".to_owned()).is_empty());
    assert!(h.handle_screenshot_resp("?".to_owned(), "m".to_owned()).is_empty());
}

#[test]
fn terminal_answers() {
    let h = listening();
    let opened = |persistent_sessions| {
        TerminalResponse::Opened(TerminalOpened {
            terminal_id: 1,
            success: true,
            message: "ok".to_owned(),
            pid: 4000000000,
            service_id: "s".to_owned(),
            replay_terminal_output: false,
            persistent_sessions,
        })
    };
    assert_eq!(
        text(h.handle_terminal_response(opened(vec![]), "")),
        "{\"type\":\"opened\",\"terminal_id\":1,\"success\":true,\"message\":\"ok\",\"pid\":4000000000,\"service_id\":\"s\",\"replay_terminal_output\":false,\"name\":\"terminal_response\"}"
    );
    assert!(text(h.handle_terminal_response(opened(vec![3, -4]), ""))
        .contains("\"persistent_sessions\":[3,-4]"));
    let data = TerminalResponse::Data(2, vec![104, 105], true);
    assert!(is_output_packed(&data));
    assert!(!is_output_packed(&TerminalResponse::Data(2, vec![], false)));
    assert!(!is_output_packed(&TerminalResponse::Missing));
    assert_eq!(
        text(h.handle_terminal_response(data, "aGk=")),
        "{\"type\":\"data\",\"terminal_id\":2,\"data\":\"aGk=\",\"name\":\"terminal_response\"}"
    );
    assert_eq!(
        text(h.handle_terminal_response(TerminalResponse::Closed(3, -9), "")),
        "{\"type\":\"closed\",\"terminal_id\":3,\"exit_code\":-9,\"name\":\"terminal_response\"}"
    );
    assert_eq!(
        text(h.handle_terminal_response(TerminalResponse::Error(4, "bad".to_owned()), "")),
        "{\"type\":\"error\",\"terminal_id\":4,\"message\":\"bad\",\"name\":\"terminal_response\"}"
    );
    assert!(h.handle_terminal_response(TerminalResponse::Missing, "").is_empty());
    assert!(h.handle_terminal_response(TerminalResponse::Unknown, "").is_empty());
}
