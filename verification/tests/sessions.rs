use rustdesk_bridge::clipboard::{
    send_clipboard_msg, update_file_clipboard_required, update_text_clipboard_required,
    ClipboardNeeds, ClipboardSend,
};
use rustdesk_bridge::message::{
    ConnType, Delivery, DisplayInfo, EventToUI, Features, Platform, SessionID,
};
use rustdesk_bridge::session::Sessions;
use rustdesk_bridge::session_api::{
    char_to_session_id, get_adapter_luid, get_cur_peer_id, get_cur_session, get_cur_session_id,
    push_session_event, session_add, session_add_existed, session_get_display_count,
    session_get_display_origin, session_get_display_size, session_get_rgba, session_get_rgba_size,
    session_is_id_online, session_is_privacy_mode_supported, session_next_rgba,
    session_on_waiting_for_image_dialog_show, session_register_gpu_texture,
    session_register_pixelbuffer_texture, session_set_size, session_start_,
    session_start_headless, set_cur_session_id, try_sync_peer_option,
};
use rustdesk_bridge::peer_additions::{
    default_privacy_mode_impl, offers_camera, session_default_privacy_mode_impl,
    session_is_view_camera_supported,
};
use rustdesk_bridge::image::ImageRgb;
use rustdesk_bridge::pointer::{read_pointer, session_send_pointer, Touch};
use rustdesk_bridge::session_id::parse_session_id;
use rustdesk_bridge::sessions::{
    check_remove_unused_displays, get_peer_id_by_session_id, get_session_by_peer_id,
    get_session_by_session_id, get_session_count, get_sessions, has_connected_sessions_running,
    has_sessions_running, insert_peer_session_id, remove_session_by_session_id,
    session_switch_display, update_session_count_to_server, would_remove_peer_by_session_id,
    SessionAction,
};

fn add(sessions: &mut Sessions, id: SessionID, peer: &str) -> bool {
    session_add(
        sessions,
        &id,
        peer,
        false,
        false,
        false,
        false,
        false,
        "",
        false,
        "secret".to_owned(),
        false,
        None,
        None,
        false,
    )
    .unwrap()
    .is_none()
}

fn add_kind(sessions: &mut Sessions, id: SessionID, kind: [bool; 5]) -> Result<bool, String> {
    session_add(
        sessions,
        &id,
        "peer",
        kind[0],
        kind[1],
        kind[2],
        kind[3],
        kind[4],
        "uuid",
        true,
        "secret".to_owned(),
        true,
        Some("token".to_owned()),
        Some(3),
        true,
    )
    .map(|unused| unused.is_none())
    .map_err(|e| e.message)
}

fn actions(list: Vec<SessionAction>) -> Vec<String> {
    list.iter()
        .map(|action| match action {
            SessionAction::SwitchDisplay(d) => format!("switch {}", d),
            SessionAction::CaptureDisplays(list) => format!("capture {:?}", list),
            SessionAction::RefreshVideo(d) => format!("refresh {}", d),
        })
        .collect()
}

#[test]
fn session_is_added_and_found() {
    let mut sessions = Sessions::new();
    assert!(add(&mut sessions, 1, "peer"));
    let found = get_session_by_session_id(&sessions, &1).unwrap();
    assert_eq!(found.lc.id, "peer");
    assert_eq!(found.password, "secret");
    assert_eq!(found.lc.shared_password, None);
    assert_eq!(found.lc.switch_uuid, None);
    assert!(found.server_keyboard_enabled && found.server_clipboard_enabled);
    assert!(found.server_file_transfer_enabled);
    assert!(get_session_by_session_id(&sessions, &2).is_none());
    assert!(get_session_by_peer_id(&sessions, "peer".to_owned(), ConnType::DEFAULT_CONN).is_some());
    assert!(get_session_by_peer_id(&sessions, "peer".to_owned(), ConnType::RDP).is_none());
    assert_eq!(get_session_count(&sessions, "peer".to_owned(), ConnType::DEFAULT_CONN), 1);
    assert_eq!(get_session_count(&sessions, "other".to_owned(), ConnType::DEFAULT_CONN), 0);
    assert_eq!(
        get_peer_id_by_session_id(&sessions, &1, ConnType::DEFAULT_CONN),
        Some("peer".to_owned())
    );
    assert_eq!(get_peer_id_by_session_id(&sessions, &1, ConnType::RDP), None);
    assert_eq!(get_sessions(&sessions).len(), 1);
    assert_eq!(update_session_count_to_server(Platform::Linux, &sessions), Some(1));
    assert_eq!(update_session_count_to_server(Platform::Android, &sessions), None);
}

#[test]
fn second_session_shares_the_connection() {
    let mut sessions = Sessions::new();
    assert!(add(&mut sessions, 1, "peer"));
    assert!(!add(&mut sessions, 2, "peer"));
    assert!(add(&mut sessions, 3, "other"));
    assert_eq!(get_session_count(&sessions, "peer".to_owned(), ConnType::DEFAULT_CONN), 2);
    assert_eq!(get_sessions(&sessions).len(), 2);
}

#[test]
fn kinds_of_connections() {
    let mut sessions = Sessions::new();
    let kinds = [
        ([true, true, true, true, true], ConnType::FILE_TRANSFER),
        ([false, true, true, true, true], ConnType::VIEW_CAMERA),
        ([false, false, true, true, true], ConnType::TERMINAL),
        ([false, false, true, true, false], ConnType::RDP),
        ([false, false, true, false, false], ConnType::PORT_FORWARD),
        ([false, false, false, true, false], ConnType::DEFAULT_CONN),
    ];
    for (i, (kind, conn_type)) in kinds.iter().enumerate() {
        assert_eq!(add_kind(&mut sessions, i as u128, *kind), Ok(true));
        let session = get_session_by_session_id(&sessions, &(i as u128)).unwrap();
        assert_eq!(session.lc.conn_type, *conn_type);
        assert_eq!(session.password, "");
        assert_eq!(session.lc.shared_password, Some("secret".to_owned()));
        assert_eq!(session.lc.switch_uuid, Some("uuid".to_owned()));
        assert_eq!(session.lc.conn_token, Some("token".to_owned()));
        assert_eq!(session.lc.adapter_luid, Some(3));
        assert!(session.lc.force_relay);
        assert!(session.ui_handler.use_texture_render);
        assert!(has_sessions_running(&sessions, *conn_type));
        assert!(!has_connected_sessions_running(&sessions, *conn_type));
    }
}

#[test]
fn same_session_is_refused() {
    let mut sessions = Sessions::new();
    let files = [true, false, false, false, false];
    let control = [false; 5];
    assert_eq!(add_kind(&mut sessions, 1, files), Ok(true));
    assert_eq!(
        add_kind(&mut sessions, 1, files),
        Err("same session id is found".to_owned())
    );
    assert_eq!(
        add_kind(&mut sessions, 1, control),
        Err("same session id is found with different conn type?".to_owned())
    );
    assert_eq!(get_sessions(&sessions).len(), 1);
}

#[test]
fn connected_sessions_are_seen() {
    let mut sessions = Sessions::new();
    add(&mut sessions, 1, "peer");
    assert!(!has_connected_sessions_running(&sessions, ConnType::DEFAULT_CONN));
    sessions.peers.value_at_mut(0).connected = true;
    assert!(has_connected_sessions_running(&sessions, ConnType::DEFAULT_CONN));
    assert!(!has_connected_sessions_running(&sessions, ConnType::RDP));
    assert!(!has_sessions_running(&sessions, ConnType::RDP));
}

#[test]
fn last_session_takes_the_connection() {
    let mut sessions = Sessions::new();
    add(&mut sessions, 1, "peer");
    add(&mut sessions, 2, "peer");
    assert!(!would_remove_peer_by_session_id(&sessions, &1));
    assert!(!would_remove_peer_by_session_id(&sessions, &9));
    session_set_size(&mut sessions, 2, 4, 10, 10);
    let removal = remove_session_by_session_id(&mut sessions, &1);
    assert!(removal.session.is_none());
    let (peer, displays) = removal.capture.unwrap();
    assert_eq!(peer.peer_id, "peer");
    assert_eq!(peer.conn_type, ConnType::DEFAULT_CONN);
    assert_eq!(displays, vec![4]);
    assert!(would_remove_peer_by_session_id(&sessions, &2));
    let removal = remove_session_by_session_id(&mut sessions, &2);
    assert_eq!(removal.session.unwrap().lc.id, "peer");
    assert!(removal.capture.is_none());
    assert_eq!(get_sessions(&sessions).len(), 0);
    let removal = remove_session_by_session_id(&mut sessions, &2);
    assert!(removal.session.is_none() && removal.capture.is_none());
}

#[test]
fn removal_without_displays_asks_for_nothing() {
    let mut sessions = Sessions::new();
    add(&mut sessions, 1, "peer");
    add(&mut sessions, 2, "peer");
    assert!(remove_session_by_session_id(&mut sessions, &1).capture.is_none());
}

#[test]
fn session_joins_a_connection() {
    let mut sessions = Sessions::new();
    add(&mut sessions, 1, "peer");
    let mut image = ImageRgb { raw: vec![1], w: 1, h: 1, align: 1 };
    sessions.peers.value_at_mut(0).ui_handler.on_rgba_soft_render(3, &mut image);
    assert_eq!(session_get_rgba_size(&sessions, 1, 3), 1);
    let id = "00000000-0000-0000-0000-000000000001";
    assert_eq!(session_get_rgba(&sessions, Some(id), 3), Some(&vec![1]));
    session_add_existed(Platform::Linux, &mut sessions, "peer".to_owned(), 2, vec![3], false, true)
        .unwrap();
    assert_eq!(session_get_rgba(&sessions, Some(id), 3), None);
    let joined = get_session_by_session_id(&sessions, &2).unwrap();
    let handler = joined.ui_handler.session_handlers.get(&2).unwrap();
    assert_eq!(handler.displays, vec![3]);
    assert!(handler.renderer.is_support_multi_ui_session);
    session_add_existed(Platform::Linux, &mut sessions, "peer".to_owned(), 3, vec![3], true, true)
        .unwrap();
    assert!(get_session_by_session_id(&sessions, &3).is_none());
    assert!(insert_peer_session_id(
        Platform::Android,
        &mut sessions,
        "peer".to_owned(),
        ConnType::DEFAULT_CONN,
        4,
        vec![1, 2],
        true
    ));
    let phone = get_session_by_session_id(&sessions, &4).unwrap();
    let handler = phone.ui_handler.session_handlers.get(&4).unwrap();
    assert_eq!(handler.displays, vec![1, 2]);
    assert!(!handler.renderer.is_support_multi_ui_session);
}

#[test]
fn session_is_started() {
    let mut sessions = Sessions::new();
    let missing = session_start_(&mut sessions, &1, "peer", 7).err().unwrap();
    assert_eq!(
        missing.message(),
        "No session with peer id peer, session id: 00000000-0000-0000-0000-000000000001"
    );
    add(&mut sessions, 1, "peer");
    let start = session_start_(&mut sessions, &1, "peer", 7).ok().unwrap();
    assert!(start.connect && start.close.is_none());
    let again = session_start_(&mut sessions, &1, "peer", 8).ok().unwrap();
    assert!(!again.connect);
    let close = Delivery { stream: 7, event: EventToUI::Event("close".to_owned()) };
    assert_eq!(again.close, Some(close));
    let id: SessionID = 1;
    let out = push_session_event(&sessions, &id, "e", vec![("k", "v")]);
    let event = EventToUI::Event("{\"k\":\"v\",\"name\":\"e\"}".to_owned());
    assert_eq!(out, vec![Delivery { stream: 8, event }]);
    assert!(push_session_event(&sessions, &2, "e", vec![]).is_empty());
}

#[test]
fn session_is_started_without_a_stream() {
    let mut sessions = Sessions::new();
    let id: SessionID = 0x0123456789abcdef0123456789abcdef;
    let missing = session_start_headless(&sessions, &id, "p").err().unwrap();
    assert_eq!(
        missing.message(),
        "No session with peer id p, session id: 01234567-89ab-cdef-0123-456789abcdef"
    );
    add(&mut sessions, id, "p");
    assert!(session_start_headless(&sessions, &id, "p").ok().unwrap());
    add(&mut sessions, 2, "p");
    assert!(!session_start_headless(&sessions, &id, "p").ok().unwrap());
    remove_session_by_session_id(&mut sessions, &2);
    session_start_(&mut sessions, &id, "p", 1).ok().unwrap();
    assert!(!session_start_headless(&sessions, &id, "p").ok().unwrap());
}

#[test]
fn displays_are_switched_on_a_phone() {
    let mut sessions = Sessions::new();
    add(&mut sessions, 1, "peer");
    let out = session_switch_display(Platform::Android, &mut sessions, false, 1, vec![2], true);
    assert_eq!(actions(out), vec!["switch 2", "capture [2]"]);
    let handler = get_session_by_session_id(&sessions, &1).unwrap();
    assert_eq!(handler.ui_handler.session_handlers.get(&1).unwrap().displays, vec![2]);
    let out = session_switch_display(Platform::Android, &mut sessions, false, 1, vec![0, 1], true);
    assert_eq!(actions(out), vec!["capture [0, 1]"]);
    let out = session_switch_display(Platform::Android, &mut sessions, false, 9, vec![0], true);
    assert!(out.is_empty());
}

#[test]
fn displays_are_switched_on_a_computer() {
    let mut sessions = Sessions::new();
    add(&mut sessions, 1, "peer");
    add(&mut sessions, 2, "peer");
    session_set_size(&mut sessions, 1, 7, 1, 1);
    session_set_size(&mut sessions, 2, 5, 1, 1);
    session_set_size(&mut sessions, 2, 2, 1, 1);
    let out = session_switch_display(Platform::Linux, &mut sessions, true, 1, vec![2], true);
    assert_eq!(actions(out), vec!["switch 2", "capture [2, 5]", "refresh 2"]);
    let out = session_switch_display(Platform::Linux, &mut sessions, true, 1, vec![0, 1], false);
    assert_eq!(actions(out), vec!["capture [0, 1]"]);
    let out = session_switch_display(Platform::Linux, &mut sessions, true, 1, vec![0, 1], true);
    assert_eq!(actions(out), vec!["capture [0, 1]", "refresh 0", "refresh 1"]);
    let shared = get_session_by_session_id(&sessions, &1).unwrap();
    let handlers = &shared.ui_handler.session_handlers;
    assert_eq!(check_remove_unused_displays(None, &3, handlers), Some(vec![7, 5, 2]));
    assert_eq!(check_remove_unused_displays(None, &2, handlers), Some(vec![7]));
}

#[test]
fn size_of_a_display_is_set() {
    let mut sessions = Sessions::new();
    add(&mut sessions, 1, "peer");
    session_set_size(&mut sessions, 1, 4, 10, 20);
    session_set_size(&mut sessions, 1, 4, 30, 40);
    session_set_size(&mut sessions, 2, 5, 30, 40);
    session_register_pixelbuffer_texture(&mut sessions, 1, 4, 100);
    session_register_gpu_texture(&mut sessions, 1, 4, 200);
    let session = get_session_by_session_id(&sessions, &1).unwrap();
    let handler = session.ui_handler.session_handlers.get(&1).unwrap();
    assert_eq!(handler.displays, vec![4]);
    let info = handler.renderer.map_display_sessions.get(&4).unwrap();
    assert_eq!(info.size, (30, 40));
    assert_eq!((info.texture_rgba_ptr, info.gpu_output_ptr), (100, 200));
}

#[test]
fn waiting_sessions_are_told_anew() {
    let mut sessions = Sessions::new();
    add(&mut sessions, 1, "peer");
    session_register_pixelbuffer_texture(&mut sessions, 1, 0, 100);
    let image = ImageRgb { raw: vec![], w: 1, h: 1, align: 1 };
    let tell = |sessions: &mut Sessions| {
        let handlers = &mut sessions.peers.value_at_mut(0).ui_handler.session_handlers;
        handlers.get_mut(&1).unwrap().renderer.on_rgba(0, &image).notify
    };
    assert!(tell(&mut sessions));
    assert!(!tell(&mut sessions));
    session_on_waiting_for_image_dialog_show(&mut sessions, 2);
    assert!(!tell(&mut sessions));
    session_on_waiting_for_image_dialog_show(&mut sessions, 1);
    assert!(tell(&mut sessions));
}

#[test]
fn displays_of_the_peer_are_known() {
    let mut sessions = Sessions::new();
    add(&mut sessions, 1, "peer");
    assert_eq!(session_get_display_count(&sessions, 1), 0);
    assert_eq!(session_get_display_size(&sessions, 1, 0), (0, 0));
    let display = DisplayInfo {
        x: -5,
        y: 6,
        width: 7,
        height: 8,
        cursor_embedded: false,
        original_resolution: None,
        scaled_width: None,
    };
    sessions.peers.value_at_mut(0).ui_handler.set_displays(&vec![display, display]);
    assert_eq!(session_get_display_count(&sessions, 1), 2);
    assert_eq!(session_get_display_size(&sessions, 1, 1), (7, 8));
    assert_eq!(session_get_display_origin(&sessions, 1, 1), (-5, 6));
    assert_eq!(session_get_display_origin(&sessions, 1, 2), (0, 0));
    assert_eq!(session_get_display_count(&sessions, 2), 0);
    assert!(!session_is_privacy_mode_supported(&sessions, 1));
    sessions.peers.value_at_mut(0).ui_handler.peer_info.features =
        Some(Features { privacy_mode: true });
    assert!(session_is_privacy_mode_supported(&sessions, 1));
    assert!(!session_is_privacy_mode_supported(&sessions, 2));
}

#[test]
fn frames_are_read_by_the_text_of_an_id() {
    let mut sessions = Sessions::new();
    add(&mut sessions, 1, "peer");
    let mut image = ImageRgb { raw: vec![1, 2], w: 1, h: 1, align: 1 };
    sessions.peers.value_at_mut(0).ui_handler.on_rgba_soft_render(0, &mut image);
    let id = "{00000000-0000-0000-0000-000000000001}";
    assert_eq!(session_get_rgba(&sessions, Some(id), 0), Some(&vec![1, 2]));
    assert_eq!(session_get_rgba(&sessions, Some("x"), 0), None);
    assert_eq!(session_get_rgba(&sessions, None, 0), None);
    session_next_rgba(&mut sessions, 1, 0);
    assert_eq!(session_get_rgba(&sessions, Some(id), 0), None);
    assert_eq!(session_get_rgba_size(&sessions, 1, 0), 2);
    assert_eq!(session_get_rgba_size(&sessions, 1, 1), 0);
    assert_eq!(session_get_rgba_size(&sessions, 2, 0), 0);
}

#[test]
fn session_ids_are_read() {
    let id: SessionID = 0x0123456789abcdef0123456789abcdef;
    for text in [
        "0123456789abcdef0123456789abcdef",
        "01234567-89ab-cdef-0123-456789ABCDEF",
        "{01234567-89ab-cdef-0123-456789abcdef}",
        "URN:uuid:01234567-89ab-cdef-0123-456789abcdef",
    ] {
        assert_eq!(parse_session_id(text).ok(), Some(id));
        assert_eq!(char_to_session_id(Some(text)).ok(), Some(id));
    }
    assert_eq!(char_to_session_id(None).err().unwrap().message(), "Session id ptr is null");
    assert_eq!(
        char_to_session_id(Some("")).err().unwrap().message(),
        "Error(ParseLength { len: 0 })"
    );
    for text in [
        "0123456789abcdef0123456789abcdeg",
        "01234567x89ab-cdef-0123-456789abcdef",
        "[01234567-89ab-cdef-0123-456789abcdef]",
        "urn:uuix:01234567-89ab-cdef-0123-456789abcdef",
        "é",
    ] {
        assert!(parse_session_id(text).is_err());
    }
}

#[test]
fn focus_is_kept() {
    let mut sessions = Sessions::new();
    add(&mut sessions, 1, "peer");
    let mut current: SessionID = 0;
    assert_eq!(get_cur_peer_id(&sessions, &current), "");
    assert!(get_cur_session(&sessions, &current).is_none());
    set_cur_session_id(&mut current, 1);
    assert_eq!(get_cur_session_id(&current), 1);
    assert_eq!(get_cur_peer_id(&sessions, &current), "peer");
    assert_eq!(get_cur_session(&sessions, &current).unwrap().lc.id, "peer");
}

#[test]
fn options_are_synced_with_the_other_sessions() {
    let mut sessions = Sessions::new();
    add(&mut sessions, 1, "peer");
    add(&mut sessions, 2, "peer");
    session_start_(&mut sessions, &1, "peer", 10).ok().unwrap();
    session_start_(&mut sessions, &2, "peer", 20).ok().unwrap();
    sessions.peers.value_at_mut(0).lc.view_only = true;
    let session = get_session_by_session_id(&sessions, &1).unwrap();
    let sync = |platform, key: &str| try_sync_peer_option(platform, session, &1, key, None);
    let told = |text: &str| {
        vec![Delivery { stream: 20, event: EventToUI::Event(text.to_owned()) }]
    };
    assert_eq!(
        sync(Platform::Linux, "view-only"),
        told("{\"k\":\"view-only\",\"v\":true,\"name\":\"sync_peer_option\"}")
    );
    assert_eq!(sync(Platform::Android, "view-only"), vec![]);
    assert_eq!(
        sync(Platform::Android, "keyboard_mode"),
        told("{\"k\":\"keyboard_mode\",\"v\":\"\",\"name\":\"sync_peer_option\"}")
    );
    assert_eq!(
        sync(Platform::Linux, "input_source"),
        told("{\"k\":\"input_source\",\"v\":\"\",\"name\":\"sync_peer_option\"}")
    );
    assert_eq!(sync(Platform::Linux, "other"), vec![]);
}

#[test]
fn peers_are_online_or_not() {
    let list = |names: &[&str]| names.iter().map(|n| n.to_string()).collect::<Vec<String>>();
    let ask = |states| session_is_id_online("a".to_owned(), states);
    assert_eq!(ask(None), -1);
    assert_eq!(ask(Some((list(&["b", "a"]), list(&["a"])))), 1);
    assert_eq!(ask(Some((list(&["b"]), list(&["a"])))), 0);
    assert_eq!(ask(Some((list(&["b"]), list(&[])))), -1);
}

#[test]
fn graphics_card_matters_with_textures() {
    assert_eq!(get_adapter_luid(true, Some(4)), Some(4));
    assert_eq!(get_adapter_luid(true, None), None);
    assert_eq!(get_adapter_luid(false, Some(4)), None);
}

#[test]
fn additions_of_the_peer() {
    let mut sessions = Sessions::new();
    add(&mut sessions, 1, "peer");
    assert_eq!(session_default_privacy_mode_impl(&sessions, 1), "");
    assert!(!session_is_view_camera_supported(&sessions, 1));
    let text = "{\"supported_privacy_mode_impl\":[[\"mag\",\"tip\"],[\"x\",\"y\"]],\"support_view_camera\":true}";
    sessions.peers.value_at_mut(0).ui_handler.peer_info.platform_additions = text.to_owned();
    assert_eq!(session_default_privacy_mode_impl(&sessions, 1), "mag");
    assert!(session_is_view_camera_supported(&sessions, 1));
    assert_eq!(session_default_privacy_mode_impl(&sessions, 2), "");
    assert!(!session_is_view_camera_supported(&sessions, 2));
    let value = |text: &str| -> serde_json::Value { serde_json::from_str(text).unwrap() };
    for odd in [
        "{}",
        "[]",
        "{\"supported_privacy_mode_impl\":[]}",
        "{\"supported_privacy_mode_impl\":[[]]}",
        "{\"supported_privacy_mode_impl\":[[1]]}",
        "{\"supported_privacy_mode_impl\":[\"mag\"]}",
        "{\"support_view_camera\":1}",
    ] {
        assert_eq!(default_privacy_mode_impl(&value(odd)), "");
        assert!(!offers_camera(&value(odd)));
    }
}

#[test]
fn touches_are_sent_on() {
    let mut sessions = Sessions::new();
    add(&mut sessions, 1, "peer");
    let send = |msg: &str| session_send_pointer(&sessions, 1, msg.to_owned());
    let scale = send("{\"k\":\"touch\",\"v\":{\"t\":\"scale\",\"v\":-7},\"ctrl\":null}").unwrap();
    assert!(matches!(scale.touch, Touch::Scale(-7)));
    assert!(scale.ctrl && !scale.alt && !scale.shift && !scale.command);
    let pan = "{\"k\":\"touch\",\"v\":{\"t\":\"pan_start\",\"v\":{\"x\":1,\"y\":-2}},\"alt\":\"true\",\"shift\":1,\"command\":0}";
    let pan = send(pan).unwrap();
    match pan.touch {
        Touch::Pan(event, x, y) => assert_eq!((event.as_str(), x, y), ("pan_start", 1, -2)),
        _ => panic!("not moved"),
    }
    assert!(pan.alt && pan.shift && pan.command && !pan.ctrl);
    for odd in [
        "",
        "[]",
        "{\"k\":\"touch\"}",
        "{\"k\":\"mouse\",\"v\":{\"t\":\"scale\",\"v\":1}}",
        "{\"k\":\"touch\",\"v\":{\"t\":\"scale\",\"v\":1.5}}",
        "{\"k\":\"touch\",\"v\":{\"t\":1,\"v\":1}}",
        "{\"k\":\"touch\",\"v\":{\"t\":\"pan_end\",\"v\":{\"x\":1}}}",
        "{\"k\":\"touch\",\"v\":{\"t\":\"pan_end\"}}",
    ] {
        assert!(send(odd).is_none());
    }
    let text = "{\"k\":\"touch\",\"v\":{\"t\":\"scale\",\"v\":4294967297}}";
    assert!(matches!(send(text).unwrap().touch, Touch::Scale(1)));
    assert!(session_send_pointer(&sessions, 2, text.to_owned()).is_none());
    assert!(read_pointer(&serde_json::from_str(text).unwrap()).is_some());
}

#[test]
fn clipboard_goes_to_the_peers_that_want_it() {
    let mut sessions = Sessions::new();
    add(&mut sessions, 1, "a");
    add_kind(&mut sessions, 2, [true, false, false, false, false]).unwrap();
    add(&mut sessions, 3, "b");
    let none = ClipboardNeeds {
        text_required: false,
        file_required: false,
        file_supported: false,
        single_format: false,
    };
    let all = ClipboardNeeds {
        text_required: true,
        file_required: true,
        file_supported: true,
        single_format: true,
    };
    let text = ClipboardNeeds { text_required: true, ..none };
    assert!(!update_text_clipboard_required(&sessions, &vec![none, all, none]));
    assert!(update_text_clipboard_required(&sessions, &vec![none, none, text]));
    assert!(!update_file_clipboard_required(&sessions, &vec![text, all, text]));
    assert!(update_file_clipboard_required(&sessions, &vec![all, none, none]));
    let nothing = ClipboardSend::Nothing;
    let whole = ClipboardSend::Whole;
    let single = ClipboardSend::SingleFormat;
    let needs = vec![text, all, all];
    assert_eq!(
        send_clipboard_msg(&sessions, &needs, true, false, false),
        vec![whole, nothing, whole]
    );
    assert_eq!(
        send_clipboard_msg(&sessions, &needs, true, false, true),
        vec![whole, nothing, single]
    );
    assert_eq!(
        send_clipboard_msg(&sessions, &needs, true, true, true),
        vec![nothing, nothing, whole]
    );
    assert_eq!(
        send_clipboard_msg(&sessions, &needs, false, true, false),
        vec![whole, nothing, whole]
    );
    let unsupported = ClipboardNeeds { file_supported: false, ..all };
    assert_eq!(
        send_clipboard_msg(&sessions, &vec![none, none, unsupported], true, true, false),
        vec![nothing, nothing, nothing]
    );
}

#[test]
fn text_of_an_id_is_read_back() {
    let sessions = Sessions::new();
    for id in [0u128, 1, 0xfedcba98765432100123456789abcdef, u128::MAX] {
        let message = session_start_headless(&sessions, &id, "p").err().unwrap().message;
        let text = message.strip_prefix("No session with peer id p, session id: ").unwrap();
        assert_eq!(text.len(), 36);
        assert_eq!(parse_session_id(text).ok(), Some(id));
    }
}

#[test]
fn other_sessions_are_left_alone() {
    let mut sessions = Sessions::new();
    add(&mut sessions, 1, "peer");
    session_start_(&mut sessions, &1, "peer", 7).ok().unwrap();
    session_set_size(&mut sessions, 1, 4, 10, 20);
    add(&mut sessions, 2, "peer");
    add(&mut sessions, 3, "other");
    remove_session_by_session_id(&mut sessions, &3);
    let session = get_session_by_session_id(&sessions, &1).unwrap();
    let handler = session.ui_handler.session_handlers.get(&1).unwrap();
    assert_eq!(handler.event_stream, Some(7));
    assert_eq!(handler.displays, vec![4]);
    assert_eq!(get_sessions(&sessions).len(), 1);
}
