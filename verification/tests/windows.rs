use rustdesk_bridge::async_tasks::{handle_query_onlines, query_onlines, QueryHandover};
use rustdesk_bridge::connection_manager::{app_type_cm, FlutterHandler};
use rustdesk_bridge::core_main::{
    get_rustdesk_app_name, load_plugin_in_app_path, rust_args_to_c_args, rustdesk_core_main,
    rustdesk_core_main_args, CoreMain, PluginError, PluginPlace,
};
use rustdesk_bridge::global_events::{
    get_global_event_channels, push_global_event, start_global_event_stream,
    stop_global_event_stream, GlobalStreams,
};
use rustdesk_bridge::message::Platform;
use rustdesk_bridge::virtual_display::session_update_virtual_display;

fn with_stream(channel: &str) -> GlobalStreams {
    let mut streams = GlobalStreams::new();
    start_global_event_stream(&mut streams, 5, channel.to_owned()).unwrap();
    streams
}

#[test]
fn global_streams_are_started_and_stopped() {
    let mut streams = GlobalStreams::new();
    let start = |streams: &mut GlobalStreams, id, names: &str| {
        start_global_event_stream(streams, id, names.to_owned()).unwrap()
    };
    let send = |streams: &GlobalStreams, channel: &str| {
        push_global_event(streams, channel, "x".to_owned())
    };
    assert_eq!(send(&streams, "main"), None);
    assert_eq!(start(&mut streams, 1, "main,cm"), None);
    assert_eq!(send(&streams, "main"), Some((1, "x".to_owned())));
    assert_eq!(send(&streams, "cm"), None);
    assert_eq!(start(&mut streams, 2, "main,cm"), None);
    assert_eq!(send(&streams, "main"), Some((1, "x".to_owned())));
    assert_eq!(send(&streams, "main,cm"), Some((2, "x".to_owned())));
    assert_eq!(start(&mut streams, 3, "main"), Some(1));
    assert_eq!(send(&streams, "main"), Some((3, "x".to_owned())));
    assert_eq!(get_global_event_channels(&streams), vec!["main", "main,cm"]);
    stop_global_event_stream(&mut streams, "main".to_owned());
    stop_global_event_stream(&mut streams, "none".to_owned());
    assert_eq!(send(&streams, "main"), None);
    assert_eq!(get_global_event_channels(&streams), vec!["main,cm"]);
}

#[test]
fn connection_manager_is_told() {
    let cm = FlutterHandler {};
    let linux = Platform::Linux;
    let streams = with_stream("cm");
    let sent = |text: &str| Some((5, text.to_owned()));
    let update = cm.add_connection(linux, &streams, "{}");
    assert_eq!(update.sent, sent("{\"client\":\"{}\",\"name\":\"add_connection\"}"));
    assert!(!update.tell_service);
    let update = cm.update_voice_call_state(linux, &streams, "{}");
    assert_eq!(update.sent, sent("{\"client\":\"{}\",\"name\":\"update_voice_call_state\"}"));
    assert_eq!(
        cm.remove_connection(linux, &streams, 3, true),
        sent("{\"id\":\"3\",\"close\":\"true\",\"name\":\"on_client_remove\"}")
    );
    assert_eq!(
        cm.new_message(linux, &streams, 3, "hi".to_owned()),
        sent("{\"id\":\"3\",\"text\":\"hi\",\"name\":\"chat_server_mode\"}")
    );
    assert_eq!(
        cm.change_theme(linux, &streams, "dark".to_owned()),
        sent("{\"dark\":\"dark\",\"name\":\"theme\"}")
    );
    assert_eq!(cm.change_language(linux, &streams), sent("{\"name\":\"language\"}"));
    assert_eq!(
        cm.show_elevation(linux, &streams, false),
        sent("{\"show\":\"false\",\"name\":\"show_elevation\"}")
    );
    assert_eq!(
        cm.file_transfer_log(linux, &streams, "transfer", "l"),
        sent("{\"transfer\":\"l\",\"name\":\"cm_file_transfer_log\"}")
    );
}

#[test]
fn connection_manager_has_no_window_on_a_phone() {
    let cm = FlutterHandler {};
    let streams = with_stream("main");
    assert_eq!(app_type_cm(Platform::Android), "main");
    assert_eq!(app_type_cm(Platform::Windows), "cm");
    assert_eq!(cm.change_language(Platform::Linux, &streams), None);
    assert!(cm.change_language(Platform::Ios, &streams).is_some());
    let update = cm.add_connection(Platform::Android, &streams, "{}");
    assert!(update.tell_service && update.sent.is_some());
}

#[test]
fn states_of_peers_are_asked_for() {
    assert!(query_onlines(QueryHandover::Accepted).is_ok());
    assert_eq!(
        query_onlines(QueryHandover::NotRunning).err().unwrap().message(),
        "No tx_query_onlines"
    );
    assert!(query_onlines(QueryHandover::Full).is_ok());
    let refused = query_onlines(QueryHandover::Refused("gone".to_owned()));
    assert_eq!(refused.err().unwrap().message(), "gone");
    let list = |names: &[&str]| names.iter().map(|n| n.to_string()).collect::<Vec<String>>();
    let streams = with_stream("main");
    assert_eq!(
        handle_query_onlines(&streams, list(&["a", "b"]), list(&[])),
        Some((
            5,
            "{\"name\":\"callback_query_onlines\",\"onlines\":\"a,b\",\"offlines\":\"\"}".to_owned()
        ))
    );
    assert_eq!(handle_query_onlines(&GlobalStreams::new(), list(&[]), list(&[])), None);
}

#[test]
fn virtual_displays_are_switched() {
    let switch = |list: &str, index, on| session_update_virtual_display(list, index, on);
    let stored = |list: &str| Some(list.to_owned());
    assert_eq!(switch("1,2", 3, true), stored("1,2,3"));
    assert_eq!(switch("1,2,3", 3, false), stored("1,2"));
    assert_eq!(switch("1,2", 2, true), None);
    assert_eq!(switch("1,2", 3, false), None);
    assert_eq!(switch("1,2", 1, false), stored("2"));
    assert_eq!(switch("0", 0, true), stored("0,0"));
    assert_eq!(switch("0,0", 0, false), stored("0"));
    assert_eq!(switch("", 0, false), stored(""));
    assert_eq!(switch("", 4, true), stored(",4"));
    assert_eq!(switch("1,2", -1, false), stored(""));
    assert_eq!(switch("", -1, false), None);
    assert_eq!(switch("1", -1, true), stored("1,-1"));
}

#[test]
fn start_of_the_program() {
    assert_eq!(rustdesk_core_main(Platform::Linux, true), CoreMain::Run);
    assert_eq!(rustdesk_core_main(Platform::Linux, false), CoreMain::Stop);
    assert_eq!(rustdesk_core_main(Platform::MacOs, false), CoreMain::Exit);
    assert_eq!(rustdesk_core_main(Platform::Android, true), CoreMain::Stop);
}

#[test]
fn arguments_for_c() {
    let args = vec!["a".to_owned(), "é".to_owned()];
    let expected = vec![vec![97u8, 0], vec![0xc3, 0xa9, 0]];
    assert_eq!(rust_args_to_c_args(args.clone()), Some(expected.clone()));
    assert_eq!(rustdesk_core_main_args(Some(args)), Some(expected));
    assert_eq!(rustdesk_core_main_args(None), None);
    assert_eq!(rust_args_to_c_args(vec!["a".to_owned(), "b\0c".to_owned()]), None);
    assert_eq!(rust_args_to_c_args(vec![]), Some(vec![]));
}

#[test]
fn name_of_the_program() {
    let name: Vec<u16> = vec![82, 0];
    let mut buffer: Vec<u16> = vec![9; 4];
    assert_eq!(get_rustdesk_app_name(&name, &mut buffer, 2), -1);
    assert_eq!(buffer, vec![9, 9, 9, 9]);
    assert_eq!(get_rustdesk_app_name(&name, &mut buffer, 3), 0);
    assert_eq!(buffer, vec![82, 0, 9, 9]);
}

#[test]
fn place_of_a_plugin() {
    assert_eq!(load_plugin_in_app_path("p.dll", PluginPlace::BesideProgram(true)), Ok(()));
    assert_eq!(
        load_plugin_in_app_path("p.dll", PluginPlace::BesideProgram(false)),
        Err((PluginError::NotFound, "p.dll not found".to_owned()))
    );
    assert_eq!(
        load_plugin_in_app_path("p.dll", PluginPlace::NoDirectory("/".to_owned())),
        Err((PluginError::Other, "Invalid exe parent for /".to_owned()))
    );
    assert_eq!(
        load_plugin_in_app_path("p.dll", PluginPlace::UnknownProgram("why".to_owned())),
        Err((PluginError::Other, "why".to_owned()))
    );
}
