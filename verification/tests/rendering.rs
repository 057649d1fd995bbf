use rustdesk_bridge::handler::{FlutterHandler, SessionHandler, SessionHook};
use rustdesk_bridge::image::ImageRgb;
use rustdesk_bridge::json::Fields;
use rustdesk_bridge::message::{Delivery, EventToUI, Platform, StreamId};
use rustdesk_bridge::renderer::VideoRenderer;

fn frame(w: usize, h: usize) -> ImageRgb {
    ImageRgb { raw: vec![7; 4], w, h, align: 1 }
}

fn session(stream: Option<StreamId>, displays: Vec<usize>) -> SessionHandler {
    let mut handler = SessionHandler::new();
    handler.event_stream = stream;
    handler.displays = displays;
    handler
}

fn handler_with(sessions: Vec<(u128, SessionHandler)>) -> FlutterHandler {
    let mut handler = FlutterHandler::new(false);
    for (id, session) in sessions {
        handler.session_handlers.insert(id, session);
    }
    handler
}

#[test]
fn frame_is_news_once() {
    let mut renderer = VideoRenderer::new();
    renderer.register_pixelbuffer_texture(0, 77);
    let first = renderer.on_rgba(0, &frame(2, 2));
    assert_eq!((first.target, first.notify), (Some(77), true));
    let second = renderer.on_rgba(0, &frame(2, 2));
    assert_eq!((second.target, second.notify), (Some(77), false));
    renderer.set_size(0, 2, 2);
    assert!(renderer.on_rgba(0, &frame(2, 2)).notify);
    assert!(!renderer.on_rgba(0, &frame(2, 2)).notify);
    renderer.reset_all_display_render_type();
    assert!(renderer.on_rgba(0, &frame(2, 2)).notify);
}

#[test]
fn frame_of_a_wrong_size_is_not_shown() {
    let mut renderer = VideoRenderer::new();
    renderer.register_pixelbuffer_texture(0, 77);
    renderer.set_size(0, 4, 4);
    let step = renderer.on_rgba(0, &frame(2, 2));
    assert_eq!((step.target, step.notify), (None, false));
    assert_eq!(renderer.on_rgba(0, &frame(4, 4)).target, Some(77));
}

#[test]
fn frame_needs_a_texture() {
    let mut renderer = VideoRenderer::new();
    assert_eq!(renderer.on_rgba(0, &frame(2, 2)).target, None);
    renderer.set_size(0, 2, 2);
    assert_eq!(renderer.on_rgba(0, &frame(2, 2)).target, None);
    renderer.register_gpu_output(0, 5);
    assert_eq!(renderer.on_rgba(0, &frame(2, 2)).target, None);
    let step = renderer.on_texture(0);
    assert_eq!((step.target, step.notify), (Some(5), true));
    assert!(!renderer.on_texture(0).notify);
}

#[test]
fn peer_with_one_session_shows_any_display() {
    let mut renderer = VideoRenderer::new();
    renderer.register_pixelbuffer_texture(3, 30);
    assert_eq!(renderer.on_rgba(0, &frame(1, 1)).target, Some(30));
    renderer.is_support_multi_ui_session = true;
    assert_eq!(renderer.on_rgba(0, &frame(1, 1)).target, None);
    assert_eq!(renderer.on_rgba(3, &frame(1, 1)).target, Some(30));
}

#[test]
fn texture_is_registered_and_taken_back() {
    let mut renderer = VideoRenderer::new();
    renderer.register_pixelbuffer_texture(0, 1);
    renderer.register_gpu_output(0, 2);
    renderer.register_pixelbuffer_texture(0, 0);
    assert_eq!(renderer.map_display_sessions.len(), 1);
    assert_eq!(renderer.on_rgba(0, &frame(1, 1)).target, None);
    assert_eq!(renderer.on_texture(0).target, Some(2));
    renderer.register_gpu_output(0, 0);
    assert_eq!(renderer.map_display_sessions.len(), 0);
    renderer.register_gpu_output(0, 2);
    renderer.register_pixelbuffer_texture(0, 1);
    renderer.register_gpu_output(0, 0);
    assert_eq!(renderer.on_rgba(0, &frame(1, 1)).target, Some(1));
}

#[test]
fn displays_are_independent() {
    let mut renderer = VideoRenderer::new();
    renderer.is_support_multi_ui_session = true;
    renderer.register_pixelbuffer_texture(0, 1);
    renderer.register_pixelbuffer_texture(1, 2);
    assert!(renderer.on_rgba(0, &frame(1, 1)).notify);
    renderer.set_size(1, 8, 8);
    assert!(!renderer.on_rgba(0, &frame(1, 1)).notify);
    renderer.register_pixelbuffer_texture(1, 0);
    assert_eq!(renderer.on_rgba(0, &frame(1, 1)).target, Some(1));
}

#[test]
fn polled_frame_waits_until_it_is_read() {
    let mut handler = handler_with(vec![(1, session(None, vec![]))]);
    assert_eq!(handler.get_rgba(0), None);
    let mut first = ImageRgb { raw: vec![1], w: 1, h: 1, align: 1 };
    assert_eq!(handler.on_rgba_soft_render(0, &mut first), vec![]);
    assert_eq!(first.raw, Vec::<u8>::new());
    assert_eq!(handler.get_rgba(0), Some(&vec![1]));
    let mut second = ImageRgb { raw: vec![2], w: 1, h: 1, align: 1 };
    handler.on_rgba_soft_render(0, &mut second);
    assert_eq!(second.raw, vec![2]);
    assert_eq!(handler.get_rgba(0), Some(&vec![1]));
    handler.next_rgba(0);
    assert_eq!(handler.get_rgba(0), None);
    handler.on_rgba_soft_render(0, &mut second);
    assert_eq!(second.raw, vec![1]);
    assert_eq!(handler.get_rgba(0), Some(&vec![2]));
    assert_eq!(handler.get_rgba(1), None);
    handler.update_use_texture_render(true);
    assert_eq!(handler.get_rgba(0), None);
}

#[test]
fn frame_that_nobody_can_read_is_dropped() {
    let mut handler = handler_with(vec![]);
    let mut image = frame(1, 1);
    handler.on_rgba_soft_render(0, &mut image);
    assert_eq!(handler.get_rgba(0), None);
}

#[test]
fn sessions_are_told_of_a_frame() {
    let told = |display: usize, sessions: Vec<(u128, SessionHandler)>| {
        let mut handler = handler_with(sessions);
        let mut image = frame(1, 1);
        handler.on_rgba_soft_render(display, &mut image)
    };
    let rgba = |stream| Delivery { stream, event: EventToUI::Rgba(0) };
    assert_eq!(told(0, vec![(1, session(Some(10), vec![]))]), vec![rgba(10)]);
    assert_eq!(told(0, vec![(1, session(Some(10), vec![5]))]), vec![rgba(10)]);
    assert_eq!(told(0, vec![(1, session(Some(10), vec![0, 1]))]), vec![]);
    assert_eq!(
        told(0, vec![(1, session(Some(10), vec![0])), (2, session(Some(20), vec![1]))]),
        vec![rgba(10)]
    );
}

#[test]
fn textures_take_frames_on_a_computer() {
    let mut handler = handler_with(vec![
        (1, session(Some(10), vec![0, 1])),
        (2, session(Some(20), vec![0])),
    ]);
    handler.session_handlers.get_mut(&1).unwrap().renderer.register_pixelbuffer_texture(0, 11);
    handler.session_handlers.get_mut(&2).unwrap().renderer.register_pixelbuffer_texture(0, 22);
    let image = frame(1, 1);
    let (phone, soft) = handler.on_rgba(Platform::Android, 0, &image);
    assert!(soft);
    assert!(phone.targets.is_empty() && phone.deliveries.is_empty());
    let (actions, soft) = handler.on_rgba(Platform::Linux, 0, &image);
    assert!(soft);
    assert_eq!(actions.targets, vec![11]);
    let told = Delivery { stream: 10, event: EventToUI::Texture(0, false) };
    assert_eq!(actions.deliveries, vec![told]);
    handler.update_use_texture_render(true);
    let (actions, soft) = handler.on_rgba(Platform::Linux, 0, &image);
    assert!(!soft);
    assert_eq!(actions.targets, vec![11, 22]);
    let told = Delivery { stream: 20, event: EventToUI::Texture(0, false) };
    assert_eq!(actions.deliveries, vec![told]);
}

#[test]
fn gpu_textures_are_shown_where_textures_are_used() {
    let mut handler = handler_with(vec![(1, session(Some(10), vec![0]))]);
    handler.session_handlers.get_mut(&1).unwrap().renderer.register_gpu_output(0, 9);
    assert!(handler.on_texture(0).targets.is_empty());
    handler.update_use_texture_render(true);
    let actions = handler.on_texture(0);
    assert_eq!(actions.targets, vec![9]);
    let told = Delivery { stream: 10, event: EventToUI::Texture(0, true) };
    assert_eq!(actions.deliveries, vec![told]);
    assert!(handler.on_texture(0).deliveries.is_empty());
    handler.session_handlers.get_mut(&1).unwrap().on_waiting_for_image_dialog_show();
    assert_eq!(handler.on_texture(0).deliveries.len(), 1);
}

#[test]
fn hooks_are_added_once() {
    let mut handler = handler_with(vec![]);
    let key = "plugin".to_owned();
    assert!(handler.add_session_hook(key.clone(), SessionHook::OnSessionRgba(4)));
    assert!(!handler.add_session_hook(key.clone(), SessionHook::OnSessionRgba(5)));
    assert_eq!(handler.rgba_hooks(Platform::Windows), vec![(key.clone(), 4)]);
    assert_eq!(handler.rgba_hooks(Platform::Ios), vec![]);
    assert!(handler.remove_session_hook(&key));
    assert!(!handler.remove_session_hook(&key));
    assert_eq!(handler.rgba_hooks(Platform::Windows), vec![]);
}

#[test]
fn events_go_to_the_addressed_sessions() {
    let handler = handler_with(vec![
        (1, session(Some(10), vec![])),
        (2, session(None, vec![])),
        (3, session(Some(30), vec![])),
    ]);
    let streams = |out: Vec<Delivery>| out.iter().map(|d| d.stream).collect::<Vec<u64>>();
    assert_eq!(streams(handler.push_event("e", Fields::new(), &[])), vec![10, 30]);
    assert_eq!(streams(handler.push_event("e", Fields::new(), &[1])), vec![30]);
    assert_eq!(streams(handler.push_event_to("e", Fields::new(), &[1, 2])), vec![10]);
    assert_eq!(streams(handler.push_event_to("e", Fields::new(), &[])), vec![10, 30]);
    assert_eq!(streams(handler.push_event_("e", Fields::new(), &[3], &[3])), vec![30]);
    let out = handler.push_event("e", Fields::new().text("a", "\"").integer("b", -1), &[1]);
    assert_eq!(
        out[0].event,
        EventToUI::Event("{\"a\":\"\\\"\",\"b\":-1,\"name\":\"e\"}".to_owned())
    );
    let named = handler.push_event("e", Fields::new().text("name", "x").text("y", "z"), &[1]);
    assert_eq!(
        named[0].event,
        EventToUI::Event("{\"name\":\"e\",\"y\":\"z\"}".to_owned())
    );
}

#[test]
fn stream_is_closed_with_a_message() {
    let handler = handler_with(vec![(1, session(Some(10), vec![])), (2, session(None, vec![]))]);
    let closed = handler.close_event_stream(1).unwrap();
    assert_eq!(closed, Delivery { stream: 10, event: EventToUI::Event("close".to_owned()) });
    assert_eq!(handler.close_event_stream(2), None);
    assert_eq!(handler.close_event_stream(3), None);
    assert!(handler.is_multi_ui_session());
    assert_eq!(handler.headless_session_id(), Some(1));
    assert_eq!(handler_with(vec![]).headless_session_id(), None);
}
