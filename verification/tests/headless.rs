use rustdesk_bridge::audio::{
    push_headless_audio_format, push_headless_audio_pcm, take_headless_audio_format,
    take_headless_audio_pcm, HeadlessAudioState, MAX_HEADLESS_AUDIO_SAMPLES,
};
use rustdesk_bridge::cursor::{
    cache_headless_cursor, fix_transparent, select_headless_cursor, take_headless_cursor,
    CursorData, HeadlessCursorState, MAX_HEADLESS_CURSOR_SHAPES,
};
use rustdesk_bridge::file_transfer::{
    ft_entries_to_json, ft_push_dir_listing, ft_push_job_event, ft_set_override_confirm,
    ft_take_dir_listing, ft_take_job_event, ft_take_override_confirm, make_fd_flutter, sum_sizes,
    EntryReals, HeadlessFt, MAX_FT_DIR_LISTINGS, MAX_FT_JOB_EVENTS,
};
use rustdesk_bridge::message::FileEntry;

fn shape(id: u64) -> CursorData {
    CursorData { id, hotx: 1, hoty: -2, width: 1, height: 1, colors: Vec::new() }
}

fn entry(name: &str, entry_type: i32, size: u64) -> FileEntry {
    FileEntry { entry_type, name: name.to_owned(), is_hidden: false, size, modified_time: 7 }
}

#[test]
fn cursor_is_taken_once() {
    let mut state = HeadlessCursorState::new();
    assert_eq!(take_headless_cursor(&mut state), None);
    cache_headless_cursor(&mut state, &shape(5), vec![1, 2, 3, 4]);
    let packed = take_headless_cursor(&mut state).unwrap();
    assert_eq!(
        packed,
        vec![1, 0, 0, 0, 1, 0, 0, 0, 1, 0, 0, 0, 254, 255, 255, 255, 1, 2, 3, 4]
    );
    assert_eq!(take_headless_cursor(&mut state), None);
}

#[test]
fn packed_cursor_has_the_bytes_of_its_area() {
    let pack = |width: i32, height: i32, colors: Vec<u8>| {
        let mut state = HeadlessCursorState::new();
        let cd = CursorData { id: 1, hotx: 0, hoty: 0, width, height, colors: Vec::new() };
        cache_headless_cursor(&mut state, &cd, colors);
        take_headless_cursor(&mut state).unwrap().split_off(16)
    };
    assert_eq!(pack(1, 1, vec![]), vec![0, 0, 0, 0]);
    assert_eq!(pack(2, 1, vec![1, 2, 3]), vec![1, 2, 3, 0, 0, 0, 0, 0]);
    assert_eq!(pack(1, 1, vec![1, 2, 3, 4, 5]), vec![1, 2, 3, 4]);
    assert_eq!(pack(0, 7, vec![1, 2]), Vec::<u8>::new());
    assert_eq!(pack(-1, 1, vec![1, 2]), vec![1, 2]);
    assert_eq!(pack(1, i32::MIN, vec![]), Vec::<u8>::new());
    assert_eq!(pack(i32::MAX, i32::MAX, vec![9]), vec![9]);
}

#[test]
fn cursor_is_selected_by_id() {
    let mut state = HeadlessCursorState::new();
    cache_headless_cursor(&mut state, &shape(1), vec![1; 4]);
    cache_headless_cursor(&mut state, &shape(2), vec![2; 4]);
    assert_eq!(take_headless_cursor(&mut state).unwrap()[16], 2);
    select_headless_cursor(&mut state, 1);
    assert_eq!(take_headless_cursor(&mut state).unwrap()[16], 1);
    select_headless_cursor(&mut state, 1);
    assert_eq!(take_headless_cursor(&mut state), None);
    select_headless_cursor(&mut state, 99);
    assert_eq!(take_headless_cursor(&mut state), None);
}

#[test]
fn oldest_cursor_is_evicted() {
    let mut state = HeadlessCursorState::new();
    for id in 0..=MAX_HEADLESS_CURSOR_SHAPES as u64 {
        cache_headless_cursor(&mut state, &shape(id), vec![id as u8; 4]);
    }
    take_headless_cursor(&mut state);
    select_headless_cursor(&mut state, 0);
    assert_eq!(take_headless_cursor(&mut state), None);
    select_headless_cursor(&mut state, 1);
    assert_eq!(take_headless_cursor(&mut state).unwrap()[16], 1);
}

#[test]
fn shown_cursor_is_never_evicted() {
    let mut state = HeadlessCursorState::new();
    for id in 0..MAX_HEADLESS_CURSOR_SHAPES as u64 {
        cache_headless_cursor(&mut state, &shape(id), vec![id as u8; 4]);
    }
    select_headless_cursor(&mut state, 0);
    cache_headless_cursor(&mut state, &shape(100), vec![100; 4]);
    take_headless_cursor(&mut state);
    select_headless_cursor(&mut state, 0);
    assert_eq!(take_headless_cursor(&mut state).unwrap()[16], 0);
    select_headless_cursor(&mut state, 1);
    assert_eq!(take_headless_cursor(&mut state), None);
}

#[test]
fn transparent_pixels_are_made_drawable() {
    let mut clear = vec![0u8; 8];
    fix_transparent(&mut clear);
    assert_eq!(clear, vec![0, 0, 0, 1, 0, 0, 0, 0]);
    let mut drawn = vec![0, 0, 0, 0, 9];
    fix_transparent(&mut drawn);
    assert_eq!(drawn, vec![0, 0, 0, 0, 9]);
    let mut short = vec![0u8; 3];
    fix_transparent(&mut short);
    assert_eq!(short, vec![0, 0, 0]);
}

#[test]
fn audio_format_is_taken_once() {
    let mut state: HeadlessAudioState<f32> = HeadlessAudioState::new();
    push_headless_audio_format(&mut state, 48000, 2);
    assert_eq!(take_headless_audio_format(&mut state), Some((48000, 2)));
    assert_eq!(take_headless_audio_format(&mut state), None);
}

#[test]
fn audio_samples_come_in_order() {
    let mut state = HeadlessAudioState::new();
    push_headless_audio_pcm(&mut state, &[0.5f32, 0.25]);
    push_headless_audio_pcm(&mut state, &[-1.0]);
    assert_eq!(take_headless_audio_pcm(&mut state, 2), vec![0.5, 0.25]);
    assert_eq!(take_headless_audio_pcm(&mut state, 9), vec![-1.0]);
    assert_eq!(take_headless_audio_pcm(&mut state, 9), Vec::<f32>::new());
}

#[test]
fn audio_keeps_the_newest_samples() {
    let mut state = HeadlessAudioState::new();
    let many: Vec<u32> = (0..MAX_HEADLESS_AUDIO_SAMPLES as u32 + 3).collect();
    push_headless_audio_pcm(&mut state, &many);
    assert_eq!(take_headless_audio_pcm(&mut state, 2), vec![3, 4]);
}

#[test]
fn listings_and_events_are_queued_for_each_session() {
    let mut ft = HeadlessFt::new();
    ft_push_dir_listing(&mut ft, 1, "a".to_owned());
    ft_push_dir_listing(&mut ft, 1, "b".to_owned());
    ft_push_job_event(&mut ft, 2, "c".to_owned());
    assert_eq!(ft_take_dir_listing(&mut ft, &2), None);
    assert_eq!(ft_take_dir_listing(&mut ft, &1), Some("a".to_owned()));
    assert_eq!(ft_take_dir_listing(&mut ft, &1), Some("b".to_owned()));
    assert_eq!(ft_take_dir_listing(&mut ft, &1), None);
    assert_eq!(ft_take_job_event(&mut ft, &1), None);
    assert_eq!(ft_take_job_event(&mut ft, &2), Some("c".to_owned()));
    assert_eq!(ft_take_job_event(&mut ft, &2), None);
}

#[test]
fn queues_drop_their_oldest_items() {
    let mut ft = HeadlessFt::new();
    for i in 0..MAX_FT_DIR_LISTINGS + 2 {
        ft_push_dir_listing(&mut ft, 1, format!("{}", i));
    }
    assert_eq!(ft_take_dir_listing(&mut ft, &1), Some("2".to_owned()));
    for i in 0..MAX_FT_JOB_EVENTS + 1 {
        ft_push_job_event(&mut ft, 1, format!("{}", i));
    }
    assert_eq!(ft_take_job_event(&mut ft, &1), Some("1".to_owned()));
}

#[test]
fn question_is_taken_once() {
    let mut ft = HeadlessFt::new();
    assert_eq!(ft_take_override_confirm(&mut ft, &1), None);
    ft_set_override_confirm(&mut ft, 1, "old".to_owned());
    ft_set_override_confirm(&mut ft, 1, "new".to_owned());
    assert_eq!(ft_take_override_confirm(&mut ft, &2), None);
    assert_eq!(ft_take_override_confirm(&mut ft, &1), Some("new".to_owned()));
    assert_eq!(ft_take_override_confirm(&mut ft, &1), None);
}

#[test]
fn entries_become_json_objects() {
    let values = ft_entries_to_json(&vec![entry("x", 4, u64::MAX)]);
    assert_eq!(values.len(), 1);
    assert_eq!(
        values[0].to_string(),
        "{\"entry_type\":4,\"name\":\"x\",\"is_hidden\":false,\"size\":18446744073709551615,\"modified_time\":7}"
    );
}

#[test]
fn listing_for_the_user_interface() {
    let entries = vec![entry("d", 0, 1), entry("f", 4, 2)];
    assert_eq!(sum_sizes(&entries), 3);
    let reals: Vec<EntryReals> = entries
        .iter()
        .map(|e| EntryReals {
            time: serde_json::Value::from(e.modified_time as f64),
            size: serde_json::Value::from(e.size as f64),
        })
        .collect();
    assert_eq!(
        make_fd_flutter(3, &entries, false, reals, serde_json::Value::from(3.0)),
        "{\"id\":3,\"entries\":[{\"name\":\"d\",\"type\":1,\"time\":7.0,\"size\":1.0},{\"name\":\"f\",\"type\":4,\"time\":7.0,\"size\":2.0}],\"total_size\":3.0}"
    );
    assert_eq!(
        make_fd_flutter(3, &entries, true, Vec::new(), serde_json::Value::from(3.0)),
        "{\"id\":3,\"num_entries\":2,\"total_size\":3.0}"
    );
}
