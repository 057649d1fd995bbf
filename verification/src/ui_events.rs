//! What the user interface is told of a connection.

use crate::cursor::{
    cache_headless_cursor, fix_transparent, select_headless_cursor, visible, CursorData,
    CursorShapeView, HeadlessCursorState,
};
use crate::file_transfer::{
    entry_json, ft_entries_to_json, ft_push_dir_listing, ft_push_job_event,
    ft_set_override_confirm, lemma_operations_stay_in_their_session, lemma_queued_items,
    make_fd_flutter, FtView, HeadlessFt,
};
use crate::handler::{event_text, FlutterHandler, FlutterHandlerView, SessionHandlerView};
use crate::json::{
    json_list, json_of, json_text, lemma_merged_distinct, object_of, Fields, Json, JsonFields,
};
use crate::layout::{
    bytes_msg, bytes_text, displays_text, flag, fps_fields, fps_msg, number_values,
    numbers_json, resolutions_text, serialize_resolutions, windows_sessions_msg,
    windows_sessions_text,
};
use crate::message::{
    copy_displays, delivered, nothing_told, text_or_empty, CursorPosition, Delivery, DeliveryView,
    DisplayInfo, EventView, Features, FileEntry, PeerInfo, PeerInfoView, Platform, SessionID,
    SwitchDisplay, TerminalOpened, TerminalResponse, WindowsSession,
};
use crate::quality::{
    push_headless_quality_status, reported, HeadlessQualityStatus, QualityStatus,
};
use crate::renderer::VideoRendererView;
use crate::session_id::{parse_session_id, session_id_value};
use crate::table::{distinct_keys, lemma_lookup_push, lookup};
use crate::text::{bool_text, decimal, decimal_i32, decimal_u64, opt_text, parse_u64, parsed_u64};
use vstd::prelude::*;

verus! {

/// The first version of a peer that has a privacy mode.
pub const PRIVACY_MODE_VERSION: &'static str = "1.2.0";

impl FlutterHandler {
    /// A named event to every session.
    fn tell(&self, name: &str, fields: Fields) -> (out: Vec<Delivery>)
        ensures
            delivered(out@) == self@.event(name@, fields@),
    {
        let nobody: Vec<SessionID> = Vec::new();
        self.push_event(name, fields, nobody.as_slice())
    }

    /// The peer moved its cursor.
    pub fn set_cursor_position(&self, cp: CursorPosition) -> (out: Vec<Delivery>)
        ensures
            delivered(out@) == self@.event(
                "cursor_position"@,
                JsonFields::empty()
                    .push(("x"@, Json::Text(decimal(cp.x as int))))
                    .push(("y"@, Json::Text(decimal(cp.y as int)))),
            ),
    {
        self.tell(
            "cursor_position",
            Fields::new()
                .decimal("x", cp.x as i64)
                .decimal("y", cp.y as i64),
        )
    }

    /// The peer changed its privacy mode.
    pub fn update_privacy_mode(&self) -> (out: Vec<Delivery>)
        ensures
            delivered(out@) == self@.event(
                "update_privacy_mode"@,
                JsonFields::empty(),
            ),
    {
        self.tell(
            "update_privacy_mode",
            Fields::new(),
        )
    }

    /// The peer gave or took a permission.
    pub fn set_permission(&self, name: &str, value: bool) -> (out: Vec<Delivery>)
        ensures
            delivered(out@) == self@.event(
                "permission"@,
                JsonFields::empty().push((name@, Json::Text(bool_text(value)))),
            ),
    {
        self.tell("permission", Fields::new().bool_text(name, value))
    }

    /// The connection stands.
    pub fn set_connection_type(
        &self,
        is_secured: bool,
        direct: bool,
        stream_type: &str,
    ) -> (out: Vec<Delivery>)
        ensures
            delivered(out@) == self@.event(
                "connection_ready"@,
                JsonFields::empty()
                    .push(("secure"@, Json::Text(bool_text(is_secured))))
                    .push(("direct"@, Json::Text(bool_text(direct))))
                    .push(("stream_type"@, Json::Text(stream_type@))),
            ),
    {
        self.tell(
            "connection_ready",
            Fields::new()
                .bool_text("secure", is_secured)
                .bool_text("direct", direct)
                .text("stream_type", stream_type),
        )
    }

    /// The fingerprint of the peer's key is known.
    pub fn set_fingerprint(&self, fingerprint: String) -> (out: Vec<Delivery>)
        ensures
            delivered(out@) == self@.event(
                "fingerprint"@,
                JsonFields::empty()
                    .push(("fingerprint"@, Json::Text(fingerprint@))),
            ),
    {
        self.tell(
            "fingerprint",
            Fields::new()
                .text("fingerprint", fingerprint.as_str()),
        )
    }

    /// A transfer job of an earlier session can be taken up.
    pub fn load_last_job(
        &self,
        _cnt: i32,
        job_json: &str,
        _auto_start: bool,
    ) -> (out: Vec<Delivery>)
        ensures
            delivered(out@) == self@.event(
                "load_last_job"@,
                JsonFields::empty()
                    .push(("value"@, Json::Text(job_json@))),
            ),
    {
        self.tell(
            "load_last_job",
            Fields::new()
                .text("value", job_json),
        )
    }

    /// The peer's empty directories, as a JSON text.
    pub fn update_empty_dirs(&self, res: &str) -> (out: Vec<Delivery>)
        ensures
            delivered(out@) == self@.event(
                "empty_dirs"@,
                JsonFields::empty()
                    .push(("is_local"@, Json::Text("false"@)))
                    .push(("value"@, Json::Text(res@))),
            ),
    {
        self.tell(
            "empty_dirs",
            Fields::new()
                .text("is_local", "false")
                .text("value", res),
        )
    }

    /// The platform of the peer offers something else.
    pub fn set_platform_additions(&self, data: &str) -> (out: Vec<Delivery>)
        ensures
            delivered(out@) == self@.event(
                "sync_platform_additions"@,
                JsonFields::empty()
                    .push(("platform_additions"@, Json::Text(data@))),
            ),
    {
        self.tell(
            "sync_platform_additions",
            Fields::new()
                .text("platform_additions", data),
        )
    }

    /// A message box is taken away.
    pub fn cancel_msgbox(&self, tag: &str) -> (out: Vec<Delivery>)
        ensures
            delivered(out@) == self@.event(
                "cancel_msgbox"@,
                JsonFields::empty()
                    .push(("tag"@, Json::Text(tag@))),
            ),
    {
        self.tell(
            "cancel_msgbox",
            Fields::new()
                .text("tag", tag),
        )
    }

    /// A chat message came.
    pub fn new_message(&self, msg: String) -> (out: Vec<Delivery>)
        ensures
            delivered(out@) == self@.event(
                "chat_client_mode"@,
                JsonFields::empty()
                    .push(("text"@, Json::Text(msg@))),
            ),
    {
        self.tell(
            "chat_client_mode",
            Fields::new()
                .text("text", msg.as_str()),
        )
    }

    /// The clipboard of the peer changed.
    pub fn clipboard(&self, content: String) -> (out: Vec<Delivery>)
        ensures
            delivered(out@) == self@.event(
                "clipboard"@,
                JsonFields::empty()
                    .push(("content"@, Json::Text(content@))),
            ),
    {
        self.tell(
            "clipboard",
            Fields::new()
                .text("content", content.as_str()),
        )
    }

    /// The peer wants the roles changed back.
    pub fn switch_back(&self, peer_id: &str) -> (out: Vec<Delivery>)
        ensures
            delivered(out@) == self@.event(
                "switch_back"@,
                JsonFields::empty()
                    .push(("peer_id"@, Json::Text(peer_id@))),
            ),
    {
        self.tell(
            "switch_back",
            Fields::new()
                .text("peer_id", peer_id),
        )
    }

    /// The peer's elevated service started or stopped.
    pub fn portable_service_running(&self, running: bool) -> (out: Vec<Delivery>)
        ensures
            delivered(out@) == self@.event(
                "portable_service_running"@,
                JsonFields::empty()
                    .push(("running"@, Json::Text(bool_text(running)))),
            ),
    {
        self.tell(
            "portable_service_running",
            Fields::new()
                .bool_text("running", running),
        )
    }

    /// A voice call started.
    pub fn on_voice_call_started(&self) -> (out: Vec<Delivery>)
        ensures
            delivered(out@) == self@.event(
                "on_voice_call_started"@,
                JsonFields::empty(),
            ),
    {
        self.tell(
            "on_voice_call_started",
            Fields::new(),
        )
    }

    /// A voice call ended.
    pub fn on_voice_call_closed(&self, reason: &str) -> (out: Vec<Delivery>)
        ensures
            delivered(out@) == self@.event(
                "on_voice_call_closed"@,
                JsonFields::empty()
                    .push(("reason"@, Json::Text(reason@))),
            ),
    {
        self.tell(
            "on_voice_call_closed",
            Fields::new()
                .text("reason", reason),
        )
    }

    /// A voice call waits for the peer.
    pub fn on_voice_call_waiting(&self) -> (out: Vec<Delivery>)
        ensures
            delivered(out@) == self@.event(
                "on_voice_call_waiting"@,
                JsonFields::empty(),
            ),
    {
        self.tell(
            "on_voice_call_waiting",
            Fields::new(),
        )
    }

    /// The peer calls.
    pub fn on_voice_call_incoming(&self) -> (out: Vec<Delivery>)
        ensures
            delivered(out@) == self@.event(
                "on_voice_call_incoming"@,
                JsonFields::empty(),
            ),
    {
        self.tell(
            "on_voice_call_incoming",
            Fields::new(),
        )
    }

    /// The peer records the session, or no longer.
    pub fn update_record_status(&self, start: bool) -> (out: Vec<Delivery>)
        ensures
            delivered(out@) == self@.event(
                "record_status"@,
                JsonFields::empty()
                    .push(("start"@, Json::Text(bool_text(start)))),
            ),
    {
        self.tell(
            "record_status",
            Fields::new()
                .bool_text("start", start),
        )
    }

    /// The peer asks to print a file.
    pub fn printer_request(&self, id: i32, path: String) -> (out: Vec<Delivery>)
        ensures
            delivered(out@) == self@.event(
                "printer_request"@,
                JsonFields::empty()
                    .push(("id"@, Json::Integer(id as int)))
                    .push(("path"@, Json::Text(path@))),
            ),
    {
        self.tell(
            "printer_request",
            Fields::new()
                .integer("id", id as i64)
                .text("path", path.as_str()),
        )
    }

    /// Nothing is told here: [`FlutterHandler::switch_display`] and [`FlutterHandler::set_peer_info`] say
    /// it.
    pub fn set_display(
        &self,
        _x: i32,
        _y: i32,
        _w: i32,
        _h: i32,
        _cursor_embedded: bool,
    ) -> (out: Vec<Delivery>)
        ensures
            delivered(out@) == Seq::<DeliveryView>::empty(),
    {
        nothing_told()
    }

    /// Nothing is told of a connection that was closed well.
    pub fn close_success(&self) -> (out: Vec<Delivery>)
        ensures
            delivered(out@) == Seq::<DeliveryView>::empty(),
    {
        nothing_told()
    }

    /// Nothing is told when all jobs go.
    pub fn clear_all_jobs(&self) -> (out: Vec<Delivery>)
        ensures
            delivered(out@) == Seq::<DeliveryView>::empty(),
    {
        nothing_told()
    }

    /// Nothing is told of the list of transfers.
    pub fn update_transfer_list(&self) -> (out: Vec<Delivery>)
        ensures
            delivered(out@) == Seq::<DeliveryView>::empty(),
    {
        nothing_told()
    }

    /// Nothing is asked before files are deleted.
    pub fn confirm_delete_files(&self, _id: i32, _i: i32, _name: String) -> (out: Vec<Delivery>)
        ensures
            delivered(out@) == Seq::<DeliveryView>::empty(),
    {
        nothing_told()
    }

    /// Nothing is told of a change of size.
    pub fn adapt_size(&self) -> (out: Vec<Delivery>)
        ensures
            delivered(out@) == Seq::<DeliveryView>::empty(),
    {
        nothing_told()
    }

    /// Nothing is told of the connection alone.
    pub fn on_connected(&self, _conn_type: crate::message::ConnType) -> (out: Vec<Delivery>)
        ensures
            delivered(out@) == Seq::<DeliveryView>::empty(),
    {
        nothing_told()
    }

    /// Input on the peer is blocked, or no longer.
    pub fn update_block_input_state(&self, on: bool) -> (out: Vec<Delivery>)
        ensures
            delivered(out@) == self@.event(
                "update_block_input_state"@,
                JsonFields::empty().push(
                    (
                        "input_state"@,
                        Json::Text(
                            if on {
                                "on"@
                            } else {
                                "off"@
                            },
                        ),
                    ),
                ),
            ),
    {
        let state = if on {
            "on"
        } else {
            "off"
        };
        self.tell("update_block_input_state", Fields::new().text("input_state", state))
    }

    /// A message box is shown; the last field says whether the user may try again.
    pub fn msgbox(
        &self,
        msgtype: &str,
        title: &str,
        text: &str,
        link: &str,
        retry: bool,
    ) -> (out: Vec<Delivery>)
        ensures
            delivered(out@) == self@.event(
                "msgbox"@,
                JsonFields::empty()
                    .push(("type"@, Json::Text(msgtype@)))
                    .push(("title"@, Json::Text(title@)))
                    .push(("text"@, Json::Text(text@)))
                    .push(("link"@, Json::Text(link@)))
                    .push(
                    (
                        "hasRetry"@,
                        Json::Text(
                            if retry {
                                "true"@
                            } else {
                                ""@
                            },
                        ),
                    ),
                ),
            ),
    {
        let has_retry = if retry {
            "true"
        } else {
            ""
        };
        self.tell(
            "msgbox",
            Fields::new()
                .text("type", msgtype)
                .text("title", title)
                .text("text", text)
                .text("link", link)
                .text("hasRetry", has_retry),
        )
    }

    /// The peer shows another display; a user interface that shows several keeps its own.
    pub fn set_current_display(&self, disp_idx: i32) -> (out: Vec<Delivery>)
        ensures
            delivered(out@) == if self@.multi() {
                Seq::empty()
            } else {
                self@.event(
                    "follow_current_display"@,
                    JsonFields::empty().push(
                        ("display_idx"@, Json::Text(decimal(disp_idx as int))),
                    ),
                )
            },
    {
        if self.is_multi_ui_session() {
            return nothing_told();
        }
        self.tell(
            "follow_current_display",
            Fields::new().decimal("display_idx", disp_idx as i64),
        )
    }

    /// The sessions of the peer's system that can be joined.
    pub fn set_multiple_windows_session(
        &self,
        sessions: Vec<WindowsSession>,
    ) -> (out: Vec<Delivery>)
        ensures
            delivered(out@) == self@.event(
                "set_multiple_windows_session"@,
                JsonFields::empty().push(
                    ("windows_sessions"@, Json::Text(windows_sessions_text(sessions@))),
                ),
            ),
    {
        let text = windows_sessions_msg(&sessions);
        self.tell(
            "set_multiple_windows_session",
            Fields::new().text("windows_sessions", text.as_str()),
        )
    }

    /// The peer shows another display.
    pub fn switch_display(&self, display: &SwitchDisplay) -> (out: Vec<Delivery>)
        ensures
            delivered(out@) == self@.event(
                "switch_display"@,
                JsonFields::empty()
                    .push(("display"@, Json::Text(decimal(display.display as int))))
                    .push(("x"@, Json::Text(decimal(display.x as int))))
                    .push(("y"@, Json::Text(decimal(display.y as int))))
                    .push(("width"@, Json::Text(decimal(display.width as int))))
                    .push(("height"@, Json::Text(decimal(display.height as int))))
                    .push(("cursor_embedded"@, Json::Text(decimal(flag(display.cursor_embedded)))))
                    .push(("resolutions"@, Json::Text(resolutions_text(display.resolutions@))))
                    .push(
                    (
                        "original_width"@,
                        Json::Text(decimal(display.original_resolution.width as int)),
                    ),
                )
                    .push(
                    (
                        "original_height"@,
                        Json::Text(decimal(display.original_resolution.height as int)),
                    ),
                ),
            ),
    {
        let resolutions = serialize_resolutions(&display.resolutions);
        let embedded: i64 = if display.cursor_embedded {
            1
        } else {
            0
        };
        self.tell(
            "switch_display",
            Fields::new()
                .decimal("display", display.display as i64)
                .decimal("x", display.x as i64)
                .decimal("y", display.y as i64)
                .decimal("width", display.width as i64)
                .decimal("height", display.height as i64)
                .decimal("cursor_embedded", embedded)
                .text("resolutions", resolutions.as_str())
                .decimal("original_width", display.original_resolution.width as i64)
                .decimal("original_height", display.original_resolution.height as i64),
        )
    }
}

/// What is queued for a session that polls, where there is one.
pub open spec fn job_queued(ft: FtView, session: Option<SessionID>, fields: JsonFields) -> FtView {
    match session {
        Some(id) => ft.push_job_event(id, json_text(object_of(fields))),
        None => ft,
    }
}

/// The fields of a listing that is queued for a session that polls.
pub open spec fn listing_fields(
    id: i32,
    entries: Seq<FileEntry>,
    path: Seq<char>,
    is_local: bool,
    only_count: bool,
) -> JsonFields {
    JsonFields::empty()
        .push(("id"@, Json::Integer(id as int)))
        .push(("path"@, Json::Text(path)))
        .push(("is_local"@, Json::Bool(is_local)))
        .push(("only_count"@, Json::Bool(only_count)))
        .push(
        ("entries"@, Json::List(entries.map_values(|entry: FileEntry| entry_json(entry)))),
    )
}

/// The text of a listing of which only the number of entries is told.
pub open spec fn count_text(id: i32, count: nat, total: Json) -> Seq<char> {
    json_text(
        object_of(
            JsonFields::empty()
                .push(("id"@, Json::Integer(id as int)))
                .push(("num_entries"@, Json::Integer(count as i32 as int)))
                .push(("total_size"@, total)),
        ),
    )
}

impl FlutterHandler {
    /// Queues a job event for the session that polls.
    fn queue_job(&self, ft: &mut HeadlessFt, fields: Fields)
        requires
            old(ft).wf(),
        ensures
            final(ft)@ == job_queued(old(ft)@, self@.headless_session_id(), fields@),
            final(ft).wf(),
    {
        if let Some(session_id) = self.headless_session_id() {
            ft_push_job_event(ft, session_id, fields.print());
        }
    }

    /// A job failed.
    pub fn job_error(
        &self,
        ft: &mut HeadlessFt,
        id: i32,
        err: String,
        file_num: i32,
    ) -> (out: Vec<Delivery>)
        requires
            old(ft).wf(),
        ensures
            delivered(out@) == self@.event(
                "job_error"@,
                JsonFields::empty()
                    .push(("id"@, Json::Text(decimal(id as int))))
                    .push(("err"@, Json::Text(err@)))
                    .push(("file_num"@, Json::Text(decimal(file_num as int)))),
            ),
            final(ft)@ == job_queued(
                old(ft)@,
                self@.headless_session_id(),
                JsonFields::empty()
                    .push(("type"@, Json::Text("error"@)))
                    .push(("id"@, Json::Integer(id as int)))
                    .push(("file_num"@, Json::Integer(file_num as int)))
                    .push(("err"@, Json::Text(err@))),
            ),
            final(ft).wf(),
    {
        self.queue_job(
            ft,
            Fields::new()
                .text("type", "error")
                .integer("id", id as i64)
                .integer("file_num", file_num as i64)
                .text("err", err.as_str()),
        );
        self.tell(
            "job_error",
            Fields::new()
                .decimal("id", id as i64)
                .text("err", err.as_str())
                .decimal("file_num", file_num as i64),
        )
    }

    /// A job is done.
    pub fn job_done(&self, ft: &mut HeadlessFt, id: i32, file_num: i32) -> (out: Vec<Delivery>)
        requires
            old(ft).wf(),
        ensures
            delivered(out@) == self@.event(
                "job_done"@,
                JsonFields::empty()
                    .push(("id"@, Json::Text(decimal(id as int))))
                    .push(("file_num"@, Json::Text(decimal(file_num as int)))),
            ),
            final(ft)@ == job_queued(
                old(ft)@,
                self@.headless_session_id(),
                JsonFields::empty()
                    .push(("type"@, Json::Text("done"@)))
                    .push(("id"@, Json::Integer(id as int)))
                    .push(("file_num"@, Json::Integer(file_num as int))),
            ),
            final(ft).wf(),
    {
        self.queue_job(
            ft,
            Fields::new()
                .text("type", "done")
                .integer("id", id as i64)
                .integer("file_num", file_num as i64),
        );
        self.tell(
            "job_done",
            Fields::new().decimal("id", id as i64).decimal("file_num", file_num as i64),
        )
    }

    /// A job went on. The speed and the size come as texts and as JSON real numbers.
    pub fn job_progress(
        &self,
        ft: &mut HeadlessFt,
        id: i32,
        file_num: i32,
        speed: JobReal,
        finished_size: JobReal,
    ) -> (out: Vec<Delivery>)
        requires
            old(ft).wf(),
        ensures
            delivered(out@) == self@.event(
                "job_progress"@,
                JsonFields::empty()
                    .push(("id"@, Json::Text(decimal(id as int))))
                    .push(("file_num"@, Json::Text(decimal(file_num as int))))
                    .push(("speed"@, Json::Text(speed.text@)))
                    .push(("finished_size"@, Json::Text(finished_size.text@))),
            ),
            final(ft)@ == job_queued(
                old(ft)@,
                self@.headless_session_id(),
                JsonFields::empty()
                    .push(("type"@, Json::Text("progress"@)))
                    .push(("id"@, Json::Integer(id as int)))
                    .push(("file_num"@, Json::Integer(file_num as int)))
                    .push(("speed"@, json_of(speed.value)))
                    .push(("finished_size"@, json_of(finished_size.value))),
            ),
            final(ft).wf(),
    {
        self.queue_job(
            ft,
            Fields::new()
                .text("type", "progress")
                .integer("id", id as i64)
                .integer("file_num", file_num as i64)
                .value("speed", speed.value)
                .value("finished_size", finished_size.value),
        );
        self.tell(
            "job_progress",
            Fields::new()
                .decimal("id", id as i64)
                .decimal("file_num", file_num as i64)
                .text("speed", speed.text.as_str())
                .text("finished_size", finished_size.text.as_str()),
        )
    }

    /// A directory was listed. Where only its number of entries matters, that and the sum of the
    /// sizes are told, the sum as a JSON real number; else `fd_json` is, the whole listing.
    pub fn update_folder_files(
        &self,
        ft: &mut HeadlessFt,
        id: i32,
        entries: &Vec<FileEntry>,
        path: String,
        is_local: bool,
        only_count: bool,
        total: serde_json::Value,
        fd_json: &str,
    ) -> (out: Vec<Delivery>)
        requires
            old(ft).wf(),
        ensures
            delivered(out@) == if only_count {
                self@.event(
                    "update_folder_files"@,
                    JsonFields::empty().push(
                        ("info"@, Json::Text(count_text(id, entries@.len(), json_of(total)))),
                    ),
                )
            } else {
                self@.event(
                    "file_dir"@,
                    JsonFields::empty()
                        .push(("is_local"@, Json::Text("false"@)))
                        .push(("value"@, Json::Text(fd_json@))),
                )
            },
            final(ft)@ == match self@.headless_session_id() {
                Some(session) => old(ft)@.push_dir_listing(
                    session,
                    json_text(
                        object_of(listing_fields(id, entries@, path@, is_local, only_count)),
                    ),
                ),
                None => old(ft)@,
            },
            final(ft).wf(),
    {
        if let Some(session_id) = self.headless_session_id() {
            let listing = Fields::new()
                .integer("id", id as i64)
                .text("path", path.as_str())
                .truth("is_local", is_local)
                .truth("only_count", only_count)
                .value("entries", json_list(ft_entries_to_json(entries)))
                .print();
            ft_push_dir_listing(ft, session_id, listing);
        }
        if only_count {
            let info = make_fd_flutter(id, entries, only_count, Vec::new(), total);
            self.tell("update_folder_files", Fields::new().text("info", info.as_str()))
        } else {
            self.tell(
                "file_dir",
                Fields::new().text("is_local", "false").text("value", fd_json),
            )
        }
    }

    /// A file would be replaced: the user is asked.
    pub fn override_file_confirm(
        &self,
        ft: &mut HeadlessFt,
        id: i32,
        file_num: i32,
        to: String,
        is_upload: bool,
        is_identical: bool,
    ) -> (out: Vec<Delivery>)
        requires
            old(ft).wf(),
        ensures
            delivered(out@) == self@.event(
                "override_file_confirm"@,
                JsonFields::empty()
                    .push(("id"@, Json::Text(decimal(id as int))))
                    .push(("file_num"@, Json::Text(decimal(file_num as int))))
                    .push(("read_path"@, Json::Text(to@)))
                    .push(("is_upload"@, Json::Text(bool_text(is_upload))))
                    .push(("is_identical"@, Json::Text(bool_text(is_identical)))),
            ),
            final(ft)@ == match self@.headless_session_id() {
                Some(session) => old(ft)@.set_override_confirm(
                    session,
                    json_text(
                        object_of(
                            JsonFields::empty()
                                .push(("id"@, Json::Integer(id as int)))
                                .push(("file_num"@, Json::Integer(file_num as int)))
                                .push(("to"@, Json::Text(to@)))
                                .push(("is_upload"@, Json::Bool(is_upload)))
                                .push(("is_identical"@, Json::Bool(is_identical))),
                        ),
                    ),
                ),
                None => old(ft)@,
            },
            final(ft).wf(),
    {
        if let Some(session_id) = self.headless_session_id() {
            let question = Fields::new()
                .integer("id", id as i64)
                .integer("file_num", file_num as i64)
                .text("to", to.as_str())
                .truth("is_upload", is_upload)
                .truth("is_identical", is_identical)
                .print();
            ft_set_override_confirm(ft, session_id, question);
        }
        self.tell(
            "override_file_confirm",
            Fields::new()
                .decimal("id", id as i64)
                .decimal("file_num", file_num as i64)
                .text("read_path", to.as_str())
                .bool_text("is_upload", is_upload)
                .bool_text("is_identical", is_identical),
        )
    }
}

/// A real number: as it is shown, and as a JSON value.
pub struct JobReal {
    pub text: String,
    pub value: serde_json::Value,
}

/// A text, or nothing where there is none.
pub open spec fn shown_text(text: Option<Seq<char>>) -> Seq<char> {
    match text {
        Some(t) => t,
        None => Seq::empty(),
    }
}

/// The decimal text of a number, or nothing where there is none.
pub open spec fn shown_number(n: Option<i32>) -> Seq<char> {
    match n {
        Some(n) => decimal(n as int),
        None => Seq::empty(),
    }
}

fn number_or_empty(n: Option<i32>) -> (text: String)
    ensures
        text@ == shown_number(n),
{
    match n {
        Some(n) => decimal_i32(n),
        None => String::new(),
    }
}

/// What the peer can do. A peer before [`PRIVACY_MODE_VERSION`] has no privacy mode, whatever it
/// says; the two arguments are the numbers of the peer's version and of that one.
pub open spec fn feature_fields(
    features: Option<Features>,
    version: i64,
    privacy_version: i64,
) -> JsonFields {
    let said = match features {
        Some(f) => JsonFields::empty().push(("privacy_mode"@, Json::Bool(f.privacy_mode))),
        None => JsonFields::empty(),
    };
    if version < privacy_version {
        said.push(("privacy_mode"@, Json::Bool(false)))
    } else {
        said
    }
}

impl FlutterHandlerView {
    /// The handler once the peer has said what it is.
    pub open spec fn introduced(self, pi: PeerInfoView, multi_ui: bool) -> FlutterHandlerView {
        FlutterHandlerView {
            peer_info: pi,
            session_handlers: self.session_handlers.map_values(
                |entry: (SessionID, SessionHandlerView)|
                    (
                        entry.0,
                        SessionHandlerView {
                            renderer: VideoRendererView {
                                is_support_multi_ui_session: multi_ui,
                                ..entry.1.renderer
                            },
                            ..entry.1
                        },
                    ),
            ),
            ..self
        }
    }
}

impl FlutterHandler {
    /// The peer sent a cursor shape. Its pixels come unpacked.
    pub fn set_cursor_data(
        &self,
        cursor: &mut HeadlessCursorState,
        cd: CursorData,
        colors: Vec<u8>,
    ) -> (out: Vec<Delivery>)
        requires
            old(cursor).wf(),
        ensures
            delivered(out@) == self@.event(
                "cursor_data"@,
                JsonFields::empty()
                    .push(("id"@, Json::Text(decimal(cd.id as int))))
                    .push(("hotx"@, Json::Text(decimal(cd.hotx as int))))
                    .push(("hoty"@, Json::Text(decimal(cd.hoty as int))))
                    .push(("width"@, Json::Text(decimal(cd.width as int))))
                    .push(("height"@, Json::Text(decimal(cd.height as int))))
                    .push(("colors"@, Json::Text(bytes_text(visible(colors@))))),
            ),
            final(cursor)@ == old(cursor)@.cached(
                cd.id,
                (CursorShapeView {
                    width: cd.width,
                    height: cd.height,
                    hotx: cd.hotx,
                    hoty: cd.hoty,
                    colors: visible(colors@),
                }),
            ),
            final(cursor).wf(),
    {
        let mut pixels = colors;
        fix_transparent(&mut pixels);
        let id = decimal_u64(cd.id);
        let listed = bytes_msg(&pixels);
        cache_headless_cursor(cursor, &cd, pixels);
        self.tell(
            "cursor_data",
            Fields::new()
                .text("id", id.as_str())
                .decimal("hotx", cd.hotx as i64)
                .decimal("hoty", cd.hoty as i64)
                .decimal("width", cd.width as i64)
                .decimal("height", cd.height as i64)
                .text("colors", listed.as_str()),
        )
    }

    /// The peer shows a cursor shape that it sent before.
    pub fn set_cursor_id(
        &self,
        cursor: &mut HeadlessCursorState,
        id: String,
    ) -> (out: Vec<Delivery>)
        requires
            old(cursor).wf(),
        ensures
            delivered(out@) == self@.event(
                "cursor_id"@,
                JsonFields::empty().push(("id"@, Json::Text(id@))),
            ),
            final(cursor)@ == match parsed_u64(id@) {
                Some(n) => old(cursor)@.selected(n),
                None => old(cursor)@,
            },
            final(cursor).wf(),
    {
        if let Some(n) = parse_u64(id.as_str()) {
            select_headless_cursor(cursor, n);
        }
        self.tell("cursor_id", Fields::new().text("id", id.as_str()))
    }

    /// The connection reports its statistics.
    pub fn update_quality_status(
        &self,
        known: &mut HeadlessQualityStatus,
        status: QualityStatus,
    ) -> (out: Vec<Delivery>)
        ensures
            delivered(out@) == self@.event(
                "update_quality_status"@,
                JsonFields::empty()
                    .push(("speed"@, Json::Text(shown_text(opt_text(status.speed)))))
                    .push(("fps"@, Json::Text(json_text(object_of(fps_fields(status.fps@))))))
                    .push(("delay"@, Json::Text(shown_number(status.delay))))
                    .push(("target_bitrate"@, Json::Text(shown_number(status.target_bitrate))))
                    .push(
                    ("codec_format"@, Json::Text(shown_text(opt_text(status.codec_format)))),
                ).push(("chroma"@, Json::Text(shown_text(opt_text(status.chroma))))),
            ),
            final(known)@ == old(known)@.updated(reported(status)),
    {
        push_headless_quality_status(known, &status);
        let speed = text_or_empty(&status.speed);
        let fps = fps_msg(&status.fps);
        let delay = number_or_empty(status.delay);
        let bitrate = number_or_empty(status.target_bitrate);
        let codec = text_or_empty(&status.codec_format);
        let chroma = text_or_empty(&status.chroma);
        self.tell(
            "update_quality_status",
            Fields::new()
                .text("speed", speed.as_str())
                .text("fps", fps.as_str())
                .text("delay", delay.as_str())
                .text("target_bitrate", bitrate.as_str())
                .text("codec_format", codec.as_str())
                .text("chroma", chroma.as_str()),
        )
    }

    /// The peer says what it is. The number of its version comes with it, that of
    /// [`PRIVACY_MODE_VERSION`], and whether a peer of its version serves several user interfaces;
    /// on a phone there is never more than one.
    pub fn set_peer_info(
        &mut self,
        platform: Platform,
        pi: &PeerInfo,
        version: i64,
        privacy_version: i64,
        multi_ui: bool,
    ) -> (out: Vec<Delivery>)
        requires
            old(self).wf(),
        ensures
            final(self)@ == old(self)@.introduced(pi@, multi_ui && !platform.mobile()),
            final(self).wf(),
            delivered(out@) == final(self)@.event(
                "peer_info"@,
                JsonFields::empty()
                    .push(("username"@, Json::Text(pi@.username)))
                    .push(("hostname"@, Json::Text(pi@.hostname)))
                    .push(("platform"@, Json::Text(pi@.platform)))
                    .push(("sas_enabled"@, Json::Text(bool_text(pi@.sas_enabled))))
                    .push(("displays"@, Json::Text(displays_text(pi@.displays))))
                    .push(("version"@, Json::Text(pi@.version)))
                    .push(
                    (
                        "features"@,
                        Json::Text(
                            json_text(
                                object_of(feature_fields(pi@.features, version, privacy_version)),
                            ),
                        ),
                    ),
                )
                    .push(("current_display"@, Json::Text(decimal(pi@.current_display as int))))
                    .push(("resolutions"@, Json::Text(resolutions_text(pi@.resolutions))))
                    .push(("platform_additions"@, Json::Text(pi@.platform_additions))),
            ),
    {
        let displays = FlutterHandler::make_displays_msg(&pi.displays);
        let said = match pi.features {
            Some(f) => Fields::new().truth("privacy_mode", f.privacy_mode),
            None => Fields::new(),
        };
        let features = if version < privacy_version {
            said.truth("privacy_mode", false).print()
        } else {
            said.print()
        };
        let resolutions = serialize_resolutions(&pi.resolutions);
        self.peer_info = pi.duplicate();
        let multi_ui = multi_ui && !platform.is_mobile();
        self.set_multi_ui(multi_ui);
        assert(self@ == old(self)@.introduced(pi@, multi_ui));
        self.tell(
            "peer_info",
            Fields::new()
                .text("username", pi.username.as_str())
                .text("hostname", pi.hostname.as_str())
                .text("platform", pi.platform.as_str())
                .bool_text("sas_enabled", pi.sas_enabled)
                .text("displays", displays.as_str())
                .text("version", pi.version.as_str())
                .text("features", features.as_str())
                .decimal("current_display", pi.current_display as i64)
                .text("resolutions", resolutions.as_str())
                .text("platform_additions", pi.platform_additions.as_str()),
        )
    }

    /// Tells every renderer whether several user interfaces can be served.
    fn set_multi_ui(&mut self, multi_ui: bool)
        requires
            old(self).wf(),
        ensures
            final(self)@ == old(self)@.introduced(old(self)@.peer_info, multi_ui),
            final(self).wf(),
    {
        let ghost before = self@;
        let ghost handlers = before.session_handlers;
        let ghost goal = before.introduced(before.peer_info, multi_ui);
        let mut i: usize = 0;
        while i < self.session_handlers.len()
            invariant
                i <= handlers.len(),
                before == old(self)@,
                before.wf(),
                handlers == before.session_handlers,
                goal == before.introduced(before.peer_info, multi_ui),
                self.session_handlers.wf(),
                self@.session_handlers.len() == handlers.len(),
                forall|j: int| 0 <= j < i ==> self@.session_handlers[j] == goal.session_handlers[j],
                forall|j: int|
                    0 <= j < i ==> (#[trigger] self@.session_handlers[j]).1.renderer.wf(),
                forall|j: int| i <= j < handlers.len() ==> self@.session_handlers[j] == handlers[j],
                self.display_rgbas == old(self).display_rgbas,
                self.peer_info == old(self).peer_info,
                self.hooks == old(self).hooks,
                self.use_texture_render == old(self).use_texture_render,
            decreases handlers.len() - i,
        {
            assert(handlers[i as int].1.renderer.wf());
            let handler = self.session_handlers.value_at_mut(i);
            handler.renderer.is_support_multi_ui_session = multi_ui;
            i += 1;
        }
        assert(self@.session_handlers =~= goal.session_handlers);
    }

    /// The displays of the peer changed.
    pub fn set_displays(&mut self, displays: &Vec<DisplayInfo>) -> (out: Vec<Delivery>)
        requires
            old(self).wf(),
        ensures
            final(self)@ == (FlutterHandlerView {
                peer_info: PeerInfoView { displays: displays@, ..old(self)@.peer_info },
                ..old(self)@
            }),
            final(self).wf(),
            delivered(out@) == old(self)@.event(
                "sync_peer_info"@,
                JsonFields::empty().push(("displays"@, Json::Text(displays_text(displays@)))),
            ),
    {
        self.peer_info.displays = copy_displays(displays);
        let text = FlutterHandler::make_displays_msg(displays);
        self.tell("sync_peer_info", Fields::new().text("displays", text.as_str()))
    }

    /// A screenshot was taken, or not: the session that asked is told.
    pub fn handle_screenshot_resp(&self, sid: String, msg: String) -> (out: Vec<Delivery>)
        ensures
            delivered(out@) == match session_id_value(sid@) {
                Some(id) => self@.deliveries(
                    EventView::Event(
                        event_text(
                            "screenshot"@,
                            JsonFields::empty().push(("msg"@, Json::Text(msg@))),
                        ),
                    ),
                    seq![id],
                    Seq::empty(),
                ),
                None => Seq::empty(),
            },
    {
        match parse_session_id(sid.as_str()) {
            Ok(id) => {
                let mut asked: Vec<SessionID> = Vec::new();
                asked.push(id);
                assert(asked@ =~= seq![id]);
                self.push_event_to(
                    "screenshot",
                    Fields::new().text("msg", msg.as_str()),
                    asked.as_slice(),
                )
            },
            Err(_) => nothing_told(),
        }
    }
}

/// The fields of the event for an answer of a terminal; nothing where there is none to tell.
/// `encoded` is the base64 text of the output.
pub open spec fn terminal_fields(response: TerminalResponse, encoded: Seq<char>) -> Option<
    JsonFields,
> {
    match response {
        TerminalResponse::Opened(opened) => Some(opened_fields(opened)),
        TerminalResponse::Data(terminal_id, _, _) => Some(
            JsonFields::empty()
                .push(("type"@, Json::Text("data"@)))
                .push(("terminal_id"@, Json::Integer(terminal_id as int)))
                .push(("data"@, Json::Text(encoded))),
        ),
        TerminalResponse::Closed(terminal_id, exit_code) => Some(
            JsonFields::empty()
                .push(("type"@, Json::Text("closed"@)))
                .push(("terminal_id"@, Json::Integer(terminal_id as int)))
                .push(("exit_code"@, Json::Integer(exit_code as int))),
        ),
        TerminalResponse::Error(terminal_id, message) => Some(
            JsonFields::empty()
                .push(("type"@, Json::Text("error"@)))
                .push(("terminal_id"@, Json::Integer(terminal_id as int)))
                .push(("message"@, Json::Text(message@))),
        ),
        TerminalResponse::Missing => None,
        TerminalResponse::Unknown => None,
    }
}

/// The fields of the event for a terminal that was opened, or not.
pub open spec fn opened_fields(opened: TerminalOpened) -> JsonFields {
    let fields = JsonFields::empty()
        .push(("type"@, Json::Text("opened"@)))
        .push(("terminal_id"@, Json::Integer(opened.terminal_id as int)))
        .push(("success"@, Json::Bool(opened.success)))
        .push(("message"@, Json::Text(opened.message@)))
        .push(("pid"@, Json::Integer(opened.pid as int)))
        .push(("service_id"@, Json::Text(opened.service_id@)))
        .push(("replay_terminal_output"@, Json::Bool(opened.replay_terminal_output)));
    if opened.persistent_sessions@.len() > 0 {
        fields.push(
            ("persistent_sessions"@, Json::List(numbers_json(opened.persistent_sessions@))),
        )
    } else {
        fields
    }
}

/// Whether the output in an answer of a terminal has to be unpacked before it is encoded.
pub fn is_output_packed(response: &TerminalResponse) -> (packed: bool)
    ensures
        packed == match *response {
            TerminalResponse::Data(_, _, compressed) => compressed,
            _ => false,
        },
{
    match response {
        TerminalResponse::Data(_, _, compressed) => *compressed,
        _ => false,
    }
}

impl FlutterHandler {
    /// A terminal on the peer answers. Output comes with the base64 text of its bytes, unpacked
    /// where [`is_output_packed`] says so.
    pub fn handle_terminal_response(
        &self,
        response: TerminalResponse,
        encoded: &str,
    ) -> (out: Vec<Delivery>)
        ensures
            delivered(out@) == match terminal_fields(response, encoded@) {
                Some(fields) => self@.event("terminal_response"@, fields),
                None => Seq::empty(),
            },
    {
        match response {
            TerminalResponse::Opened(opened) => {
                let fields = Fields::new()
                    .text("type", "opened")
                    .integer("terminal_id", opened.terminal_id as i64)
                    .truth("success", opened.success)
                    .text("message", opened.message.as_str())
                    .unsigned("pid", opened.pid as u64)
                    .text("service_id", opened.service_id.as_str())
                    .truth("replay_terminal_output", opened.replay_terminal_output);
                if opened.persistent_sessions.len() > 0 {
                    let ids = number_values(&opened.persistent_sessions);
                    self.tell(
                        "terminal_response",
                        fields.value("persistent_sessions", json_list(ids)),
                    )
                } else {
                    self.tell("terminal_response", fields)
                }
            },
            TerminalResponse::Data(terminal_id, _, _) => self.tell(
                "terminal_response",
                Fields::new()
                    .text("type", "data")
                    .integer("terminal_id", terminal_id as i64)
                    .text("data", encoded),
            ),
            TerminalResponse::Closed(terminal_id, exit_code) => self.tell(
                "terminal_response",
                Fields::new()
                    .text("type", "closed")
                    .integer("terminal_id", terminal_id as i64)
                    .integer("exit_code", exit_code as i64),
            ),
            TerminalResponse::Error(terminal_id, message) => self.tell(
                "terminal_response",
                Fields::new()
                    .text("type", "error")
                    .integer("terminal_id", terminal_id as i64)
                    .text("message", message.as_str()),
            ),
            TerminalResponse::Missing | TerminalResponse::Unknown => nothing_told(),
        }
    }
}

/// A job event is queued for the session that polls, and for it alone; without one nothing is queued.
pub proof fn lemma_job_queued(
    ft: FtView,
    id: SessionID,
    fields: JsonFields,
    other: SessionID,
)
    requires
        ft.wf(),
        other != id,
    ensures
        job_queued(ft, None, fields) == ft,
        job_queued(ft, Some(id), fields).queues(other) == ft.queues(other),
        ({
            let after = job_queued(ft, Some(id), fields).queues(id);
            &&& after.dir_listings == ft.queues(id).dir_listings
            &&& after.override_confirm == ft.queues(id).override_confirm
            &&& after.job_events.last() == json_text(object_of(fields))
            &&& ft.queues(id).job_events.len() < 512 ==> after.job_events.drop_last()
                == ft.queues(id).job_events
            &&& ft.queues(id).job_events.len() == 512 ==> after.job_events.drop_last()
                == ft.queues(id).job_events.skip(1)
        }),
{
    let text = json_text(object_of(fields));
    lemma_queued_items(ft, id, text);
    lemma_operations_stay_in_their_session(ft, id, text, other);
    let before = ft.queues(id).job_events;
    assert(before.push(text).drop_last() =~= before);
    assert(before.skip(1).push(text).drop_last() =~= before.skip(1));
}

/// A listing for a session that polls holds the job, the path, both flags and the entries, each in its
/// place, and nothing else.
pub proof fn lemma_listing_fields(
    id: i32,
    entries: Seq<FileEntry>,
    path: Seq<char>,
    is_local: bool,
    only_count: bool,
    i: int,
)
    ensures
        ({
            let sent = listing_fields(id, entries, path, is_local, only_count);
            &&& sent.len() == 5
            &&& lookup(sent, "id"@) == Some(Json::Integer(id as int))
            &&& lookup(sent, "path"@) == Some(Json::Text(path))
            &&& lookup(sent, "is_local"@) == Some(Json::Bool(is_local))
            &&& lookup(sent, "only_count"@) == Some(Json::Bool(only_count))
            &&& lookup(sent, "entries"@) matches Some(Json::List(list)) && list.len()
                == entries.len() && (0 <= i < entries.len() ==> list[i] == entry_json(entries[i]))
        }),
{
    broadcast use lemma_lookup_push;

    reveal_strlit("id");
    reveal_strlit("path");
    reveal_strlit("is_local");
    reveal_strlit("only_count");
    reveal_strlit("entries");
    assert("id"@.len() == 2 && "path"@.len() == 4 && "is_local"@.len() == 8 && "only_count"@.len() == 10 && "entries"@.len() == 7);
}

/// A listing of which only the number of entries is told holds the job, that number and the sum, and
/// nothing else.
pub proof fn lemma_count_text(id: i32, count: nat, total: Json)
    ensures
        exists|members: JsonFields|
            {
                &&& count_text(id, count, total) == #[trigger] json_text(Json::Object(members))
                &&& members.len() == 3
                &&& lookup(members, "id"@) == Some(Json::Integer(id as int))
                &&& lookup(members, "num_entries"@) == Some(Json::Integer(count as i32 as int))
                &&& lookup(members, "total_size"@) == Some(total)
            },
{
    broadcast use lemma_lookup_push;

    reveal_strlit("id");
    reveal_strlit("num_entries");
    reveal_strlit("total_size");
    assert("id"@.len() == 2 && "num_entries"@.len() == 11 && "total_size"@.len() == 10);
    let members = JsonFields::empty()
        .push(("id"@, Json::Integer(id as int)))
        .push(("num_entries"@, Json::Integer(count as i32 as int)))
        .push(("total_size"@, total));
    assert(distinct_keys(members));
    lemma_merged_distinct(members);
    assert(count_text(id, count, total) == json_text(Json::Object(members)));
}

/// What is there is shown as it is; what is missing is shown as an empty text.
pub proof fn lemma_shown(text: Seq<char>, n: i32)
    ensures
        shown_text(Some(text)) == text,
        shown_text(None).len() == 0,
        shown_number(Some(n)) == decimal(n as int),
        shown_number(None).len() == 0,
{
}

/// A peer of a version with a privacy mode has what it says; an older one has none, whatever it says.
/// No other feature is told.
pub proof fn lemma_feature_fields(
    features: Option<Features>,
    version: i64,
    privacy_version: i64,
    key: Seq<char>,
)
    ensures
        ({
            let told = feature_fields(features, version, privacy_version);
            &&& version < privacy_version ==> lookup(told, "privacy_mode"@) == Some(
                Json::Bool(false),
            )
            &&& version >= privacy_version ==> lookup(told, "privacy_mode"@) == match features {
                Some(f) => Some(Json::Bool(f.privacy_mode)),
                None => None,
            }
            &&& key != "privacy_mode"@ ==> lookup(told, key) is None
        }),
{
    broadcast use lemma_lookup_push;

}

/// Once the peer has said what it is, that is kept, and every session knows whether several are
/// served. Nothing else changes.
pub proof fn lemma_introduced(
    handler: FlutterHandlerView,
    pi: PeerInfoView,
    multi_ui: bool,
    i: int,
)
    ensures
        ({
            let all = handler.introduced(pi, multi_ui);
            &&& all.peer_info == pi
            &&& all.display_rgbas == handler.display_rgbas
            &&& all.hooks == handler.hooks
            &&& all.use_texture_render == handler.use_texture_render
            &&& all.session_handlers.len() == handler.session_handlers.len()
            &&& 0 <= i < handler.session_handlers.len() ==> {
                let before = handler.session_handlers[i];
                let after = all.session_handlers[i];
                &&& after.0 == before.0
                &&& after.1.event_stream == before.1.event_stream
                &&& after.1.displays == before.1.displays
                &&& after.1.renderer.displays == before.1.renderer.displays
                &&& after.1.renderer.is_support_multi_ui_session == multi_ui
            }
        }),
{
}

/// A terminal that was opened is told of with everything that the peer says of it. The terminals that
/// were left open are named, in their order, where there are any.
pub proof fn lemma_opened_fields(opened: TerminalOpened, i: int, key: Seq<char>)
    ensures
        ({
            let told = opened_fields(opened);
            let left = opened.persistent_sessions@;
            &&& lookup(told, "type"@) == Some(Json::Text("opened"@))
            &&& lookup(told, "terminal_id"@) == Some(Json::Integer(opened.terminal_id as int))
            &&& lookup(told, "success"@) == Some(Json::Bool(opened.success))
            &&& lookup(told, "message"@) == Some(Json::Text(opened.message@))
            &&& lookup(told, "pid"@) == Some(Json::Integer(opened.pid as int))
            &&& lookup(told, "service_id"@) == Some(Json::Text(opened.service_id@))
            &&& lookup(told, "replay_terminal_output"@) == Some(
                Json::Bool(opened.replay_terminal_output),
            )
            &&& left.len() == 0 ==> lookup(told, "persistent_sessions"@) is None && told.len() == 7
            &&& left.len() > 0 ==> told.len() == 8 && (lookup(told, "persistent_sessions"@) matches
                Some(Json::List(list)) && list.len() == left.len() && (0 <= i < left.len()
                ==> list[i] == Json::Integer(left[i] as int)))
        }),
{
    broadcast use lemma_lookup_push;

    reveal_strlit("type");
    reveal_strlit("terminal_id");
    reveal_strlit("success");
    reveal_strlit("message");
    reveal_strlit("pid");
    reveal_strlit("service_id");
    reveal_strlit("replay_terminal_output");
    reveal_strlit("persistent_sessions");
    assert("type"@.len() == 4 && "terminal_id"@.len() == 11 && "success"@.len() == 7 && "message"@.len() == 7 && "pid"@.len() == 3 && "service_id"@.len() == 10 && "replay_terminal_output"@.len() == 22 && "persistent_sessions"@.len() == 19);
    assert("message"@[0] == 'm' && "success"@[0] == 's');
}

/// An answer of a terminal is told of by its kind, with the terminal that it comes from and what it
/// carries; answers that carry nothing, or are not known, are not told.
pub proof fn lemma_terminal_fields(response: TerminalResponse, encoded: Seq<char>)
    ensures
        match response {
            TerminalResponse::Opened(opened) => terminal_fields(response, encoded) == Some(
                opened_fields(opened),
            ),
            TerminalResponse::Data(terminal, _, _) => terminal_fields(response, encoded) matches
                Some(told) && told.len() == 3 && lookup(told, "type"@) == Some(
                Json::Text("data"@),
            ) && lookup(told, "terminal_id"@) == Some(Json::Integer(terminal as int)) && lookup(
                told,
                "data"@,
            ) == Some(Json::Text(encoded)),
            TerminalResponse::Closed(terminal, code) => terminal_fields(response, encoded) matches
                Some(told) && told.len() == 3 && lookup(told, "type"@) == Some(
                Json::Text("closed"@),
            ) && lookup(told, "terminal_id"@) == Some(Json::Integer(terminal as int)) && lookup(
                told,
                "exit_code"@,
            ) == Some(Json::Integer(code as int)),
            TerminalResponse::Error(terminal, message) => terminal_fields(response, encoded) matches
                Some(told) && told.len() == 3 && lookup(told, "type"@) == Some(
                Json::Text("error"@),
            ) && lookup(told, "terminal_id"@) == Some(Json::Integer(terminal as int)) && lookup(
                told,
                "message"@,
            ) == Some(Json::Text(message@)),
            TerminalResponse::Missing | TerminalResponse::Unknown => terminal_fields(
                response,
                encoded,
            ) is None,
        },
{
    broadcast use lemma_lookup_push;

    reveal_strlit("type");
    reveal_strlit("terminal_id");
    reveal_strlit("data");
    reveal_strlit("exit_code");
    reveal_strlit("message");
    assert("type"@.len() == 4 && "terminal_id"@.len() == 11 && "data"@.len() == 4 && "exit_code"@.len() == 9 && "message"@.len() == 7);
    assert("data"@[0] == 'd' && "type"@[0] == 't');
}

}
