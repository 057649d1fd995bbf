//! The data that sessions exchange with the peer and with the user interface.

use crate::text::opt_text;
use vstd::prelude::*;

verus! {

/// The id of a session of the user interface: the 128 bits of a UUID.
pub type SessionID = u128;

/// The handle of an event stream to the user interface.
pub type StreamId = u64;

/// The handle of a callback that looks at frames.
pub type HookId = u64;

/// The system that the program runs on.
#[derive(Debug, PartialEq, Eq, Clone, Copy, Structural)]
pub enum Platform {
    Windows,
    MacOs,
    Linux,
    Android,
    Ios,
}

impl Platform {
    /// Whether the system is one for phones.
    pub open spec fn mobile(self) -> bool {
        self == Platform::Android || self == Platform::Ios
    }

    pub fn is_mobile(self) -> (yes: bool)
        ensures
            yes == self.mobile(),
    {
        match self {
            Platform::Android | Platform::Ios => true,
            _ => false,
        }
    }
}

/// What a connection to a peer is for.
#[allow(non_camel_case_types)]
#[derive(Debug, PartialEq, Eq, Clone, Copy, Structural)]
pub enum ConnType {
    DEFAULT_CONN,
    FILE_TRANSFER,
    PORT_FORWARD,
    RDP,
    VIEW_CAMERA,
    TERMINAL,
}

/// What the user interface is told.
#[derive(Debug, PartialEq, Eq, Clone)]
pub enum EventToUI {
    /// A JSON text, or `close`.
    Event(String),
    /// A frame of a display waits.
    Rgba(usize),
    /// A display is shown from a texture; the flag says whether it is one of the graphics card.
    Texture(usize, bool),
}

/// What an event says.
pub enum EventView {
    Event(Seq<char>),
    Rgba(usize),
    Texture(usize, bool),
}

impl View for EventToUI {
    type V = EventView;

    open spec fn view(&self) -> EventView {
        match *self {
            EventToUI::Event(text) => EventView::Event(text@),
            EventToUI::Rgba(display) => EventView::Rgba(display),
            EventToUI::Texture(display, gpu) => EventView::Texture(display, gpu),
        }
    }
}

/// An event and the stream that it goes to.
#[derive(Debug, PartialEq, Eq, Clone)]
pub struct Delivery {
    pub stream: StreamId,
    pub event: EventToUI,
}

/// What is delivered where.
pub struct DeliveryView {
    pub stream: StreamId,
    pub event: EventView,
}

impl View for Delivery {
    type V = DeliveryView;

    open spec fn view(&self) -> DeliveryView {
        DeliveryView { stream: self.stream, event: self.event@ }
    }
}

/// What a list of deliveries is.
pub open spec fn delivered(deliveries: Seq<Delivery>) -> Seq<DeliveryView> {
    deliveries.map_values(|delivery: Delivery| delivery@)
}

/// No deliveries: the user interface is told nothing.
pub(crate) fn nothing_told() -> (out: Vec<Delivery>)
    ensures
        delivered(out@) == Seq::<DeliveryView>::empty(),
{
    let out: Vec<Delivery> = Vec::new();
    assert(delivered(out@) =~= Seq::<DeliveryView>::empty());
    out
}

/// A size in pixels.
#[derive(Debug, PartialEq, Eq, Clone, Copy, Structural)]
pub struct Resolution {
    pub width: i32,
    pub height: i32,
}

/// One display of the peer.
#[derive(Debug, PartialEq, Eq, Clone, Copy, Structural)]
pub struct DisplayInfo {
    pub x: i32,
    pub y: i32,
    pub width: i32,
    pub height: i32,
    pub cursor_embedded: bool,
    /// The resolution before it was changed for the session, where it was.
    pub original_resolution: Option<Resolution>,
    /// The width divided by the scale and rounded, where the scale is known.
    pub scaled_width: Option<i32>,
}

/// What a peer can do.
#[derive(Debug, PartialEq, Eq, Clone, Copy, Structural)]
pub struct Features {
    pub privacy_mode: bool,
}

/// What a peer says of itself.
pub struct PeerInfo {
    pub username: String,
    pub hostname: String,
    pub platform: String,
    pub displays: Vec<DisplayInfo>,
    pub current_display: i32,
    pub sas_enabled: bool,
    pub version: String,
    pub features: Option<Features>,
    pub resolutions: Vec<Resolution>,
    /// A JSON object with what else the platform offers.
    pub platform_additions: String,
}

/// What a peer is.
pub struct PeerInfoView {
    pub username: Seq<char>,
    pub hostname: Seq<char>,
    pub platform: Seq<char>,
    pub displays: Seq<DisplayInfo>,
    pub current_display: i32,
    pub sas_enabled: bool,
    pub version: Seq<char>,
    pub features: Option<Features>,
    pub resolutions: Seq<Resolution>,
    pub platform_additions: Seq<char>,
}

impl View for PeerInfo {
    type V = PeerInfoView;

    open spec fn view(&self) -> PeerInfoView {
        PeerInfoView {
            username: self.username@,
            hostname: self.hostname@,
            platform: self.platform@,
            displays: self.displays@,
            current_display: self.current_display,
            sas_enabled: self.sas_enabled,
            version: self.version@,
            features: self.features,
            resolutions: self.resolutions@,
            platform_additions: self.platform_additions@,
        }
    }
}

impl PeerInfoView {
    /// Nothing is known of the peer yet.
    pub open spec fn unknown() -> PeerInfoView {
        PeerInfoView {
            username: Seq::empty(),
            hostname: Seq::empty(),
            platform: Seq::empty(),
            displays: Seq::empty(),
            current_display: 0,
            sas_enabled: false,
            version: Seq::empty(),
            features: None,
            resolutions: Seq::empty(),
            platform_additions: Seq::empty(),
        }
    }
}

/// A copy of a list of displays.
pub(crate) fn copy_displays(displays: &Vec<DisplayInfo>) -> (copy: Vec<DisplayInfo>)
    ensures
        copy@ == displays@,
{
    let copy = displays.clone();
    assert(copy@ =~= displays@);
    copy
}

impl PeerInfo {
    pub fn new() -> (info: PeerInfo)
        ensures
            info@ == PeerInfoView::unknown(),
    {
        PeerInfo {
            username: String::new(),
            hostname: String::new(),
            platform: String::new(),
            displays: Vec::new(),
            current_display: 0,
            sas_enabled: false,
            version: String::new(),
            features: None,
            resolutions: Vec::new(),
            platform_additions: String::new(),
        }
    }

    /// A copy.
    pub fn duplicate(&self) -> (copy: PeerInfo)
        ensures
            copy@ == self@,
    {
        let resolutions = self.resolutions.clone();
        assert(resolutions@ =~= self.resolutions@);
        PeerInfo {
            username: self.username.clone(),
            hostname: self.hostname.clone(),
            platform: self.platform.clone(),
            displays: copy_displays(&self.displays),
            current_display: self.current_display,
            sas_enabled: self.sas_enabled,
            version: self.version.clone(),
            features: self.features,
            resolutions,
            platform_additions: self.platform_additions.clone(),
        }
    }
}

/// A file or a directory of a listing.
pub struct FileEntry {
    /// 0 for a directory, 2 for a link to one, 3 for a drive, 4 for a file, 5 for a link to one.
    pub entry_type: i32,
    pub name: String,
    pub is_hidden: bool,
    pub size: u64,
    pub modified_time: u64,
}

/// Where the peer's cursor is.
#[derive(Debug, PartialEq, Eq, Clone, Copy, Structural)]
pub struct CursorPosition {
    pub x: i32,
    pub y: i32,
}

/// A session of the peer's system that can be joined.
pub struct WindowsSession {
    pub sid: u32,
    pub name: String,
}

/// The peer shows another display.
pub struct SwitchDisplay {
    pub display: i32,
    pub x: i32,
    pub y: i32,
    pub width: i32,
    pub height: i32,
    pub cursor_embedded: bool,
    pub resolutions: Vec<Resolution>,
    pub original_resolution: Resolution,
}

/// A terminal on the peer was opened, or not.
pub struct TerminalOpened {
    pub terminal_id: i32,
    pub success: bool,
    pub message: String,
    pub pid: u32,
    pub service_id: String,
    pub replay_terminal_output: bool,
    /// The terminals that were left open.
    pub persistent_sessions: Vec<i32>,
}

/// What a terminal on the peer answers.
pub enum TerminalResponse {
    Opened(TerminalOpened),
    /// Output: the terminal, the bytes, and whether they are compressed.
    Data(i32, Vec<u8>, bool),
    /// The terminal and its exit code.
    Closed(i32, i32),
    /// The terminal and a message.
    Error(i32, String),
    /// An answer that carries nothing.
    Missing,
    /// An answer of a kind that is not known.
    Unknown,
}

/// A text, or nothing where there is none.
pub(crate) fn text_or_empty(text: &Option<String>) -> (shown: String)
    ensures
        shown@ == match opt_text(*text) {
            Some(t) => t,
            None => Seq::empty(),
        },
{
    match text {
        Some(t) => t.clone(),
        None => String::new(),
    }
}

/// The phones are Android and iOS; everything else is a computer.
pub proof fn lemma_mobile(platform: Platform)
    ensures
        match platform {
            Platform::Android | Platform::Ios => platform.mobile(),
            Platform::Windows | Platform::MacOs | Platform::Linux => !platform.mobile(),
        },
{
}

/// A list of deliveries says of each one, in its place, which stream gets which event.
pub proof fn lemma_delivered(deliveries: Seq<Delivery>, i: int)
    requires
        0 <= i < deliveries.len(),
    ensures
        delivered(deliveries).len() == deliveries.len(),
        delivered(deliveries)[i].stream == deliveries[i].stream,
        match deliveries[i].event {
            EventToUI::Event(text) => delivered(deliveries)[i].event == EventView::Event(text@),
            EventToUI::Rgba(display) => delivered(deliveries)[i].event == EventView::Rgba(display),
            EventToUI::Texture(display, gpu) => delivered(deliveries)[i].event
                == EventView::Texture(display, gpu),
        },
{
}

/// Of a peer that said nothing yet nothing is known.
pub proof fn lemma_unknown_peer()
    ensures
        PeerInfoView::unknown().username.len() == 0,
        PeerInfoView::unknown().hostname.len() == 0,
        PeerInfoView::unknown().platform.len() == 0,
        PeerInfoView::unknown().displays.len() == 0,
        PeerInfoView::unknown().current_display == 0,
        !PeerInfoView::unknown().sas_enabled,
        PeerInfoView::unknown().version.len() == 0,
        PeerInfoView::unknown().features is None,
        PeerInfoView::unknown().resolutions.len() == 0,
        PeerInfoView::unknown().platform_additions.len() == 0,
{
}

}
