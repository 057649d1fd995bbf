//! Which texture of the user interface shows which display of the peer.

use crate::image::ImageRgb;
use crate::table::{
    lemma_lookup_absent, lemma_lookup_at, lemma_lookup_put, lemma_lookup_without, lemma_put_at,
    lemma_put_new, lemma_without_absent, lemma_without_at, lookup, put, without, Table,
};
use vstd::prelude::*;

verus! {

/// The address of a texture that the user interface handed over; 0 stands for none.
pub type TextureRgbaPtr = usize;

/// How the last frame of a display was shown.
#[derive(Debug, PartialEq, Eq, Clone, Copy, Structural)]
pub enum RenderType {
    PixelBuffer,
    Texture,
}

/// What the user interface has registered for one display.
#[derive(Clone, Copy)]
pub struct DisplaySessionInfo {
    pub texture_rgba_ptr: TextureRgbaPtr,
    pub size: (usize, usize),
    pub gpu_output_ptr: usize,
    /// The render type that the user interface was last told of.
    pub notify_render_type: Option<RenderType>,
}

impl View for DisplaySessionInfo {
    type V = DisplaySessionInfo;

    open spec fn view(&self) -> DisplaySessionInfo {
        *self
    }
}

/// A display for which nothing is registered yet.
pub open spec fn fresh_display() -> DisplaySessionInfo {
    DisplaySessionInfo {
        texture_rgba_ptr: 0,
        size: (0, 0),
        gpu_output_ptr: 0,
        notify_render_type: None,
    }
}

/// The video textures of one session of the user interface.
pub struct VideoRenderer {
    pub is_support_multi_ui_session: bool,
    pub map_display_sessions: Table<usize, DisplaySessionInfo>,
}

/// What a renderer knows: its displays, in the order in which they were registered.
pub struct VideoRendererView {
    pub is_support_multi_ui_session: bool,
    pub displays: Seq<(usize, DisplaySessionInfo)>,
}

impl View for VideoRenderer {
    type V = VideoRendererView;

    open spec fn view(&self) -> VideoRendererView {
        VideoRendererView {
            is_support_multi_ui_session: self.is_support_multi_ui_session,
            displays: self.map_display_sessions@,
        }
    }
}

impl VideoRendererView {
    /// A renderer without displays.
    pub open spec fn empty() -> VideoRendererView {
        VideoRendererView { is_support_multi_ui_session: false, displays: Seq::empty() }
    }

    /// No display is registered twice.
    pub open spec fn wf(self) -> bool {
        crate::table::distinct_keys(self.displays)
    }

    /// What is registered for `display`, or a fresh display.
    pub open spec fn info(self, display: usize) -> DisplaySessionInfo {
        match lookup(self.displays, display) {
            Some(info) => info,
            None => fresh_display(),
        }
    }

    /// The same renderer with `info` registered for `display`.
    pub open spec fn with(self, display: usize, info: DisplaySessionInfo) -> VideoRendererView {
        VideoRendererView { displays: put(self.displays, display, info), ..self }
    }

    /// The same renderer with nothing registered for `display`.
    pub open spec fn forget(self, display: usize) -> VideoRendererView {
        VideoRendererView { displays: without(self.displays, display), ..self }
    }

    pub open spec fn set_size(self, display: usize, width: usize, height: usize) -> VideoRendererView {
        self.with(
            display,
            DisplaySessionInfo {
                size: (width, height),
                notify_render_type: None,
                ..self.info(display)
            },
        )
    }

    pub open spec fn register_pixelbuffer_texture(
        self,
        display: usize,
        ptr: usize,
    ) -> VideoRendererView {
        if ptr != 0 {
            self.with(
                display,
                DisplaySessionInfo {
                    texture_rgba_ptr: ptr,
                    notify_render_type: None,
                    ..self.info(display)
                },
            )
        } else if self.info(display).gpu_output_ptr != 0 {
            self.with(display, DisplaySessionInfo { texture_rgba_ptr: 0, ..self.info(display) })
        } else {
            self.forget(display)
        }
    }

    pub open spec fn register_gpu_output(self, display: usize, ptr: usize) -> VideoRendererView {
        if ptr != 0 {
            self.with(
                display,
                DisplaySessionInfo {
                    gpu_output_ptr: ptr,
                    notify_render_type: None,
                    ..self.info(display)
                },
            )
        } else if self.info(display).texture_rgba_ptr != 0 {
            self.with(display, DisplaySessionInfo { gpu_output_ptr: 0, ..self.info(display) })
        } else {
            self.forget(display)
        }
    }

    /// The registered display that a frame of `display` goes to: `display` itself with a peer that
    /// serves several sessions, else the display that was registered first.
    pub open spec fn target(self, display: usize) -> Option<usize> {
        if self.is_support_multi_ui_session {
            if lookup(self.displays, display) is Some {
                Some(display)
            } else {
                None
            }
        } else if self.displays.len() > 0 {
            Some(self.displays[0].0)
        } else {
            None
        }
    }

    /// The display whose texture takes a frame of `width` by `height` pixels: one with a texture,
    /// and of that size unless its size is not known yet.
    pub open spec fn rgba_target(self, display: usize, width: usize, height: usize) -> Option<
        usize,
    > {
        match self.target(display) {
            Some(d) => if self.info(d).texture_rgba_ptr != 0 && (self.info(d).size == (
                width,
                height,
            ) || self.info(d).size == (0usize, 0usize)) {
                Some(d)
            } else {
                None
            },
            None => None,
        }
    }

    /// The display whose output takes a texture.
    pub open spec fn texture_target(self, display: usize) -> Option<usize> {
        match self.target(display) {
            Some(d) => if self.info(d).gpu_output_ptr != 0 {
                Some(d)
            } else {
                None
            },
            None => None,
        }
    }

    /// The same renderer after the user interface was told how a display is shown.
    pub open spec fn notified(self, target: Option<usize>, render_type: RenderType) -> VideoRendererView {
        match target {
            Some(d) => self.with(
                d,
                DisplaySessionInfo { notify_render_type: Some(render_type), ..self.info(d) },
            ),
            None => self,
        }
    }

    /// Whether the user interface has still to be told how a display is shown.
    pub open spec fn news(self, target: Option<usize>, render_type: RenderType) -> bool {
        match target {
            Some(d) => self.info(d).notify_render_type != Some(render_type),
            None => false,
        }
    }

    pub open spec fn reset(self) -> VideoRendererView {
        VideoRendererView {
            displays: self.displays.map_values(
                |entry: (usize, DisplaySessionInfo)|
                    (entry.0, DisplaySessionInfo { notify_render_type: None, ..entry.1 }),
            ),
            ..self
        }
    }
}

/// What a frame asks for: the registered address that takes it, if any, and whether the user
/// interface has to be told.
#[derive(Debug, PartialEq, Eq, Clone, Copy)]
pub struct RenderStep {
    pub target: Option<usize>,
    pub notify: bool,
}

impl Default for VideoRenderer {
    fn default() -> (value: VideoRenderer)
        ensures
            value@ == VideoRendererView::empty(),
    {
        VideoRenderer::new()
    }
}

impl VideoRenderer {
    pub open spec fn wf(&self) -> bool {
        self@.wf()
    }

    pub fn new() -> (renderer: VideoRenderer)
        ensures
            renderer@ == VideoRendererView::empty(),
            renderer.wf(),
    {
        VideoRenderer { is_support_multi_ui_session: false, map_display_sessions: Table::new() }
    }

    /// What is registered for `display`, or a fresh display.
    fn info(&self, display: usize) -> (info: DisplaySessionInfo)
        requires
            self.wf(),
        ensures
            info == self@.info(display),
    {
        match self.map_display_sessions.get(&display) {
            Some(info) => *info,
            None => DisplaySessionInfo {
                texture_rgba_ptr: 0,
                size: (0, 0),
                gpu_output_ptr: 0,
                notify_render_type: None,
            },
        }
    }

    /// Notes the size of a display; the user interface is told anew how it is shown.
    pub fn set_size(&mut self, display: usize, width: usize, height: usize)
        requires
            old(self).wf(),
        ensures
            final(self)@ == old(self)@.set_size(display, width, height),
            final(self).wf(),
    {
        let info = self.info(display);
        self.map_display_sessions.insert(
            display,
            DisplaySessionInfo { size: (width, height), notify_render_type: None, ..info },
        );
    }

    /// Registers the texture for a display's frames, or takes it back with 0. A display for which
    /// nothing is left is forgotten.
    pub fn register_pixelbuffer_texture(&mut self, display: usize, ptr: usize)
        requires
            old(self).wf(),
        ensures
            final(self)@ == old(self)@.register_pixelbuffer_texture(display, ptr),
            final(self).wf(),
    {
        let info = self.info(display);
        if ptr != 0 {
            self.map_display_sessions.insert(
                display,
                DisplaySessionInfo { texture_rgba_ptr: ptr, notify_render_type: None, ..info },
            );
        } else if info.gpu_output_ptr != 0 {
            self.map_display_sessions.insert(
                display,
                DisplaySessionInfo { texture_rgba_ptr: 0, ..info },
            );
        } else {
            self.map_display_sessions.remove(&display);
        }
    }

    /// Registers the output for a display's textures, or takes it back with 0. A display for which
    /// nothing is left is forgotten.
    pub fn register_gpu_output(&mut self, display: usize, ptr: usize)
        requires
            old(self).wf(),
        ensures
            final(self)@ == old(self)@.register_gpu_output(display, ptr),
            final(self).wf(),
    {
        let info = self.info(display);
        if ptr != 0 {
            self.map_display_sessions.insert(
                display,
                DisplaySessionInfo { gpu_output_ptr: ptr, notify_render_type: None, ..info },
            );
        } else if info.texture_rgba_ptr != 0 {
            self.map_display_sessions.insert(
                display,
                DisplaySessionInfo { gpu_output_ptr: 0, ..info },
            );
        } else {
            self.map_display_sessions.remove(&display);
        }
    }

    /// The registered display that a frame of `display` goes to.
    fn target(&self, display: usize) -> (target: Option<usize>)
        requires
            self.wf(),
        ensures
            target == self@.target(display),
    {
        if self.is_support_multi_ui_session {
            if self.map_display_sessions.contains_key(&display) {
                Some(display)
            } else {
                None
            }
        } else if self.map_display_sessions.len() > 0 {
            Some(*self.map_display_sessions.key_at(0))
        } else {
            None
        }
    }

    /// Notes how a display is shown and says whether that is news to the user interface.
    fn notify(&mut self, display: usize, info: DisplaySessionInfo, render_type: RenderType) -> (news:
        bool)
        requires
            old(self).wf(),
            lookup(old(self)@.displays, display) == Some(info),
        ensures
            final(self)@ == old(self)@.notified(Some(display), render_type),
            final(self).wf(),
            news == old(self)@.news(Some(display), render_type),
    {
        let news = match info.notify_render_type {
            Some(known) => known != render_type,
            None => true,
        };
        self.map_display_sessions.insert(
            display,
            DisplaySessionInfo { notify_render_type: Some(render_type), ..info },
        );
        news
    }

    /// A frame of `display` has come: the texture that takes it, and whether the user interface has
    /// to be told that the display is now shown from a pixel buffer.
    pub fn on_rgba(&mut self, display: usize, rgba: &ImageRgb) -> (step: RenderStep)
        requires
            old(self).wf(),
        ensures
            final(self).wf(),
            ({
                let target = old(self)@.rgba_target(display, rgba.w, rgba.h);
                &&& final(self)@ == old(self)@.notified(target, RenderType::PixelBuffer)
                &&& step.notify == old(self)@.news(target, RenderType::PixelBuffer)
                &&& step.target == match target {
                    Some(d) => Some(old(self)@.info(d).texture_rgba_ptr),
                    None => None,
                }
            }),
    {
        if let Some(d) = self.target(display) {
            proof {
                lemma_target_known(self@, display);
            }
            let info = self.info(d);
            if info.texture_rgba_ptr != 0 {
                let known = info.size.0 != 0 || info.size.1 != 0;
                if (info.size.0 != rgba.w || info.size.1 != rgba.h) && known {
                    return RenderStep { target: None, notify: false };
                }
                let notify = self.notify(d, info, RenderType::PixelBuffer);
                return RenderStep { target: Some(info.texture_rgba_ptr), notify };
            }
        }
        RenderStep { target: None, notify: false }
    }

    /// A texture for `display` has come: the output that takes it, and whether the user interface
    /// has to be told that the display is now shown from a texture.
    pub fn on_texture(&mut self, display: usize) -> (step: RenderStep)
        requires
            old(self).wf(),
        ensures
            final(self).wf(),
            ({
                let target = old(self)@.texture_target(display);
                &&& final(self)@ == old(self)@.notified(target, RenderType::Texture)
                &&& step.notify == old(self)@.news(target, RenderType::Texture)
                &&& step.target == match target {
                    Some(d) => Some(old(self)@.info(d).gpu_output_ptr),
                    None => None,
                }
            }),
    {
        if let Some(d) = self.target(display) {
            proof {
                lemma_target_known(self@, display);
            }
            let info = self.info(d);
            if info.gpu_output_ptr != 0 {
                let notify = self.notify(d, info, RenderType::Texture);
                return RenderStep { target: Some(info.gpu_output_ptr), notify };
            }
        }
        RenderStep { target: None, notify: false }
    }

    /// Forgets what the user interface was told, so that it is told again.
    pub fn reset_all_display_render_type(&mut self)
        requires
            old(self).wf(),
        ensures
            final(self)@ == old(self)@.reset(),
            final(self).wf(),
    {
        let mut i: usize = 0;
        let ghost goal = old(self)@.reset().displays;
        while i < self.map_display_sessions.len()
            invariant
                i <= self@.displays.len(),
                self.wf(),
                goal == old(self)@.reset().displays,
                self@.displays.len() == old(self)@.displays.len(),
                self@.is_support_multi_ui_session == old(self)@.is_support_multi_ui_session,
                forall|j: int| 0 <= j < i ==> self@.displays[j] == goal[j],
                forall|j: int| i <= j < goal.len() ==> self@.displays[j] == old(self)@.displays[j],
            decreases self@.displays.len() - i,
        {
            let info = self.map_display_sessions.value_at_mut(i);
            info.notify_render_type = None;
            i += 1;
        }
        assert(self@.displays =~= goal);
    }
}

proof fn lemma_target_known(renderer: VideoRendererView, display: usize)
    requires
        renderer.wf(),
        renderer.target(display) is Some,
    ensures
        lookup(renderer.displays, renderer.target(display).unwrap()) == Some(
            renderer.info(renderer.target(display).unwrap()),
        ),
{
    if !renderer.is_support_multi_ui_session {
        lemma_lookup_at(renderer.displays, 0);
    }
}

/// The user interface is told once how a display is shown: the same display takes the next frame of
/// the same size, and that is no news.
pub proof fn lemma_frame_is_news_once(
    renderer: VideoRendererView,
    display: usize,
    width: usize,
    height: usize,
)
    requires
        renderer.wf(),
    ensures
        ({
            let target = renderer.rgba_target(display, width, height);
            let after = renderer.notified(target, RenderType::PixelBuffer);
            &&& after.rgba_target(display, width, height) == target
            &&& !after.news(target, RenderType::PixelBuffer)
        }),
{
    let target = renderer.rgba_target(display, width, height);
    if target is Some {
        lemma_target_known(renderer, display);
        lemma_notified_target(renderer, display, RenderType::PixelBuffer);
    }
}

/// The user interface is told once that a display is shown from textures.
pub proof fn lemma_texture_is_news_once(renderer: VideoRendererView, display: usize)
    requires
        renderer.wf(),
    ensures
        ({
            let target = renderer.texture_target(display);
            let after = renderer.notified(target, RenderType::Texture);
            &&& after.texture_target(display) == target
            &&& !after.news(target, RenderType::Texture)
        }),
{
    if renderer.texture_target(display) is Some {
        lemma_target_known(renderer, display);
        lemma_notified_target(renderer, display, RenderType::Texture);
    }
}

/// Noting how a display is shown changes neither which display takes a frame nor anything else that
/// is known of it.
proof fn lemma_notified_target(renderer: VideoRendererView, display: usize, render_type: RenderType)
    requires
        renderer.wf(),
        renderer.target(display) is Some,
    ensures
        ({
            let d = renderer.target(display).unwrap();
            let after = renderer.notified(Some(d), render_type);
            &&& after.target(display) == Some(d)
            &&& after.info(d) == (DisplaySessionInfo {
                notify_render_type: Some(render_type),
                ..renderer.info(d)
            })
        }),
{
    let d = renderer.target(display).unwrap();
    lemma_target_known(renderer, display);
    let told = DisplaySessionInfo {
        notify_render_type: Some(render_type),
        ..renderer.info(d)
    };
    lemma_lookup_put(renderer.displays, d, told, d);
    lemma_lookup_put(renderer.displays, d, told, display);
    if !renderer.is_support_multi_ui_session {
        lemma_put_at(renderer.displays, 0, told);
    }
}

proof fn lemma_reset_lookup(displays: Seq<(usize, DisplaySessionInfo)>, display: usize)
    ensures
        lookup(
            displays.map_values(
                |entry: (usize, DisplaySessionInfo)|
                    (entry.0, DisplaySessionInfo { notify_render_type: None, ..entry.1 }),
            ),
            display,
        ) == match lookup(displays, display) {
            Some(info) => Some(DisplaySessionInfo { notify_render_type: None, ..info }),
            None => None,
        },
    decreases displays.len(),
{
    let clear = |entry: (usize, DisplaySessionInfo)|
        (entry.0, DisplaySessionInfo { notify_render_type: None, ..entry.1 });
    let after = displays.map_values(clear);
    if displays.len() > 0 {
        lemma_reset_lookup(displays.drop_last(), display);
        assert(after.drop_last() =~= displays.drop_last().map_values(clear));
    }
}

/// After a reset every frame that a display takes is news again, and goes where it went before.
pub proof fn lemma_reset_makes_news(
    renderer: VideoRendererView,
    display: usize,
    width: usize,
    height: usize,
    render_type: RenderType,
)
    requires
        renderer.wf(),
    ensures
        renderer.reset().rgba_target(display, width, height) == renderer.rgba_target(
            display,
            width,
            height,
        ),
        renderer.reset().texture_target(display) == renderer.texture_target(display),
        renderer.target(display) is Some ==> renderer.reset().news(
            renderer.target(display),
            render_type,
        ),
{
    lemma_reset_lookup(renderer.displays, display);
    if let Some(d) = renderer.target(display) {
        lemma_target_known(renderer, display);
        lemma_reset_lookup(renderer.displays, d);
    }
}

/// A size, or a texture, that is set for a display makes its next frame news.
pub proof fn lemma_setting_makes_news(
    renderer: VideoRendererView,
    display: usize,
    width: usize,
    height: usize,
    ptr: usize,
    render_type: RenderType,
)
    requires
        ptr != 0,
    ensures
        renderer.set_size(display, width, height).news(Some(display), render_type),
        renderer.register_pixelbuffer_texture(display, ptr).news(Some(display), render_type),
        renderer.register_gpu_output(display, ptr).news(Some(display), render_type),
{
    let info = renderer.info(display);
    lemma_lookup_put(
        renderer.displays,
        display,
        DisplaySessionInfo { size: (width, height), notify_render_type: None, ..info },
        display,
    );
    lemma_lookup_put(
        renderer.displays,
        display,
        DisplaySessionInfo { texture_rgba_ptr: ptr, notify_render_type: None, ..info },
        display,
    );
    lemma_lookup_put(
        renderer.displays,
        display,
        DisplaySessionInfo { gpu_output_ptr: ptr, notify_render_type: None, ..info },
        display,
    );
}

/// Registering a texture for a new display and taking it back leaves the renderer as it was.
pub proof fn lemma_register_then_take_back(renderer: VideoRendererView, display: usize, ptr: usize)
    requires
        ptr != 0,
        lookup(renderer.displays, display) is None,
    ensures
        renderer.register_pixelbuffer_texture(display, ptr).register_pixelbuffer_texture(
            display,
            0,
        ) == renderer,
        renderer.register_gpu_output(display, ptr).register_gpu_output(display, 0) == renderer,
{
    let rgba = DisplaySessionInfo {
        texture_rgba_ptr: ptr,
        notify_render_type: None,
        ..renderer.info(display)
    };
    let gpu = DisplaySessionInfo {
        gpu_output_ptr: ptr,
        notify_render_type: None,
        ..renderer.info(display)
    };
    lemma_new_then_without(renderer.displays, display, rgba);
    lemma_new_then_without(renderer.displays, display, gpu);
    lemma_lookup_put(renderer.displays, display, rgba, display);
    lemma_lookup_put(renderer.displays, display, gpu, display);
}

proof fn lemma_new_then_without(
    displays: Seq<(usize, DisplaySessionInfo)>,
    display: usize,
    info: DisplaySessionInfo,
)
    requires
        lookup(displays, display) is None,
    ensures
        without(put(displays, display, info), display) == displays,
{
    lemma_put_new(displays, display, info);
    reveal(Seq::filter);
    lemma_without_absent(displays, display);
    let more = displays.push((display, info));
    assert(more.drop_last() =~= displays);
    assert(without(more, display) =~= displays);
}

/// What is set for one display leaves the others alone.
pub proof fn lemma_displays_are_independent(
    renderer: VideoRendererView,
    display: usize,
    width: usize,
    height: usize,
    ptr: usize,
    other: usize,
)
    requires
        other != display,
    ensures
        lookup(renderer.set_size(display, width, height).displays, other) == lookup(
            renderer.displays,
            other,
        ),
        lookup(renderer.register_pixelbuffer_texture(display, ptr).displays, other) == lookup(
            renderer.displays,
            other,
        ),
        lookup(renderer.register_gpu_output(display, ptr).displays, other) == lookup(
            renderer.displays,
            other,
        ),
{
    let info = renderer.info(display);
    let displays = renderer.displays;
    lemma_lookup_without(displays, display, other);
    lemma_lookup_put(
        displays,
        display,
        DisplaySessionInfo { size: (width, height), notify_render_type: None, ..info },
        other,
    );
    lemma_lookup_put(
        displays,
        display,
        DisplaySessionInfo { texture_rgba_ptr: ptr, notify_render_type: None, ..info },
        other,
    );
    lemma_lookup_put(displays, display, DisplaySessionInfo { texture_rgba_ptr: 0, ..info }, other);
    lemma_lookup_put(
        displays,
        display,
        DisplaySessionInfo { gpu_output_ptr: ptr, notify_render_type: None, ..info },
        other,
    );
    lemma_lookup_put(displays, display, DisplaySessionInfo { gpu_output_ptr: 0, ..info }, other);
}

/// A frame goes to a display with a texture, of the frame's size or of none that is known: to its own
/// display where several sessions are served, else to the one that was registered first. Where that
/// display cannot take it, none does.
pub proof fn lemma_rgba_target(
    renderer: VideoRendererView,
    display: usize,
    width: usize,
    height: usize,
)
    requires
        renderer.wf(),
    ensures
        ({
            let wanted = if renderer.is_support_multi_ui_session {
                lookup(renderer.displays, display)
            } else if renderer.displays.len() > 0 {
                Some(renderer.displays.first().1)
            } else {
                None
            };
            match renderer.rgba_target(display, width, height) {
                Some(d) => {
                    &&& wanted matches Some(info) && info.texture_rgba_ptr != 0 && (info.size == (
                        width,
                        height,
                    ) || info.size == (0usize, 0usize)) && renderer.info(d) == info
                    &&& renderer.is_support_multi_ui_session ==> d == display
                    &&& !renderer.is_support_multi_ui_session ==> d == renderer.displays.first().0
                },
                None => wanted matches Some(info) ==> info.texture_rgba_ptr == 0 || (info.size != (
                    width,
                    height,
                ) && info.size != (0usize, 0usize)),
            }
        }),
{
    if renderer.displays.len() > 0 {
        lemma_lookup_at(renderer.displays, 0);
    }
}

/// A texture of the graphics card goes to a display with an output: to its own display where several
/// sessions are served, else to the one that was registered first.
pub proof fn lemma_texture_target(renderer: VideoRendererView, display: usize)
    requires
        renderer.wf(),
    ensures
        ({
            let wanted = if renderer.is_support_multi_ui_session {
                lookup(renderer.displays, display)
            } else if renderer.displays.len() > 0 {
                Some(renderer.displays.first().1)
            } else {
                None
            };
            match renderer.texture_target(display) {
                Some(d) => {
                    &&& wanted matches Some(info) && info.gpu_output_ptr != 0 && renderer.info(d)
                        == info
                    &&& renderer.is_support_multi_ui_session ==> d == display
                    &&& !renderer.is_support_multi_ui_session ==> d == renderer.displays.first().0
                },
                None => wanted matches Some(info) ==> info.gpu_output_ptr == 0,
            }
        }),
{
    if renderer.displays.len() > 0 {
        lemma_lookup_at(renderer.displays, 0);
    }
}

/// How a display is shown is news exactly where the user interface was told otherwise, or nothing;
/// what no display shows is never news.
pub proof fn lemma_news(renderer: VideoRendererView, display: usize, render_type: RenderType)
    ensures
        !renderer.news(None, render_type),
        renderer.info(display).notify_render_type is None ==> renderer.news(
            Some(display),
            render_type,
        ),
        renderer.info(display).notify_render_type matches Some(known) ==> (renderer.news(
            Some(display),
            render_type,
        ) <==> known != render_type),
{
}

/// What is known of a display is what was registered for it, and nothing for a display that was not.
pub proof fn lemma_info(renderer: VideoRendererView, display: usize)
    ensures
        lookup(renderer.displays, display) matches Some(info) ==> renderer.info(display) == info,
        lookup(renderer.displays, display) is None ==> {
            &&& renderer.info(display).texture_rgba_ptr == 0
            &&& renderer.info(display).gpu_output_ptr == 0
            &&& renderer.info(display).size == (0usize, 0usize)
            &&& renderer.info(display).notify_render_type is None
        },
{
}

/// Telling the user interface how a display is shown notes just that, of that display only.
pub proof fn lemma_notified(
    renderer: VideoRendererView,
    target: Option<usize>,
    render_type: RenderType,
    other: usize,
)
    ensures
        ({
            let after = renderer.notified(target, render_type);
            &&& after.is_support_multi_ui_session == renderer.is_support_multi_ui_session
            &&& target is None ==> after == renderer
            &&& target != Some(other) ==> lookup(after.displays, other) == lookup(
                renderer.displays,
                other,
            )
            &&& target == Some(other) ==> {
                &&& lookup(after.displays, other) is Some
                &&& after.info(other).notify_render_type == Some(render_type)
                &&& after.info(other).texture_rgba_ptr == renderer.info(other).texture_rgba_ptr
                &&& after.info(other).gpu_output_ptr == renderer.info(other).gpu_output_ptr
                &&& after.info(other).size == renderer.info(other).size
            }
        }),
{
    if let Some(d) = target {
        lemma_lookup_put(
            renderer.displays,
            d,
            DisplaySessionInfo { notify_render_type: Some(render_type), ..renderer.info(d) },
            other,
        );
    }
}

/// A size that is set is known, and what else is known of the display stays.
pub proof fn lemma_set_size(
    renderer: VideoRendererView,
    display: usize,
    width: usize,
    height: usize,
)
    ensures
        ({
            let after = renderer.set_size(display, width, height);
            &&& lookup(after.displays, display) is Some
            &&& after.info(display).size == (width, height)
            &&& after.info(display).texture_rgba_ptr == renderer.info(display).texture_rgba_ptr
            &&& after.info(display).gpu_output_ptr == renderer.info(display).gpu_output_ptr
            &&& after.is_support_multi_ui_session == renderer.is_support_multi_ui_session
        }),
{
    lemma_lookup_put(
        renderer.displays,
        display,
        DisplaySessionInfo {
            size: (width, height),
            notify_render_type: None,
            ..renderer.info(display)
        },
        display,
    );
}

/// A texture that is registered is known, and what else is known of the display stays. Taken back,
/// it is gone; a display that then has nothing to show its frames in is forgotten.
pub proof fn lemma_registered_texture(renderer: VideoRendererView, display: usize, ptr: usize)
    ensures
        ({
            let after = renderer.register_pixelbuffer_texture(display, ptr);
            &&& after.is_support_multi_ui_session == renderer.is_support_multi_ui_session
            &&& after.info(display).texture_rgba_ptr == ptr
            &&& ptr != 0 || renderer.info(display).gpu_output_ptr != 0 ==> {
                &&& lookup(after.displays, display) is Some
                &&& after.info(display).size == renderer.info(display).size
                &&& after.info(display).gpu_output_ptr == renderer.info(display).gpu_output_ptr
            }
            &&& ptr == 0 && renderer.info(display).gpu_output_ptr == 0 ==> lookup(
                after.displays,
                display,
            ) is None
            &&& ptr == 0 && renderer.info(display).gpu_output_ptr != 0 ==> after.info(
                display,
            ).notify_render_type == renderer.info(display).notify_render_type
        }),
{
    let info = renderer.info(display);
    lemma_lookup_put(
        renderer.displays,
        display,
        DisplaySessionInfo { texture_rgba_ptr: ptr, notify_render_type: None, ..info },
        display,
    );
    lemma_lookup_put(
        renderer.displays,
        display,
        DisplaySessionInfo { texture_rgba_ptr: 0, ..info },
        display,
    );
    lemma_lookup_without(renderer.displays, display, display);
}

/// An output that is registered is known, and what else is known of the display stays. Taken back,
/// it is gone; a display that then has nothing to show its frames in is forgotten.
pub proof fn lemma_registered_output(renderer: VideoRendererView, display: usize, ptr: usize)
    ensures
        ({
            let after = renderer.register_gpu_output(display, ptr);
            &&& after.is_support_multi_ui_session == renderer.is_support_multi_ui_session
            &&& after.info(display).gpu_output_ptr == ptr
            &&& ptr != 0 || renderer.info(display).texture_rgba_ptr != 0 ==> {
                &&& lookup(after.displays, display) is Some
                &&& after.info(display).size == renderer.info(display).size
                &&& after.info(display).texture_rgba_ptr == renderer.info(display).texture_rgba_ptr
            }
            &&& ptr == 0 && renderer.info(display).texture_rgba_ptr == 0 ==> lookup(
                after.displays,
                display,
            ) is None
            &&& ptr == 0 && renderer.info(display).texture_rgba_ptr != 0 ==> after.info(
                display,
            ).notify_render_type == renderer.info(display).notify_render_type
        }),
{
    let info = renderer.info(display);
    lemma_lookup_put(
        renderer.displays,
        display,
        DisplaySessionInfo { gpu_output_ptr: ptr, notify_render_type: None, ..info },
        display,
    );
    lemma_lookup_put(
        renderer.displays,
        display,
        DisplaySessionInfo { gpu_output_ptr: 0, ..info },
        display,
    );
    lemma_lookup_without(renderer.displays, display, display);
}

/// A reset keeps every display with its textures and its size, in its place, and forgets what the
/// user interface was told.
pub proof fn lemma_reset(renderer: VideoRendererView, i: int)
    requires
        0 <= i < renderer.displays.len(),
    ensures
        renderer.reset().is_support_multi_ui_session == renderer.is_support_multi_ui_session,
        renderer.reset().displays.len() == renderer.displays.len(),
        renderer.reset().displays[i].0 == renderer.displays[i].0,
        renderer.reset().displays[i].1.texture_rgba_ptr == renderer.displays[i].1.texture_rgba_ptr,
        renderer.reset().displays[i].1.gpu_output_ptr == renderer.displays[i].1.gpu_output_ptr,
        renderer.reset().displays[i].1.size == renderer.displays[i].1.size,
        renderer.reset().displays[i].1.notify_render_type is None,
{
}

/// A new renderer shows nothing and serves one session.
pub proof fn lemma_empty_renderer()
    ensures
        VideoRendererView::empty().displays.len() == 0,
        !VideoRendererView::empty().is_support_multi_ui_session,
{
}

/// A display stays where it was registered: what is set for any display, or taken back from another
/// one, leaves the first display the first.
pub proof fn lemma_first_display_stays(
    renderer: VideoRendererView,
    display: usize,
    width: usize,
    height: usize,
    ptr: usize,
)
    requires
        renderer.wf(),
        renderer.displays.len() > 0,
        ptr != 0,
    ensures
        ({
            let first = renderer.displays.first().0;
            let sized = renderer.set_size(display, width, height);
            let textured = renderer.register_pixelbuffer_texture(display, ptr);
            let output = renderer.register_gpu_output(display, ptr);
            let untextured = renderer.register_pixelbuffer_texture(display, 0);
            let no_output = renderer.register_gpu_output(display, 0);
            &&& sized.displays.len() > 0 && sized.displays.first().0 == first
            &&& textured.displays.len() > 0 && textured.displays.first().0 == first
            &&& output.displays.len() > 0 && output.displays.first().0 == first
            &&& display != first ==> untextured.displays.len() > 0 && untextured.displays.first().0
                == first
            &&& display != first ==> no_output.displays.len() > 0 && no_output.displays.first().0
                == first
        }),
{
    let info = renderer.info(display);
    lemma_put_keeps_first(
        renderer.displays,
        display,
        DisplaySessionInfo { size: (width, height), notify_render_type: None, ..info },
    );
    lemma_put_keeps_first(
        renderer.displays,
        display,
        DisplaySessionInfo { texture_rgba_ptr: ptr, notify_render_type: None, ..info },
    );
    lemma_put_keeps_first(
        renderer.displays,
        display,
        DisplaySessionInfo { gpu_output_ptr: ptr, notify_render_type: None, ..info },
    );
    lemma_put_keeps_first(
        renderer.displays,
        display,
        DisplaySessionInfo { texture_rgba_ptr: 0, ..info },
    );
    lemma_put_keeps_first(
        renderer.displays,
        display,
        DisplaySessionInfo { gpu_output_ptr: 0, ..info },
    );
    lemma_lookup_absent(renderer.displays, display);
    if lookup(renderer.displays, display) is None {
        lemma_without_absent(renderer.displays, display);
    } else {
        let i = choose|i: int|
            0 <= i < renderer.displays.len() && (#[trigger] renderer.displays[i]).0 == display;
        lemma_without_at(renderer.displays, i);
    }
}

proof fn lemma_put_keeps_first(
    displays: Seq<(usize, DisplaySessionInfo)>,
    display: usize,
    info: DisplaySessionInfo,
)
    requires
        crate::table::distinct_keys(displays),
        displays.len() > 0,
    ensures
        put(displays, display, info).len() > 0,
        put(displays, display, info).first().0 == displays.first().0,
{
    lemma_lookup_absent(displays, display);
    if lookup(displays, display) is None {
        lemma_put_new(displays, display, info);
    } else {
        let i = choose|i: int| 0 <= i < displays.len() && (#[trigger] displays[i]).0 == display;
        lemma_put_at(displays, i, info);
    }
}

}
