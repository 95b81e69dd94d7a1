//! Showing frames in a window: which frame is shown, and what the graphics
//! library is set up with.

use vstd::prelude::*;

use crate::capture::Frame;

verus! {

/// A pixel format that a surface offers.
#[derive(Clone, Copy, Debug, PartialEq, Eq, Structural)]
pub enum SurfaceFormat {
    /// Four bytes a pixel: blue, green, red, alpha, as frames have them.
    Bgra8Unorm,
    /// Another one.
    Other,
}

/// What a surface is set up with.
#[derive(Clone, Copy, Debug, PartialEq, Eq, Structural)]
pub struct SurfaceConfig {
    /// Which of the formats that the surface offers.
    pub format: usize,
    /// Which of the ways of blending that the surface offers.
    pub alpha_mode: usize,
    pub width: u32,
    pub height: u32,
    /// How many frames may wait to be shown.
    pub frame_latency: u32,
}

/// Whether `place` is the one to take of the formats on offer: the first that is
/// laid out like a frame, or the first of all if there is none.
pub open spec fn is_best_format(formats: Seq<SurfaceFormat>, place: int) -> bool {
    if formats.contains(SurfaceFormat::Bgra8Unorm) {
        &&& 0 <= place < formats.len()
        &&& formats[place] == SurfaceFormat::Bgra8Unorm
        &&& forall|i: int| 0 <= i < place ==> formats[i] != SurfaceFormat::Bgra8Unorm
    } else {
        place == 0
    }
}

fn best_format(formats: &Vec<SurfaceFormat>) -> (place: usize)
    requires
        formats@.len() > 0,
    ensures
        is_best_format(formats@, place as int),
        place < formats@.len(),
{
    let mut i: usize = 0;
    while i < formats.len()
        invariant
            i <= formats@.len(),
            formats@.len() > 0,
            forall|j: int| 0 <= j < i ==> formats@[j] != SurfaceFormat::Bgra8Unorm,
        decreases formats@.len() - i,
    {
        if formats[i] == SurfaceFormat::Bgra8Unorm {
            assert(formats@.contains(formats@[i as int]));
            return i;
        }
        i = i + 1;
    }
    0
}

/// `n`, but at least one.
pub open spec fn at_least_one(n: u32) -> u32 {
    if n == 0 {
        1
    } else {
        n
    }
}

/// How a frame gets to the graphics library.
#[derive(Clone, Copy, Debug, PartialEq, Eq, Structural)]
pub enum TextureUpdate {
    /// In a new texture of this size.
    Recreate { width: u32, height: u32 },
    /// Into the texture that is there.
    Write { bytes_per_row: u32, width: u32, height: u32 },
}

/// What the graphics library holds.
#[derive(Clone, Copy, Debug, PartialEq, Eq, Structural)]
pub struct GpuState {
    /// What the surface is set up with.
    pub config: SurfaceConfig,
    /// The size of the texture.
    pub tex_width: u32,
    pub tex_height: u32,
}

impl GpuState {
    /// The surface has an area.
    pub open spec fn well_formed(&self) -> bool {
        self.config.width > 0 && self.config.height > 0
    }

    /// What to set up for a window of this size on a surface that offers these
    /// formats and this many ways of blending, with a texture for a first frame.
    pub fn new(
        window_width: u32,
        window_height: u32,
        formats: &Vec<SurfaceFormat>,
        alpha_modes: usize,
        frame: &Frame,
    ) -> (gpu: GpuState)
        requires
            formats@.len() > 0,
            alpha_modes > 0,
        ensures
            gpu.well_formed(),
            is_best_format(formats@, gpu.config.format as int),
            gpu.config.format < formats@.len(),
            gpu.config.alpha_mode == 0,
            gpu.config.width == at_least_one(window_width),
            gpu.config.height == at_least_one(window_height),
            window_width > 0 ==> gpu.config.width == window_width,
            window_height > 0 ==> gpu.config.height == window_height,
            window_width == 0 ==> gpu.config.width == 1,
            window_height == 0 ==> gpu.config.height == 1,
            gpu.config.frame_latency == 2,
            gpu.tex_width == frame.width,
            gpu.tex_height == frame.height,
    {
        let width: u32 = if window_width == 0 {
            1
        } else {
            window_width
        };
        let height: u32 = if window_height == 0 {
            1
        } else {
            window_height
        };
        GpuState {
            config: SurfaceConfig {
                format: best_format(formats),
                alpha_mode: 0,
                width,
                height,
                frame_latency: 2,
            },
            tex_width: frame.width,
            tex_height: frame.height,
        }
    }

    /// How a frame gets to the graphics library: into the texture if it has its
    /// size, in a new one if not.
    pub open spec fn update_for(&self, width: u32, height: u32) -> TextureUpdate {
        if width != self.tex_width || height != self.tex_height {
            TextureUpdate::Recreate { width, height }
        } else {
            TextureUpdate::Write { bytes_per_row: (width * 4) as u32, width, height }
        }
    }

    /// Takes a frame to show: says how it gets to the graphics library.
    pub fn update_frame(&mut self, frame: &Frame) -> (update: TextureUpdate)
        requires
            frame.width * 4 <= u32::MAX,
        ensures
            update == old(self).update_for(frame.width, frame.height),
            update is Write <==> frame.width == old(self).tex_width && frame.height == old(
                self,
            ).tex_height,
            *final(self) == (GpuState {
                tex_width: frame.width,
                tex_height: frame.height,
                ..*old(self)
            }),
    {
        if frame.width != self.tex_width || frame.height != self.tex_height {
            self.tex_width = frame.width;
            self.tex_height = frame.height;
            TextureUpdate::Recreate { width: frame.width, height: frame.height }
        } else {
            TextureUpdate::Write {
                bytes_per_row: frame.width * 4,
                width: frame.width,
                height: frame.height,
            }
        }
    }

    /// What is held after the window has taken another size.
    pub open spec fn resized(self, w: u32, h: u32) -> GpuState {
        if w == 0 || h == 0 {
            self
        } else {
            GpuState { config: SurfaceConfig { width: w, height: h, ..self.config }, ..self }
        }
    }

    /// Takes another size of the window, and says whether the surface is to be set
    /// up anew.  A window without an area changes nothing.
    pub fn resize(&mut self, w: u32, h: u32) -> (reconfigure: bool)
        ensures
            *final(self) == old(self).resized(w, h),
            w != 0 && h != 0 ==> final(self).config.width == w && final(self).config.height == h,
            w == 0 || h == 0 ==> *final(self) == *old(self),
            reconfigure == (w != 0 && h != 0),
            old(self).well_formed() ==> final(self).well_formed(),
    {
        if w == 0 || h == 0 {
            return false;
        }
        self.config.width = w;
        self.config.height = h;
        true
    }
}

/// What happens to a window.
#[derive(Clone, Copy, Debug, PartialEq, Eq, Structural)]
pub enum WindowEvent {
    /// It is to be closed.
    CloseRequested,
    /// It has this size now.
    Resized { width: u32, height: u32 },
    /// It is to be drawn.
    RedrawRequested,
    /// Something else.
    Other,
}

/// What to do about a window.
pub enum WindowAction {
    /// Leave.
    Exit,
    /// Set up the surface anew.
    Reconfigure(SurfaceConfig),
    /// Draw what the texture holds.
    Redraw,
    /// Update the texture with this frame, and draw it.
    RedrawFrame(Frame, TextureUpdate),
    /// Nothing.
    Nothing,
}

/// How the window comes up.
#[derive(Clone, Copy, Debug, PartialEq, Eq, Structural)]
pub enum ResumeAction {
    /// Leave.
    Exit,
    /// Wait for a first frame, and set up the graphics library for its size.
    AwaitFrame,
    /// Go on.
    Run,
}

/// What shows frames in a window.
pub struct Renderer {
    /// The frame to show next.
    pub pending: Option<Frame>,
    /// What the graphics library holds, once it is set up.
    pub gpu: Option<GpuState>,
    /// Whether there is a window.
    pub window: bool,
}

impl Renderer {
    /// Frames that are to be shown can be measured in bytes, and the surface has an
    /// area.
    pub open spec fn well_formed(&self) -> bool {
        &&& self.pending matches Some(frame) ==> frame.width * 4 <= u32::MAX
        &&& self.gpu matches Some(gpu) ==> gpu.well_formed()
    }

    /// After these frames came, oldest first: the latest of them is the one to show
    /// next.
    pub open spec fn after_arrivals(self, arrived: Seq<Frame>) -> Renderer {
        if arrived.len() > 0 {
            Renderer { pending: Some(arrived.last()), ..self }
        } else {
            self
        }
    }

    /// After the window was drawn: the frame to show has been handed out, and the
    /// texture has its size.
    pub open spec fn after_redraw(self) -> Renderer {
        match (self.gpu, self.pending) {
            (Some(gpu), Some(frame)) => Renderer {
                pending: None,
                gpu: Some(
                    GpuState { tex_width: frame.width, tex_height: frame.height, ..gpu },
                ),
                ..self
            },
            _ => self,
        }
    }

    /// What is to be done when the window is drawn.
    pub open spec fn redraw_action(self) -> WindowAction {
        match (self.gpu, self.pending) {
            (Some(gpu), Some(frame)) => WindowAction::RedrawFrame(
                frame,
                gpu.update_for(frame.width, frame.height),
            ),
            (Some(_), None) => WindowAction::Redraw,
            (None, _) => WindowAction::Nothing,
        }
    }

    /// Without a window, without a frame.
    pub fn new() -> (renderer: Renderer)
        ensures
            renderer.well_formed(),
            renderer.pending is None,
            renderer.gpu is None,
            !renderer.window,
    {
        Renderer { pending: None, gpu: None, window: false }
    }

    /// The window was made, or could not be.
    pub fn resumed(&mut self, created: bool) -> (action: ResumeAction)
        requires
            old(self).well_formed(),
        ensures
            final(self).well_formed(),
            final(self).pending == old(self).pending,
            final(self).gpu == old(self).gpu,
            final(self).window == (old(self).window || created),
            action == if created {
                ResumeAction::AwaitFrame
            } else {
                ResumeAction::Exit
            },
    {
        if created {
            self.window = true;
            ResumeAction::AwaitFrame
        } else {
            ResumeAction::Exit
        }
    }

    /// The first frame came, and the graphics library was set up for it, or could
    /// not be.
    pub fn first_frame(&mut self, frame: Frame, gpu: Option<GpuState>) -> (action: ResumeAction)
        requires
            old(self).well_formed(),
            frame.width * 4 <= u32::MAX,
            gpu matches Some(g) ==> g.well_formed(),
        ensures
            final(self).well_formed(),
            final(self).window == old(self).window,
            match gpu {
                Some(g) => final(self).gpu == gpu && final(self).pending == Some(frame) && action
                    == ResumeAction::Run,
                None => final(self).gpu == old(self).gpu && final(self).pending == old(
                    self,
                ).pending && action == ResumeAction::Exit,
            },
    {
        match gpu {
            Some(g) => {
                self.gpu = Some(g);
                self.pending = Some(frame);
                ResumeAction::Run
            },
            None => ResumeAction::Exit,
        }
    }

    /// Takes what happens to the window, and says what to do.  A frame is handed out
    /// once, when the window is drawn.
    pub fn window_event(&mut self, event: WindowEvent) -> (action: WindowAction)
        requires
            old(self).well_formed(),
        ensures
            final(self).well_formed(),
            final(self).window == old(self).window,
            match (event, old(self).gpu) {
                (WindowEvent::CloseRequested, _) => action is Exit && *final(self) == *old(self),
                (WindowEvent::Resized { width, height }, Some(gpu)) => {
                    &&& final(self).pending == old(self).pending
                    &&& final(self).gpu == Some(gpu.resized(width, height))
                    &&& action == if width == 0 || height == 0 {
                        WindowAction::Nothing
                    } else {
                        WindowAction::Reconfigure(gpu.resized(width, height).config)
                    }
                },
                (WindowEvent::RedrawRequested, _) => {
                    &&& action == old(self).redraw_action()
                    &&& *final(self) == old(self).after_redraw()
                },
                _ => action is Nothing && *final(self) == *old(self),
            },
    {
        match event {
            WindowEvent::CloseRequested => WindowAction::Exit,
            WindowEvent::Resized { width, height } => match self.gpu {
                Some(before) => {
                    let mut gpu = before;
                    let reconfigure = gpu.resize(width, height);
                    self.gpu = Some(gpu);
                    if reconfigure {
                        WindowAction::Reconfigure(gpu.config)
                    } else {
                        WindowAction::Nothing
                    }
                },
                None => WindowAction::Nothing,
            },
            WindowEvent::RedrawRequested => match self.gpu {
                Some(before) => match self.pending.take() {
                    Some(frame) => {
                        let mut gpu = before;
                        let update = gpu.update_frame(&frame);
                        self.gpu = Some(gpu);
                        WindowAction::RedrawFrame(frame, update)
                    },
                    None => WindowAction::Redraw,
                },
                None => WindowAction::Nothing,
            },
            WindowEvent::Other => WindowAction::Nothing,
        }
    }

    /// Takes the frames that came since the last time, oldest first: the latest is
    /// the one to show, the others are dropped.  Says whether the window is to be
    /// drawn.
    pub fn about_to_wait(&mut self, arrived: Vec<Frame>) -> (redraw: bool)
        requires
            old(self).well_formed(),
            arrived@.len() > 0 ==> arrived@.last().width * 4 <= u32::MAX,
        ensures
            final(self).well_formed(),
            *final(self) == old(self).after_arrivals(arrived@),
            redraw == old(self).window,
    {
        let mut frames = arrived;
        match frames.pop() {
            Some(frame) => {
                assert(frame == arrived@[arrived@.len() - 1]);
                self.pending = Some(frame);
            },
            None => {},
        }
        self.window
    }
}

/// The window shows the latest frame that came, whatever came before it; frames
/// that came in two lots count as if they had come in one.
pub proof fn lemma_latest_frame_shown(renderer: Renderer, first: Seq<Frame>, second: Seq<Frame>)
    requires
        renderer.gpu is Some,
        second.len() > 0,
    ensures
        renderer.after_arrivals(first).after_arrivals(second) == renderer.after_arrivals(
            first + second,
        ),
        renderer.after_arrivals(first + second).redraw_action() matches WindowAction::RedrawFrame(
            frame,
            _,
        ) && frame == second.last(),
{
    assert((first + second).last() == second.last());
}

/// A frame is handed out once: when the window is drawn again with no new frame,
/// the texture is drawn as it is.
pub proof fn lemma_frame_handed_out_once(renderer: Renderer)
    requires
        renderer.gpu is Some,
    ensures
        renderer.after_redraw().redraw_action() is Redraw,
        renderer.after_redraw().after_redraw() == renderer.after_redraw(),
{
}

/// A texture is made anew only when the size of the frames changes: a frame of the
/// size of the one before goes into the texture that is there.
pub proof fn lemma_texture_reused(renderer: Renderer, frame: Frame)
    requires
        renderer.gpu is Some,
        renderer.pending matches Some(shown) && shown.width == frame.width && shown.height
            == frame.height,
    ensures
        renderer.after_redraw().after_arrivals(seq![frame]).redraw_action()
            == WindowAction::RedrawFrame(
            frame,
            TextureUpdate::Write {
                bytes_per_row: (frame.width * 4) as u32,
                width: frame.width,
                height: frame.height,
            },
        ),
{
}

/// The surface follows the window: once the window has a size with an area, the
/// surface has exactly that size, and nothing else of what is held has changed.  The
/// last size counts, whatever sizes the window had before.
pub proof fn lemma_surface_follows_window(gpu: GpuState, w: u32, h: u32, u: u32, v: u32)
    requires
        w > 0,
        h > 0,
    ensures
        gpu.resized(w, h).config.width == w,
        gpu.resized(w, h).config.height == h,
        gpu.resized(w, h).config.format == gpu.config.format,
        gpu.resized(w, h).config.alpha_mode == gpu.config.alpha_mode,
        gpu.resized(w, h).config.frame_latency == gpu.config.frame_latency,
        gpu.resized(w, h).tex_width == gpu.tex_width,
        gpu.resized(w, h).tex_height == gpu.tex_height,
        gpu.resized(u, v).resized(w, h) == gpu.resized(w, h),
{
}

/// A window without an area leaves everything as it is.
pub proof fn lemma_no_area_no_change(gpu: GpuState, w: u32, h: u32)
    requires
        w == 0 || h == 0,
    ensures
        gpu.resized(w, h) == gpu,
{
}

/// A format that is laid out like a frame is taken if there is one, and the first such
/// one; otherwise the first format of all is.
pub proof fn lemma_frame_format_preferred(formats: Seq<SurfaceFormat>, place: int, other: int)
    requires
        is_best_format(formats, place),
        0 <= other < formats.len(),
        formats[other] == SurfaceFormat::Bgra8Unorm,
    ensures
        0 <= place <= other,
        formats[place] == SurfaceFormat::Bgra8Unorm,
{
    assert(formats.contains(formats[other]));
}

/// Where no format is laid out like a frame, the first format of all is taken.
pub proof fn lemma_first_format_otherwise(formats: Seq<SurfaceFormat>, place: int)
    requires
        is_best_format(formats, place),
        forall|i: int| 0 <= i < formats.len() ==> formats[i] != SurfaceFormat::Bgra8Unorm,
    ensures
        place == 0,
{
}

/// A frame of the texture's size goes into the texture, with rows of four bytes a
/// pixel; a frame of any other size gets a texture of its own size.
pub proof fn lemma_texture_fits_frame(gpu: GpuState, width: u32, height: u32)
    requires
        width * 4 <= u32::MAX,
    ensures
        match gpu.update_for(width, height) {
            TextureUpdate::Write { bytes_per_row, width: w, height: h } => {
                &&& w == width == gpu.tex_width
                &&& h == height == gpu.tex_height
                &&& bytes_per_row == width * 4
            },
            TextureUpdate::Recreate { width: w, height: h } => {
                &&& w == width
                &&& h == height
                &&& w != gpu.tex_width || h != gpu.tex_height
            },
        },
{
}

/// Drawing hands out the frame that waits and gives the texture its size; the surface
/// and the window stay as they are.  Without a frame, or before the graphics are set
/// up, drawing changes nothing.
pub proof fn lemma_redraw_keeps_rest(renderer: Renderer)
    ensures
        renderer.after_redraw().window == renderer.window,
        renderer.after_redraw().gpu is Some == renderer.gpu is Some,
        renderer.gpu matches Some(gpu) ==> renderer.after_redraw().gpu->Some_0.config == gpu.config,
        renderer.gpu matches Some(gpu) ==> renderer.pending matches Some(frame)
            ==> renderer.after_redraw().pending is None
            && renderer.after_redraw().gpu->Some_0.tex_width == frame.width
            && renderer.after_redraw().gpu->Some_0.tex_height == frame.height
            && renderer.redraw_action() == WindowAction::RedrawFrame(
            frame,
            gpu.update_for(frame.width, frame.height),
        ),
        renderer.gpu is Some && renderer.pending is None ==> renderer.redraw_action() is Redraw,
        renderer.gpu is None ==> renderer.redraw_action() is Nothing,
        renderer.gpu is None || renderer.pending is None ==> renderer.after_redraw() == renderer,
{
}

/// Frames that arrive change only which frame is shown next: the last of them, or the
/// one from before where none arrives.
pub proof fn lemma_arrivals_change_pending_only(renderer: Renderer, arrived: Seq<Frame>)
    ensures
        renderer.after_arrivals(arrived).gpu == renderer.gpu,
        renderer.after_arrivals(arrived).window == renderer.window,
        arrived.len() > 0 ==> renderer.after_arrivals(arrived).pending == Some(
            arrived[arrived.len() - 1],
        ),
        arrived.len() == 0 ==> renderer.after_arrivals(arrived).pending == renderer.pending,
{
}

/// A surface is as wide or high as the window, for every window with an area; only
/// where the window has none it is one pixel.
pub proof fn lemma_surface_has_area(n: u32)
    ensures
        at_least_one(n) > 0,
        n > 0 ==> at_least_one(n) == n,
        at_least_one(n) != n ==> n == 0 && at_least_one(n) == 1,
{
}

} // verus!
