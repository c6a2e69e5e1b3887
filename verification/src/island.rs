//! The render loop's decisions: when the island's surface is made, resized, painted and destroyed.
//!
//! The loop itself owns the compositor connection and the GPU. It asks here what to do, does it,
//! and reports back.

use vstd::prelude::*;

verus! {

/// The island's surface.
#[derive(Clone, Copy, Debug, PartialEq, Eq, Structural)]
pub struct Surface {
    /// The notification that it shows.
    pub id: u64,
    /// Whether the compositor has configured it; nothing is painted before.
    pub configured: bool,
    pub width: u32,
    pub height: u32,
    /// Whether the previous content is still fading out.
    pub fading: bool,
}

/// The loop's state.
#[derive(Clone, Copy, Debug, PartialEq, Eq, Structural)]
pub struct Island {
    pub surface: Option<Surface>,
    /// Whether the draw resources exist: from the first surface on.
    pub pipelines: bool,
    pub shutting_down: bool,
    /// Whether the loop is to end.
    pub exit: bool,
    /// How many frames have been painted.
    pub frames: u64,
}

/// The larger of two sizes.
pub open spec fn larger(a: u32, b: u32) -> u32 {
    if a < b {
        b
    } else {
        a
    }
}

/// What to do with new content for a notification.
#[derive(Clone, Copy, Debug, PartialEq, Eq, Structural)]
pub enum MorphStep {
    /// It is not on screen.
    Ignore,
    /// Put the content in place and commit the surface at its new size; the configure that follows
    /// repaints. `crossfade` says whether the old content fades out.
    Resize { crossfade: bool, width: u32, height: u32 },
    /// Put the content in place and repaint.
    Repaint { crossfade: bool },
}

/// What to do with the decoded bytes of an image.
#[derive(Clone, Copy, Debug, PartialEq, Eq, Structural)]
pub enum ImageStep {
    /// There is nothing to upload to yet, and nothing on screen to show it.
    Drop,
    /// Upload it, and repaint if there is a surface.
    Upload { repaint: bool },
}

/// What advancing the animation by one frame came to.
#[derive(Clone, Copy, Debug, PartialEq, Eq, Structural)]
pub struct Advanced {
    /// Whether the crossfade has passed its midpoint.
    pub past_midpoint: bool,
    /// Whether the exit animation is complete.
    pub exit_done: bool,
}

/// What to do for a frame.
#[derive(Clone, Copy, Debug, PartialEq, Eq, Structural)]
pub enum Frame {
    /// The surface was destroyed.
    Destroyed,
    /// There is nothing to paint.
    Skip,
    /// Paint; `log` says whether the frame is worth a line in the log.
    Paint { log: bool },
}

/// The loop at its start.
pub open spec fn start_spec() -> Island {
    Island { surface: None, pipelines: false, shutting_down: false, exit: false, frames: 0 }
}

/// The loop once the surface of a notification was made. Its width is at least the widest that a
/// notification may get, so that a change of width needs no resize; its height is that of the
/// content.
pub open spec fn shown_spec(
    i: Island,
    id: u64,
    max_width: u32,
    content_w: u32,
    content_h: u32,
) -> Island {
    Island {
        surface: Some(
            Surface {
                id,
                configured: false,
                width: larger(max_width, content_w),
                height: content_h,
                fading: false,
            },
        ),
        pipelines: true,
        ..i
    }
}

/// The loop once its surface is gone.
pub open spec fn without_surface(i: Island) -> Island {
    Island { surface: None, ..i }
}

/// What new content for a notification does. Content of the same shape replaces the old without a
/// crossfade. The surface grows with its content and never shrinks.
pub open spec fn morph_spec(i: Island, id: u64, same_shape: bool, content_h: u32) -> (
    Island,
    MorphStep,
) {
    if !i.pipelines || i.surface is None || i.surface->0.id != id {
        (i, MorphStep::Ignore)
    } else {
        let s = i.surface->0;
        let next = Surface {
            fading: s.fading || !same_shape,
            height: larger(s.height, content_h),
            ..s
        };
        (
            Island { surface: Some(next), ..i },
            if content_h > s.height {
                MorphStep::Resize {
                    crossfade: !same_shape,
                    width: next.width,
                    height: next.height,
                }
            } else {
                MorphStep::Repaint { crossfade: !same_shape }
            },
        )
    }
}

/// What a request to shut down does, and whether the exit animation is to start: without a surface
/// the loop ends at once.
pub open spec fn shutdown_spec(i: Island) -> (Island, bool) {
    (
        Island { shutting_down: true, exit: i.exit || i.surface is None, ..i },
        i.surface is Some,
    )
}

/// The size that a configure settles on: what the compositor asks for, and the surface's own where
/// it leaves that open.
pub open spec fn settled_size(asked: u32, own: u32) -> u32 {
    if asked == 0 {
        own
    } else {
        asked
    }
}

/// What a configure does, and the buffer size to set up (never zero).
pub open spec fn configure_spec(i: Island, w: u32, h: u32) -> (Island, Option<(u32, u32)>) {
    match i.surface {
        Some(s) => {
            let width = settled_size(w, s.width);
            let height = settled_size(h, s.height);
            (
                Island {
                    surface: Some(Surface { configured: true, width, height, ..s }),
                    ..i
                },
                Some((larger(width, 1), larger(height, 1))),
            )
        },
        None => (i, None),
    }
}

/// Whether a frame with this number is logged: the first two, and every sixtieth.
pub open spec fn logged(n: u64) -> bool {
    n <= 2 || n % 60 == 0
}

/// What a frame does: first the animation's progress counts, then a surface that is configured is
/// painted.
pub open spec fn frame_spec(i: Island, advanced: Option<Advanced>) -> (Island, Frame) {
    if i.surface is Some && advanced is Some && advanced->0.exit_done {
        (Island { surface: None, exit: i.exit || i.shutting_down, ..i }, Frame::Destroyed)
    } else {
        let faded = match (i.surface, advanced) {
            (Some(s), Some(a)) => Some(Surface { fading: s.fading && !a.past_midpoint, ..s }),
            _ => i.surface,
        };
        if faded is Some && i.pipelines && faded->0.configured {
            (
                Island { surface: faded, frames: (i.frames + 1) as u64, ..i },
                Frame::Paint { log: logged((i.frames + 1) as u64) },
            )
        } else {
            (Island { surface: faded, ..i }, Frame::Skip)
        }
    }
}

impl Island {
    /// The loop at its start.
    pub fn new() -> (r: Island)
        ensures
            r == start_spec(),
    {
        Island { surface: None, pipelines: false, shutting_down: false, exit: false, frames: 0 }
    }

    /// Drops the surface there is, before a fresh one is made. If making it fails there is none.
    pub fn begin_show(&mut self)
        ensures
            *final(self) == (Island { surface: None, ..*old(self) }),
            *final(self) == without_surface(*old(self)),
    {
        self.surface = None;
    }

    /// The surface of a notification was made. Gives the size to ask the compositor for.
    pub fn shown(&mut self, id: u64, max_width: u32, content_w: u32, content_h: u32) -> (r: (
        u32,
        u32,
    ))
        ensures
            *final(self) == shown_spec(*old(self), id, max_width, content_w, content_h),
            r == (larger(max_width, content_w), content_h),
    {
        let width: u32 = if max_width < content_w {
            content_w
        } else {
            max_width
        };
        self.surface = Some(
            Surface { id, configured: false, width, height: content_h, fading: false },
        );
        self.pipelines = true;
        (width, content_h)
    }

    /// Decides what to do with new content for a notification.
    pub fn morph(&mut self, id: u64, same_shape: bool, content_h: u32) -> (r: MorphStep)
        ensures
            (*final(self), r) == morph_spec(*old(self), id, same_shape, content_h),
    {
        if !self.pipelines {
            return MorphStep::Ignore;
        }
        match self.surface {
            Some(s) => {
                if s.id != id {
                    return MorphStep::Ignore;
                }
                let grows = content_h > s.height;
                let height: u32 = if grows {
                    content_h
                } else {
                    s.height
                };
                self.surface = Some(
                    Surface {
                        id: s.id,
                        configured: s.configured,
                        width: s.width,
                        height,
                        fading: s.fading || !same_shape,
                    },
                );
                if grows {
                    MorphStep::Resize { crossfade: !same_shape, width: s.width, height }
                } else {
                    MorphStep::Repaint { crossfade: !same_shape }
                }
            },
            None => MorphStep::Ignore,
        }
    }

    /// Whether a close concerns what is on screen: the exit animation is to start then.
    pub fn close(&self, id: u64) -> (r: bool)
        ensures
            r == (self.surface is Some && self.surface->0.id == id),
    {
        match self.surface {
            Some(s) => s.id == id,
            None => false,
        }
    }

    /// Decides what to do with the decoded bytes of an image.
    pub fn image_ready(&self) -> (r: ImageStep)
        ensures
            r == (if self.pipelines {
                ImageStep::Upload { repaint: self.surface is Some }
            } else {
                ImageStep::Drop
            }),
    {
        if self.pipelines {
            ImageStep::Upload { repaint: self.surface.is_some() }
        } else {
            ImageStep::Drop
        }
    }

    /// Begins to shut down: whether the exit animation is to start. Without a surface the loop ends
    /// at once.
    pub fn shutdown(&mut self) -> (r: bool)
        ensures
            (*final(self), r) == shutdown_spec(*old(self)),
    {
        self.shutting_down = true;
        if self.surface.is_some() {
            true
        } else {
            self.exit = true;
            false
        }
    }

    /// The compositor configures the surface. Gives the buffer size to set up, if there is a
    /// surface.
    pub fn configure(&mut self, w: u32, h: u32) -> (r: Option<(u32, u32)>)
        ensures
            (*final(self), r) == configure_spec(*old(self), w, h),
    {
        match self.surface {
            Some(s) => {
                let width: u32 = if w == 0 {
                    s.width
                } else {
                    w
                };
                let height: u32 = if h == 0 {
                    s.height
                } else {
                    h
                };
                self.surface = Some(
                    Surface { id: s.id, configured: true, width, height, fading: s.fading },
                );
                Some(
                    (
                        if width < 1 {
                            1
                        } else {
                            width
                        },
                        if height < 1 {
                            1
                        } else {
                            height
                        },
                    ),
                )
            },
            None => None,
        }
    }

    /// The surface is gone: the compositor closed it, or painting it failed.
    pub fn lost(&mut self)
        ensures
            *final(self) == (Island { surface: None, ..*old(self) }),
            *final(self) == without_surface(*old(self)),
    {
        self.surface = None;
    }

    /// Decides what to do for a frame. `advanced` is what advancing the animation came to; `None`
    /// for a repaint out of turn.
    pub fn frame(&mut self, advanced: Option<Advanced>) -> (r: Frame)
        requires
            old(self).frames < u64::MAX,
        ensures
            (*final(self), r) == frame_spec(*old(self), advanced),
    {
        if let Some(s) = self.surface {
            if let Some(a) = advanced {
                if a.exit_done {
                    self.surface = None;
                    if self.shutting_down {
                        self.exit = true;
                    }
                    return Frame::Destroyed;
                }
                self.surface = Some(
                    Surface {
                        id: s.id,
                        configured: s.configured,
                        width: s.width,
                        height: s.height,
                        fading: s.fading && !a.past_midpoint,
                    },
                );
            }
        }
        match self.surface {
            Some(s) => if self.pipelines && s.configured {
                self.frames = self.frames + 1;
                Frame::Paint { log: self.frames <= 2 || self.frames % 60 == 0 }
            } else {
                Frame::Skip
            },
            None => Frame::Skip,
        }
    }
}

/// Nothing is painted before the compositor has configured the surface.
pub proof fn paint_waits_for_configure(i: Island, advanced: Option<Advanced>)
    requires
        i.surface is Some ==> !i.surface->0.configured,
    ensures
        !(frame_spec(i, advanced).1 is Paint),
{
}

/// A live surface never shrinks below what its content was given, and keeps its width.
pub proof fn surfaces_never_shrink(i: Island, id: u64, same_shape: bool, content_h: u32)
    requires
        i.surface is Some,
    ensures
        ({
            let after = morph_spec(i, id, same_shape, content_h).0;
            &&& after.surface is Some
            &&& after.surface->0.height >= i.surface->0.height
            &&& after.surface->0.width == i.surface->0.width
            &&& after.surface->0.id == i.surface->0.id
        }),
{
}

/// A shutdown ends the loop: at once without a surface, and else when the exit animation is
/// complete.
pub proof fn shutdowns_end_the_loop(i: Island, past_midpoint: bool)
    ensures
        ({
            let down = shutdown_spec(i).0;
            let done = frame_spec(down, Some(Advanced { past_midpoint, exit_done: true })).0;
            &&& i.surface is None ==> down.exit
            &&& done.exit
            &&& done.surface is None
        }),
{
}

/// A change of a progress bar alone never crossfades.
pub proof fn same_shape_never_crossfades(i: Island, id: u64, content_h: u32)
    ensures
        ({
            let r = morph_spec(i, id, true, content_h);
            &&& match r.1 {
                MorphStep::Ignore => true,
                MorphStep::Resize { crossfade, .. } => !crossfade,
                MorphStep::Repaint { crossfade } => !crossfade,
            }
            &&& r.0.surface is Some ==> r.0.surface->0.fading == i.surface->0.fading
        }),
{
}

// ---- surface formats ---------------------------------------------------------------------

/// How a surface is composited with what is behind it.
#[derive(Clone, Copy, Debug, PartialEq, Eq, Structural)]
pub enum AlphaMode {
    PreMultiplied,
    PostMultiplied,
    Opaque,
    Inherit,
    Auto,
}

/// The position of the first sRGB format, else 0. `srgb` says of each format on offer whether it is
/// one.
pub fn pick_format(srgb: &Vec<bool>) -> (r: usize)
    requires
        srgb@.len() > 0,
    ensures
        r < srgb@.len(),
        srgb@.contains(true) ==> srgb@[r as int] && forall|i: int| 0 <= i < r ==> !srgb@[i],
        !srgb@.contains(true) ==> r == 0,
{
    let mut i: usize = 0;
    while i < srgb.len()
        invariant
            i <= srgb@.len(),
            forall|j: int| 0 <= j < i ==> !srgb@[j],
        decreases srgb@.len() - i,
    {
        if srgb[i] {
            assert(srgb@[i as int] == true);
            return i;
        }
        i = i + 1;
    }
    0
}

/// The best translucent mode: premultiplied when it is on offer, else postmultiplied, else the
/// first, else left to the system.
pub open spec fn alpha_spec(modes: Seq<AlphaMode>) -> AlphaMode {
    if modes.contains(AlphaMode::PreMultiplied) {
        AlphaMode::PreMultiplied
    } else if modes.contains(AlphaMode::PostMultiplied) {
        AlphaMode::PostMultiplied
    } else if modes.len() > 0 {
        modes[0]
    } else {
        AlphaMode::Auto
    }
}

fn offers(modes: &Vec<AlphaMode>, m: AlphaMode) -> (r: bool)
    ensures
        r == modes@.contains(m),
{
    let mut i: usize = 0;
    while i < modes.len()
        invariant
            i <= modes@.len(),
            forall|j: int| 0 <= j < i ==> modes@[j] != m,
        decreases modes@.len() - i,
    {
        if modes[i] == m {
            assert(modes@[i as int] == m);
            return true;
        }
        i = i + 1;
    }
    false
}

/// Picks the best translucent mode.
pub fn pick_alpha(modes: &Vec<AlphaMode>) -> (r: AlphaMode)
    ensures
        r == alpha_spec(modes@),
{
    if offers(modes, AlphaMode::PreMultiplied) {
        AlphaMode::PreMultiplied
    } else if offers(modes, AlphaMode::PostMultiplied) {
        AlphaMode::PostMultiplied
    } else if modes.len() > 0 {
        modes[0]
    } else {
        AlphaMode::Auto
    }
}

/// A shown notification gets a fresh surface of its own: not configured, nothing fading, as high as
/// its content and at least as wide as both its content and the widest that it may get, and no wider
/// than one of them.
pub proof fn shown_surfaces_fit_their_content(
    i: Island,
    id: u64,
    max_width: u32,
    content_w: u32,
    content_h: u32,
)
    ensures
        ({
            let r = shown_spec(i, id, max_width, content_w, content_h);
            &&& r.surface is Some
            &&& r.surface->0.id == id
            &&& !r.surface->0.configured
            &&& !r.surface->0.fading
            &&& r.surface->0.height == content_h
            &&& r.surface->0.width >= max_width
            &&& r.surface->0.width >= content_w
            &&& r.surface->0.width == max_width || r.surface->0.width == content_w
            &&& r.pipelines
            &&& r.shutting_down == i.shutting_down
            &&& r.exit == i.exit
            &&& r.frames == i.frames
        }),
{
}

/// New content is for the notification on screen only; for any other nothing happens. The surface
/// grows with content that is higher, which takes a resize to that height, and else is repainted.
/// Only content of another shape fades.
pub proof fn morphs_are_for_what_is_on_screen(
    i: Island,
    id: u64,
    same_shape: bool,
    content_h: u32,
)
    ensures
        ({
            let r = morph_spec(i, id, same_shape, content_h);
            let on_screen = i.pipelines && i.surface is Some && i.surface->0.id == id;
            &&& !on_screen ==> r == (i, MorphStep::Ignore)
            &&& on_screen && content_h > i.surface->0.height ==> r.1 == (MorphStep::Resize {
                crossfade: !same_shape,
                width: i.surface->0.width,
                height: content_h,
            }) && r.0.surface->0.height == content_h
            &&& on_screen && content_h <= i.surface->0.height ==> r.1 == (MorphStep::Repaint {
                crossfade: !same_shape,
            }) && r.0.surface->0.height == i.surface->0.height
            &&& on_screen ==> {
                &&& r.0.surface is Some
                &&& r.0.surface->0.id == id
                &&& r.0.surface->0.configured == i.surface->0.configured
                &&& r.0.surface->0.width == i.surface->0.width
                &&& r.0.surface->0.fading == (i.surface->0.fading || !same_shape)
            }
            &&& r.0.pipelines == i.pipelines
            &&& r.0.shutting_down == i.shutting_down
            &&& r.0.exit == i.exit
            &&& r.0.frames == i.frames
        }),
{
}

/// A request to shut down is noted. The exit animation starts where there is a surface; where there
/// is none the loop ends.
pub proof fn shutdowns_wait_for_the_surface(i: Island)
    ensures
        ({
            let r = shutdown_spec(i);
            &&& r.0.shutting_down
            &&& r.1 <==> i.surface is Some
            &&& i.surface is Some ==> r.0.exit == i.exit
            &&& i.surface is None ==> r.0.exit
            &&& r.0.surface == i.surface
            &&& r.0.pipelines == i.pipelines
            &&& r.0.frames == i.frames
        }),
{
}

/// A configured surface takes the size that the compositor asks for, its own where none is asked
/// for, and its buffer has at least one pixel each way. Without a surface nothing happens.
pub proof fn configures_settle_the_size(i: Island, w: u32, h: u32)
    ensures
        ({
            let r = configure_spec(i, w, h);
            &&& i.surface is None ==> r.0 == i && r.1 is None
            &&& i.surface is Some ==> {
                let s = i.surface->0;
                let t = r.0.surface->0;
                &&& r.0.surface is Some
                &&& t.configured
                &&& w != 0 ==> t.width == w
                &&& w == 0 ==> t.width == s.width
                &&& h != 0 ==> t.height == h
                &&& h == 0 ==> t.height == s.height
                &&& t.id == s.id
                &&& t.fading == s.fading
                &&& r.1 is Some
                &&& t.width > 0 ==> (r.1->0).0 == t.width
                &&& t.width == 0 ==> (r.1->0).0 == 1
                &&& t.height > 0 ==> (r.1->0).1 == t.height
                &&& t.height == 0 ==> (r.1->0).1 == 1
                &&& r.0.pipelines == i.pipelines
                &&& r.0.shutting_down == i.shutting_down
                &&& r.0.exit == i.exit
                &&& r.0.frames == i.frames
            }
        }),
{
}

/// A frame whose exit animation is complete takes the surface down, which ends the loop only in a
/// shutdown. Any other frame paints exactly the surface that is there, configured and ready to draw;
/// the old content is gone past the midpoint of its fade.
pub proof fn frames_paint_what_is_ready(i: Island, advanced: Option<Advanced>)
    requires
        i.frames < u64::MAX,
    ensures
        ({
            let r = frame_spec(i, advanced);
            let done = i.surface is Some && advanced is Some && advanced->0.exit_done;
            let ready = !done && i.surface is Some && i.surface->0.configured && i.pipelines;
            &&& r.1 is Destroyed <==> done
            &&& done ==> r.0.surface is None && r.0.exit == (i.exit || i.shutting_down)
            &&& !done ==> r.0.exit == i.exit
            &&& r.1 is Paint <==> ready
            &&& ready ==> r.0.frames == i.frames + 1
            &&& !ready ==> r.0.frames == i.frames
            &&& ready && i.frames + 1 <= 2 ==> r.1->log
            &&& ready && i.frames + 1 > 2 ==> (r.1->log <==> (i.frames + 1) % 60 == 0)
            &&& !done && i.surface is None ==> r.0.surface is None
            &&& !done && i.surface is Some ==> {
                let s = i.surface->0;
                let t = r.0.surface->0;
                &&& r.0.surface is Some
                &&& t.id == s.id
                &&& t.configured == s.configured
                &&& t.width == s.width
                &&& t.height == s.height
                &&& advanced is Some && advanced->0.past_midpoint ==> !t.fading
                &&& !(advanced is Some && advanced->0.past_midpoint) ==> t.fading == s.fading
            }
            &&& r.0.pipelines == i.pipelines
            &&& r.0.shutting_down == i.shutting_down
        }),
{
}

/// The loop starts without a surface and without a wish to end.
pub proof fn loops_start_empty()
    ensures
        start_spec().surface is None,
        !start_spec().pipelines,
        !start_spec().shutting_down,
        !start_spec().exit,
        start_spec().frames == 0,
{
}

/// A translucent mode is taken where there is one, premultiplied before postmultiplied, and else the
/// first on offer.
pub proof fn translucent_modes_go_first(modes: Seq<AlphaMode>)
    ensures
        modes.contains(AlphaMode::PreMultiplied) ==> alpha_spec(modes) == AlphaMode::PreMultiplied,
        !modes.contains(AlphaMode::PreMultiplied) && modes.contains(AlphaMode::PostMultiplied)
            ==> alpha_spec(modes) == AlphaMode::PostMultiplied,
        !modes.contains(AlphaMode::PreMultiplied) && !modes.contains(AlphaMode::PostMultiplied)
            && modes.len() > 0 ==> alpha_spec(modes) == modes[0],
        modes.len() == 0 ==> alpha_spec(modes) == AlphaMode::Auto,
{
}

/// A surface that is gone leaves the rest of the loop as it was.
pub proof fn losing_the_surface_keeps_the_rest(i: Island)
    ensures
        without_surface(i).surface is None,
        without_surface(i).pipelines == i.pipelines,
        without_surface(i).shutting_down == i.shutting_down,
        without_surface(i).exit == i.exit,
        without_surface(i).frames == i.frames,
{
}

/// A close concerns the notification on screen and no other. Decoded bytes are uploaded from the
/// first surface on, and repaint what is on screen.
pub proof fn closes_and_images_concern_the_screen(
    i: Island,
    id: u64,
    closes: bool,
    step: ImageStep,
)
    requires
        call_ensures(Island::close, (&i, id), closes),
        call_ensures(Island::image_ready, (&i,), step),
    ensures
        closes ==> i.surface is Some && i.surface->0.id == id,
        i.surface is Some && i.surface->0.id == id ==> closes,
        step is Drop <==> !i.pipelines,
        i.pipelines ==> (step->repaint <==> i.surface is Some),
{
}

/// The first sRGB format is picked, and the first of all where there is none.
pub proof fn the_first_srgb_format_is_picked(srgb: Vec<bool>, r: usize, i: int)
    requires
        srgb@.len() > 0,
        call_ensures(pick_format, (&srgb,), r),
    ensures
        r < srgb@.len(),
        0 <= i < srgb@.len() && srgb@[i] ==> srgb@[r as int] && r <= i,
        !srgb@[r as int] ==> r == 0,
{
    if 0 <= i < srgb@.len() && srgb@[i] {
        assert(srgb@.contains(true));
    }
}

} // verus!
