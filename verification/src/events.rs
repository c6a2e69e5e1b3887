//! What crosses between the pipeline and the renderer.

use vstd::prelude::*;

use crate::image::ImageData;
use crate::queue::QueueOutputView;
use crate::scene::{Scene, SceneView};
use crate::style::{ResolvedAnimProfile, ResolvedStyle};

verus! {

/// Events that the pipeline sends to the renderer. The queue has already arbitrated which surface
/// is live, and style and springs are resolved, so these are concrete surface commands keyed by
/// id.
#[derive(Debug)]
#[allow(inconsistent_fields)]
pub enum NotificationEvent {
    /// Spawn a fresh surface showing `scene`. `timeout_ms` (0 = sticky) drives the lifetime bar.
    Show {
        id: u64,
        timeout_ms: u32,
        scene: Scene,
        style: ResolvedStyle,
        anim: ResolvedAnimProfile,
    },
    /// Swap the live surface's content in place.
    Morph {
        id: u64,
        timeout_ms: u32,
        scene: Scene,
        style: ResolvedStyle,
        anim: ResolvedAnimProfile,
    },
    /// Tear down the surface with this id.
    Close { id: u64 },
    /// Decoded image bytes ready for upload, keyed by the scene's image handle.
    ImageReady { key: String, image: ImageData },
    /// Config, theme or types changed on disk.
    ConfigReloaded,
    /// Graceful shutdown: collapse and leave the loop.
    Shutdown,
}

/// The view of a [`NotificationEvent`].
#[allow(inconsistent_fields)]
pub enum NotificationEventView {
    Show {
        id: u64,
        timeout_ms: u32,
        scene: SceneView,
        style: ResolvedStyle,
        anim: ResolvedAnimProfile,
    },
    Morph {
        id: u64,
        timeout_ms: u32,
        scene: SceneView,
        style: ResolvedStyle,
        anim: ResolvedAnimProfile,
    },
    Close { id: u64 },
    ImageReady { key: Seq<char>, image: ImageData },
    ConfigReloaded,
    Shutdown,
}

impl View for NotificationEvent {
    type V = NotificationEventView;

    open spec fn view(&self) -> NotificationEventView {
        match *self {
            NotificationEvent::Show { id, timeout_ms, scene, style, anim } =>
            NotificationEventView::Show { id, timeout_ms, scene: scene@, style, anim },
            NotificationEvent::Morph { id, timeout_ms, scene, style, anim } =>
            NotificationEventView::Morph { id, timeout_ms, scene: scene@, style, anim },
            NotificationEvent::Close { id } => NotificationEventView::Close { id },
            NotificationEvent::ImageReady { key, image } => NotificationEventView::ImageReady {
                key: key@,
                image,
            },
            NotificationEvent::ConfigReloaded => NotificationEventView::ConfigReloaded,
            NotificationEvent::Shutdown => NotificationEventView::Shutdown,
        }
    }
}

/// The views of a list of events.
pub open spec fn event_views(v: Seq<NotificationEvent>) -> Seq<NotificationEventView> {
    v.map_values(|e: NotificationEvent| e@)
}

/// The surface command that an output of the queue stands for.
pub open spec fn event_of(o: QueueOutputView) -> NotificationEventView {
    match o {
        QueueOutputView::Show { id, timeout_ms, scene, style, anim } =>
        NotificationEventView::Show { id, timeout_ms, scene, style, anim },
        QueueOutputView::Morph { id, timeout_ms, scene, style, anim } =>
        NotificationEventView::Morph { id, timeout_ms, scene, style, anim },
        QueueOutputView::Close { id, .. } => NotificationEventView::Close { id },
    }
}

/// Events that the renderer sends back to the pipeline.
#[derive(Debug, PartialEq, Eq)]
pub enum OutboundEvent {
    Closed { id: u64, reason: u32 },
    ActionInvoked { id: u64, action_key: String },
}

/// An output of the queue reaches the renderer as it is: what is shown or morphed keeps its id,
/// timeout, scene, style and springs, and what is closed keeps its id.
pub proof fn outputs_reach_the_renderer(o: QueueOutputView)
    ensures
        match o {
            QueueOutputView::Show { id, timeout_ms, scene, style, anim } => event_of(o)
                == (NotificationEventView::Show { id, timeout_ms, scene, style, anim }),
            QueueOutputView::Morph { id, timeout_ms, scene, style, anim } => event_of(o)
                == (NotificationEventView::Morph { id, timeout_ms, scene, style, anim }),
            QueueOutputView::Close { id, .. } => event_of(o) == (NotificationEventView::Close {
                id,
            }),
        },
{
}

} // verus!
