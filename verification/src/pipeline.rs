//! What is decided once per tick around the selection: how a backend's frame
//! is normalised, what gets blurred and outlined, and when the loop ends.

use vstd::prelude::*;
use crate::frame::{mirrored, Frame};
use crate::geometry::{find_center_of_frame, frame_center, Rect};
use crate::selector::{first_nearest_at, select, selection_at, valid_detections, Partition, SelectionResult};

verus! {

/// The capture subsystem behind a device.
#[derive(Clone, Copy, Debug, PartialEq, Eq, Structural)]
pub enum BackendKind {
    /// An ordinary camera.
    Default,
    /// A depth or structured-light device.
    DepthBackend,
}

/// A width and a height in pixels.
#[derive(Clone, Copy, Debug, PartialEq, Eq, Structural)]
pub struct Size {
    pub width: i32,
    pub height: i32,
}

/// Which image of a grabbed frame is retrieved.
#[derive(Clone, Copy, Debug, PartialEq, Eq, Structural)]
pub enum Channel {
    /// The backend's default image.
    Default,
    /// The colour image of a depth device.
    Color,
}

/// How a device is opened.
#[derive(Clone, Copy, Debug, PartialEq, Eq, Structural)]
pub struct CaptureSetup {
    pub device_index: i32,
    /// The resolution to request from the device, if any.
    pub resolution: Option<Size>,
}

/// What is done to a grabbed frame before anything looks at it.
#[derive(Clone, Copy, Debug, PartialEq, Eq, Structural)]
pub struct Normalization {
    pub channel: Channel,
    /// The size to scale the retrieved image to, if any.
    pub resize: Option<Size>,
    /// Whether left and right are swapped afterwards.
    pub mirror: bool,
}

/// The tunables of the pipeline.
#[derive(Clone, Copy, Debug, PartialEq, Eq, Structural)]
pub struct Config {
    /// Detector scale factor in tenths: 13 stands for 1.3.
    pub scale_factor_tenths: u32,
    pub min_neighbors: i32,
    /// Side of the square blur kernel.
    pub blur_kernel: i32,
    /// Horizontal sigma of the blur; the vertical one follows it.
    pub blur_sigma: i32,
    pub target_width: i32,
    pub target_height: i32,
}

impl Default for Config {
    fn default() -> (c: Config)
        ensures
            c == (Config {
                scale_factor_tenths: 13,
                min_neighbors: 5,
                blur_kernel: 55,
                blur_sigma: 10000,
                target_width: 640,
                target_height: 480,
            }),
    {
        Config {
            scale_factor_tenths: 13,
            min_neighbors: 5,
            blur_kernel: 55,
            blur_sigma: 10000,
            target_width: 640,
            target_height: 480,
        }
    }
}

/// The kind of the backend that reports itself as `name`: the depth backend
/// for `OPENNI2`, the default one for every other name.
pub fn backend_named(name: &str) -> (kind: BackendKind)
    ensures
        kind == BackendKind::DepthBackend <==> name@ == "OPENNI2"@,
        kind == BackendKind::Default <==> name@ != "OPENNI2"@,
{
    let given = name.to_owned();
    let depth = "OPENNI2".to_owned();
    if given == depth {
        BackendKind::DepthBackend
    } else {
        BackendKind::Default
    }
}

/// How the device `camera_index` is opened on a backend of `kind`: the
/// default backend is asked for the working resolution of `config`; the depth
/// backend keeps its own resolution.
pub fn setup_camera(camera_index: i32, kind: BackendKind, config: &Config) -> (setup: CaptureSetup)
    ensures
        setup.device_index == camera_index,
        kind == BackendKind::Default ==> setup.resolution == Some(
            Size { width: config.target_width, height: config.target_height },
        ),
        kind == BackendKind::DepthBackend ==> setup.resolution is None,
{
    match kind {
        BackendKind::Default => CaptureSetup {
            device_index: camera_index,
            resolution: Some(Size { width: config.target_width, height: config.target_height }),
        },
        BackendKind::DepthBackend => CaptureSetup { device_index: camera_index, resolution: None },
    }
}

/// How a frame grabbed from a device of `kind` is normalised. Every backend
/// is mirrored; the depth backend's colour image is first scaled to 854 by
/// 480.
pub fn normalization_for(kind: BackendKind) -> (n: Normalization)
    ensures
        n.mirror,
        kind == BackendKind::Default ==> n.channel == Channel::Default && n.resize is None,
        kind == BackendKind::DepthBackend ==> n.channel == Channel::Color && n.resize == Some(
            Size { width: 854, height: 480 },
        ),
{
    match kind {
        BackendKind::Default => Normalization { channel: Channel::Default, resize: None, mirror: true },
        BackendKind::DepthBackend => Normalization {
            channel: Channel::Color,
            resize: Some(Size { width: 854, height: 480 }),
            mirror: true,
        },
    }
}

/// Applies the last step of `plan` to a retrieved (and, where the plan asks
/// for it, already scaled) frame: mirrors it when the plan says so.
pub fn capture_from_camera(frame: &mut Frame, plan: &Normalization)
    requires
        old(frame).wf(),
    ensures
        final(frame).wf(),
        final(frame).spec_width() == old(frame).spec_width(),
        plan.mirror ==> final(frame)@ == mirrored(old(frame)@),
        !plan.mirror ==> final(frame)@ == old(frame)@,
{
    if plan.mirror {
        frame.mirror();
    }
}

/// The colour of an outline.
#[derive(Clone, Copy, Debug, PartialEq, Eq, Structural)]
pub struct Color {
    pub b: u8,
    pub g: u8,
    pub r: u8,
    pub a: u8,
}

/// One rectangle outline to draw.
#[derive(Clone, Copy, Debug, PartialEq, Eq, Structural)]
pub struct Outline {
    pub rect: Rect,
    pub color: Color,
    /// Line thickness in pixels.
    pub thickness: i32,
    /// Connectivity of the line: 8 for an 8-connected one.
    pub line_type: i32,
    /// Fractional bits in the coordinates.
    pub shift: i32,
}

/// The outline of the nearest face.
pub open spec fn highlight_outline(rect: Rect) -> Outline {
    Outline { rect, color: Color { b: 0, g: 255, r: 255, a: 100 }, thickness: 2, line_type: 8, shift: 0 }
}

/// The outline of any other face.
pub open spec fn secondary_outline(rect: Rect) -> Outline {
    Outline { rect, color: Color { b: 0, g: 255, r: 0, a: 100 }, thickness: 2, line_type: 8, shift: 0 }
}

/// The outlines of a selection: the nearest face highlighted, then the rest
/// in their order.
pub open spec fn outlines_of(p: Partition) -> Seq<Outline> {
    seq![highlight_outline(p.nearest)] + p.rest.map_values(|r: Rect| secondary_outline(r))
}

/// The outlines to draw for `selection`.
pub fn annotate(selection: &SelectionResult) -> (outlines: Vec<Outline>)
    ensures
        outlines@ == outlines_of(selection@),
{
    let mut outlines: Vec<Outline> = Vec::new();
    outlines.push(
        Outline {
            rect: selection.nearest,
            color: Color { b: 0, g: 255, r: 255, a: 100 },
            thickness: 2,
            line_type: 8,
            shift: 0,
        },
    );
    let mut i: usize = 0;
    while i < selection.rest.len()
        invariant
            i <= selection.rest.len(),
            outlines@ == seq![highlight_outline(selection.nearest)] + selection.rest@.take(i as int).map_values(
                |r: Rect| secondary_outline(r),
            ),
        decreases selection.rest.len() - i,
    {
        let ghost before = outlines@;
        outlines.push(
            Outline {
                rect: selection.rest[i],
                color: Color { b: 0, g: 255, r: 0, a: 100 },
                thickness: 2,
                line_type: 8,
                shift: 0,
            },
        );
        i += 1;
        assert(outlines@ =~= seq![highlight_outline(selection.nearest)] + selection.rest@.take(i as int).map_values(
            |r: Rect| secondary_outline(r),
        ));
    }
    assert(selection.rest@.take(i as int) == selection.rest@);
    outlines
}

/// What one tick does to its frame.
#[derive(Debug)]
pub struct FramePlan {
    /// The region to blur, if any.
    pub blur: Option<Rect>,
    /// The outlines to draw after blurring, in drawing order.
    pub outlines: Vec<Outline>,
}

/// Decides what happens to a frame of `cols` by `rows` pixels on which the
/// detector found `faces`: the valid face nearest the frame centre is
/// blurred, and it and the other valid faces are outlined, the others in
/// detector order. With no valid face (so with no face at all) nothing is
/// blurred and nothing is drawn.
pub fn analyse_and_process_from_cv(cols: i32, rows: i32, faces: &Vec<Rect>) -> (plan: FramePlan)
    ensures
        valid_detections(faces@).len() == 0 ==> plan.blur is None && plan.outlines@.len() == 0,
        valid_detections(faces@).len() > 0 ==> exists|k: int| #[trigger]
            first_nearest_at(valid_detections(faces@), frame_center(cols, rows), k) && plan.blur == Some(
                valid_detections(faces@)[k],
            ) && plan.outlines@ == outlines_of(selection_at(valid_detections(faces@), k)),
        faces@.len() == 0 ==> plan.blur is None && plan.outlines@.len() == 0,
{
    let center = find_center_of_frame(cols, rows);
    assert(faces@.len() == 0 ==> valid_detections(faces@) =~= Seq::<Rect>::empty());
    match select(faces, &center) {
        None => FramePlan { blur: None, outlines: Vec::new() },
        Some(selection) => {
            let outlines = annotate(&selection);
            FramePlan { blur: Some(selection.nearest), outlines }
        },
    }
}

/// Whether a polled key code asks to stop: any positive code but 255, which
/// some backends report when no key was pressed.
pub fn is_cancel_key(key: i32) -> (cancel: bool)
    ensures
        cancel == (key > 0 && key != 255),
{
    key > 0 && key != 255
}

/// Where the main loop stands.
#[derive(Clone, Copy, Debug, PartialEq, Eq, Structural)]
pub enum LoopState {
    Initializing,
    Running,
    Terminated,
}

/// What can go wrong in the pipeline. Every one of them ends the loop.
#[derive(Clone, Copy, Debug, PartialEq, Eq, Structural)]
pub enum PipelineError {
    /// The device could not be opened, or a grab failed.
    CaptureFailure,
    /// The detector's model could not be read.
    ModelAssetMissing,
    /// The backend could not hand out the grabbed frame.
    FrameRetrievalError,
}

impl PipelineError {
    /// The diagnostic shown when the error ends the process.
    pub fn message(&self) -> (msg: String)
        ensures
            *self == PipelineError::CaptureFailure ==> msg@ == "open capture device failed!"@,
            *self == PipelineError::ModelAssetMissing ==> msg@ == "face detection model is missing!"@,
            *self == PipelineError::FrameRetrievalError ==> msg@ == "retrieve frame failed!"@,
    {
        match self {
            PipelineError::CaptureFailure => "open capture device failed!".to_owned(),
            PipelineError::ModelAssetMissing => "face detection model is missing!".to_owned(),
            PipelineError::FrameRetrievalError => "retrieve frame failed!".to_owned(),
        }
    }
}

/// What happened since the last decision.
#[derive(Clone, Copy, Debug, PartialEq, Eq, Structural)]
pub enum LoopEvent {
    /// The device was opened and configured.
    DeviceReady,
    /// A frame was shown and the key poll returned this code.
    KeyPolled(i32),
    /// Capture or detection failed.
    Failed(PipelineError),
}

/// The state after `event` in `state`.
pub open spec fn next_state(state: LoopState, event: LoopEvent) -> LoopState {
    match (state, event) {
        (LoopState::Terminated, _) => LoopState::Terminated,
        (_, LoopEvent::Failed(_)) => LoopState::Terminated,
        (LoopState::Initializing, LoopEvent::DeviceReady) => LoopState::Running,
        (LoopState::Initializing, LoopEvent::KeyPolled(_)) => LoopState::Initializing,
        (LoopState::Running, LoopEvent::DeviceReady) => LoopState::Running,
        (LoopState::Running, LoopEvent::KeyPolled(key)) => if key > 0 && key != 255 {
            LoopState::Terminated
        } else {
            LoopState::Running
        },
    }
}

/// Advances the main loop: a ready device starts it, a cancel key or a fatal
/// error ends it, and nothing leaves the terminated state.
pub fn advance(state: LoopState, event: LoopEvent) -> (next: LoopState)
    ensures
        next == next_state(state, event),
{
    match state {
        LoopState::Terminated => LoopState::Terminated,
        LoopState::Initializing => match event {
            LoopEvent::Failed(_) => LoopState::Terminated,
            LoopEvent::DeviceReady => LoopState::Running,
            LoopEvent::KeyPolled(_) => LoopState::Initializing,
        },
        LoopState::Running => match event {
            LoopEvent::Failed(_) => LoopState::Terminated,
            LoopEvent::DeviceReady => LoopState::Running,
            LoopEvent::KeyPolled(key) => if is_cancel_key(key) {
                LoopState::Terminated
            } else {
                LoopState::Running
            },
        },
    }
}

} // verus!
