use vstd::prelude::*;
use crate::camera::{OrbitalCamera, initial_camera, Point, rotated, zoomed};
use crate::color::Color;
use crate::texture::{IncrementalTextureHandle, ColorColumnRange, columns_added, mean_of, pixel_index, empty_pixel};

verus! {

/// How far one pixel of cursor travel turns the camera, in millionths of a radian.
pub const ROTATION_PER_PIXEL: i64 = 5000;

/// How many samples a pixel of the image averages at most.
pub const MAX_SAMPLES: u32 = 100000;

/// The orbit radius a new view starts with, in millionths of a unit.
pub const START_RADIUS: u64 = 1_000_000;

/// An input event of the window, reduced to what steers the view.
#[derive(Clone, Copy, Debug, PartialEq, Eq, Structural)]
pub enum InputEvent {
    ButtonDown,
    ButtonUp,
    /// The cursor now stands at this position, in pixels.
    CursorMoved { x: i32, y: i32 },
    /// The wheel turned: positive to zoom in, negative to zoom out.
    ScrollDelta { amount: i64 },
    CloseRequested,
    Other,
}

/// Whether the display loop goes on after a batch of events.
#[derive(Clone, Copy, Debug, PartialEq, Eq, Structural)]
pub enum Action {
    Stop,
    Continue,
}

/// A cursor position in the window, in pixels.
#[derive(Clone, Copy, Debug, PartialEq, Eq, Structural)]
pub struct CursorPosition {
    pub x: i32,
    pub y: i32,
}

/// The interactive state of a view: whether a button is held, where the cursor
/// was last seen while it was, and the camera.
#[derive(Clone, Copy, Debug, PartialEq, Eq, Structural)]
pub struct Controls {
    pub mouse_pressed: bool,
    pub previous_mouse_position: Option<CursorPosition>,
    pub camera: OrbitalCamera,
}

/// The controls after an event. Pressing a button starts a drag; releasing
/// it ends the drag and forgets the cursor. While a button is held, a cursor
/// move turns the camera by the travel since the last position seen (none on
/// the first move) and remembers the new one. The wheel zooms.
pub open spec fn next_controls(c: Controls, e: InputEvent) -> Controls {
    match e {
        InputEvent::ButtonDown => Controls { mouse_pressed: true, ..c },
        InputEvent::ButtonUp => Controls { mouse_pressed: false, previous_mouse_position: None, ..c },
        InputEvent::CursorMoved { x, y } => if c.mouse_pressed {
            Controls {
                previous_mouse_position: Some(CursorPosition { x, y }),
                camera: match c.previous_mouse_position {
                    Some(p) => rotated(
                        c.camera,
                        ROTATION_PER_PIXEL * (x - p.x),
                        ROTATION_PER_PIXEL * (y - p.y),
                    ),
                    None => c.camera,
                },
                ..c
            }
        } else {
            c
        },
        InputEvent::ScrollDelta { amount } => Controls { camera: zoomed(c.camera, amount as int), ..c },
        _ => c,
    }
}

/// Whether an event moves the camera, so that the image gathered so far no
/// longer matches it.
pub open spec fn moves_camera(c: Controls, e: InputEvent) -> bool {
    match e {
        InputEvent::CursorMoved { .. } => c.mouse_pressed && c.previous_mouse_position is Some,
        InputEvent::ScrollDelta { .. } => true,
        _ => false,
    }
}

pub open spec fn action_of(e: InputEvent) -> Action {
    match e {
        InputEvent::CloseRequested => Action::Stop,
        _ => Action::Continue,
    }
}

/// The controls after a run of events, in order.
pub open spec fn controls_after(c: Controls, events: Seq<InputEvent>) -> Controls
    decreases events.len(),
{
    if events.len() == 0 {
        c
    } else {
        next_controls(controls_after(c, events.drop_last()), events.last())
    }
}

/// Whether some event of a run, applied in order, moves the camera.
pub open spec fn run_moves_camera(c: Controls, events: Seq<InputEvent>) -> bool
    decreases events.len(),
{
    if events.len() == 0 {
        false
    } else {
        run_moves_camera(c, events.drop_last()) || moves_camera(
            controls_after(c, events.drop_last()),
            events.last(),
        )
    }
}

/// Whether a column range fits an image of the given size.
pub open spec fn range_fits(start: int, columns: Seq<Vec<Color>>, width: u32, height: u32) -> bool {
    &&& start + columns.len() <= width
    &&& forall|k: int| 0 <= k < columns.len() ==> #[trigger] columns[k].len() <= height
}

/// The columns `[start, end)` of each render job, for a chunk width `chunk`:
/// consecutive, each `chunk` wide but the last, which ends at `width`.
pub open spec fn is_column_split(r: Seq<(u32, u32)>, width: u32, chunk: u32) -> bool {
    &&& (r.len() == 0 <==> width == 0)
    &&& r.len() > 0 ==> r[0].0 == 0 && r[r.len() - 1].1 == width
    &&& forall|k: int| 0 <= k < r.len() - 1 ==> #[trigger] r[k].1 == r[k + 1].0
    &&& forall|k: int| 0 <= k < r.len() ==> #[trigger] r[k].0 < r[k].1
    &&& forall|k: int| 0 <= k < r.len() ==> #[trigger] r[k].1 - r[k].0 <= chunk
    &&& forall|k: int| 0 <= k < r.len() - 1 ==> #[trigger] r[k].1 - r[k].0 == chunk
}

/// The chunk width for `workers` render jobs over `width` columns: the share
/// of each, rounded down, but at least one column.
pub fn column_chunk_width(width: u32, workers: u32) -> (chunk: u32)
    ensures
        chunk == (if workers == 0 || width / workers == 0 {
            1
        } else {
            width / workers
        }),
        chunk >= 1,
{
    if workers == 0 {
        1
    } else if width / workers == 0 {
        1
    } else {
        width / workers
    }
}

/// Splits columns `0..width` into the ranges of consecutive render jobs,
/// `chunk` columns each but the last.
pub fn column_ranges(width: u32, chunk: u32) -> (r: Vec<(u32, u32)>)
    requires
        chunk >= 1,
    ensures
        is_column_split(r@, width, chunk),
{
    let mut r: Vec<(u32, u32)> = Vec::new();
    let mut start: u32 = 0;
    while start < width
        invariant
            chunk >= 1,
            start <= width,
            (r.len() == 0 <==> start == 0),
            r.len() > 0 ==> r[0].0 == 0 && r[r.len() - 1].1 == start,
            forall|k: int| 0 <= k < r.len() - 1 ==> #[trigger] r[k].1 == r[k + 1].0,
            forall|k: int| 0 <= k < r.len() ==> #[trigger] r[k].0 < r[k].1,
            forall|k: int| 0 <= k < r.len() ==> #[trigger] r[k].1 - r[k].0 <= chunk,
            forall|k: int| 0 <= k < r.len() ==> #[trigger] r[k].1 - r[k].0 == chunk || r[k].1 == width,
            forall|k: int| 0 <= k < r.len() - 1 ==> #[trigger] r[k].1 - r[k].0 == chunk,
        decreases width - start,
    {
        let end: u32 = if width - start < chunk {
            width
        } else {
            start + chunk
        };
        r.push((start, end));
        start = end;
    }
    r
}

/// The view that a window shows: its size, the interactive controls, and the
/// image gathered for the current camera.
pub struct RaytracingRunner {
    width: u32,
    height: u32,
    controls: Controls,
    texture_handle: IncrementalTextureHandle,
}

impl RaytracingRunner {
    pub closed spec fn width(&self) -> u32 {
        self.width
    }

    pub closed spec fn height(&self) -> u32 {
        self.height
    }

    pub closed spec fn controls(&self) -> Controls {
        self.controls
    }

    pub closed spec fn texture(&self) -> IncrementalTextureHandle {
        self.texture_handle
    }

    pub closed spec fn wf(&self) -> bool {
        &&& self.texture_handle.wf()
        &&& self.texture_handle.width() == self.width
        &&& self.texture_handle.height() == self.height
    }

    /// A view of `width` by `height` pixels looking at `focus`, with nothing
    /// gathered yet.
    pub fn new(width: u32, height: u32, focus: Point) -> (r: Self)
        requires
            width as int * height as int <= u32::MAX,
        ensures
            r.wf(),
            r.width() == width,
            r.height() == height,
            !r.controls().mouse_pressed,
            r.controls().previous_mouse_position is None,
            r.controls().camera == initial_camera(width, height, focus, START_RADIUS, 0),
            r.texture().max_count() == MAX_SAMPLES,
            forall|x: int, y: int|
                0 <= x < width && 0 <= y < height ==> #[trigger] r.texture().pixel(x, y) == empty_pixel(),
    {
        let camera = OrbitalCamera::new(width, height, focus, START_RADIUS, 0);
        RaytracingRunner {
            width,
            height,
            controls: Controls { mouse_pressed: false, previous_mouse_position: None, camera },
            texture_handle: IncrementalTextureHandle::new(width, height, MAX_SAMPLES),
        }
    }

    pub fn get_texture_size(&self) -> (r: [u32; 2])
        ensures
            r@ == seq![self.width(), self.height()],
    {
        [self.width, self.height]
    }

    /// The camera as it stands, to hand to the next render jobs.
    pub fn camera(&self) -> (c: OrbitalCamera)
        ensures
            c == self.controls().camera,
    {
        self.controls.camera
    }

    /// Applies one input event: the controls follow `next_controls`, an event
    /// that moves the camera marks the image stale, and a close request asks
    /// the display loop to stop.
    pub fn handle_event(&mut self, event: InputEvent) -> (a: Action)
        requires
            old(self).wf(),
        ensures
            final(self).wf(),
            final(self).width() == old(self).width(),
            final(self).height() == old(self).height(),
            final(self).controls() == next_controls(old(self).controls(), event),
            final(self).texture().same_shape(&old(self).texture()),
            final(self).texture().is_invalid() == (old(self).texture().is_invalid() || moves_camera(
                old(self).controls(),
                event,
            )),
            forall|x: int, y: int| #[trigger]
                final(self).texture().pixel(x, y) == old(self).texture().pixel(x, y),
            a == action_of(event),
    {
        match event {
            InputEvent::ButtonDown => {
                self.controls.mouse_pressed = true;
                Action::Continue
            },
            InputEvent::ButtonUp => {
                self.controls.mouse_pressed = false;
                self.controls.previous_mouse_position = None;
                Action::Continue
            },
            InputEvent::CursorMoved { x, y } => {
                if self.controls.mouse_pressed {
                    if let Some(p) = self.controls.previous_mouse_position {
                        let dx: i64 = ROTATION_PER_PIXEL * (x as i64 - p.x as i64);
                        let dy: i64 = ROTATION_PER_PIXEL * (y as i64 - p.y as i64);
                        self.controls.camera.rotate(dx, dy);
                        self.texture_handle.invalidate();
                    }
                    self.controls.previous_mouse_position = Some(CursorPosition { x, y });
                }
                Action::Continue
            },
            InputEvent::ScrollDelta { amount } => {
                self.controls.camera.delta_zoom(amount);
                self.texture_handle.invalidate();
                Action::Continue
            },
            InputEvent::CloseRequested => Action::Stop,
            InputEvent::Other => Action::Continue,
        }
    }

    /// Applies a frame's events in order, as `handle_event` does each; the
    /// loop stops once any of them asks to close.
    pub fn handle_events(&mut self, events: &Vec<InputEvent>) -> (a: Action)
        requires
            old(self).wf(),
        ensures
            final(self).wf(),
            final(self).width() == old(self).width(),
            final(self).height() == old(self).height(),
            final(self).controls() == controls_after(old(self).controls(), events@),
            final(self).texture().same_shape(&old(self).texture()),
            final(self).texture().is_invalid() == (old(self).texture().is_invalid()
                || run_moves_camera(old(self).controls(), events@)),
            forall|x: int, y: int| #[trigger]
                final(self).texture().pixel(x, y) == old(self).texture().pixel(x, y),
            a == Action::Stop <==> exists|k: int|
                0 <= k < events.len() && #[trigger] events@[k] == InputEvent::CloseRequested,
    {
        let mut action = Action::Continue;
        let mut i: usize = 0;
        while i < events.len()
            invariant
                i <= events.len(),
                self.wf(),
                self.width() == old(self).width(),
                self.height() == old(self).height(),
                self.controls() == controls_after(old(self).controls(), events@.take(i as int)),
                self.texture().same_shape(&old(self).texture()),
                self.texture().is_invalid() == (old(self).texture().is_invalid() || run_moves_camera(
                    old(self).controls(),
                    events@.take(i as int),
                )),
                forall|x: int, y: int| #[trigger]
                    self.texture().pixel(x, y) == old(self).texture().pixel(x, y),
                action == Action::Stop <==> exists|k: int|
                    0 <= k < i && #[trigger] events@[k] == InputEvent::CloseRequested,
            decreases events.len() - i,
        {
            let e = events[i];
            let next = self.handle_event(e);
            if next == Action::Stop {
                action = Action::Stop;
            }
            assert(events@.take(i + 1).drop_last() =~= events@.take(i as int));
            i = i + 1;
        }
        assert(events@.take(events.len() as int) =~= events@);
        action
    }

    /// Adds the colors a render job computed to the image, where the range
    /// fits it; a range that does not fit is dropped whole and the image is
    /// left as it was. Returns whether the range was taken.
    pub fn add_color_range(&mut self, range: ColorColumnRange) -> (taken: bool)
        requires
            old(self).wf(),
        ensures
            final(self).wf(),
            final(self).width() == old(self).width(),
            final(self).height() == old(self).height(),
            final(self).controls() == old(self).controls(),
            final(self).texture().same_shape(&old(self).texture()),
            final(self).texture().is_invalid() == old(self).texture().is_invalid(),
            taken == range_fits(
                range.starting_column as int,
                range.color_columns@,
                old(self).width(),
                old(self).height(),
            ),
            taken ==> columns_added(
                old(self).texture(),
                final(self).texture(),
                range.starting_column as int,
                range.color_columns@,
            ),
            !taken ==> final(self).texture() == old(self).texture(),
    {
        let start = range.starting_column;
        let n = range.color_columns.len();
        if start > self.width || n > (self.width - start) as usize {
            return false;
        }
        let mut k: usize = 0;
        while k < n
            invariant
                n == range.color_columns.len(),
                start as int + n <= self.width,
                start == range.starting_column,
                self.wf(),
                *self == *old(self),
                k <= n,
                forall|c: int| 0 <= c < k ==> #[trigger] range.color_columns[c].len() <= self.height,
            decreases n - k,
        {
            if range.color_columns[k].len() > self.height as usize {
                return false;
            }
            k = k + 1;
        }
        self.texture_handle.add_color_range(range);
        true
    }

    /// The image to show now: the mean color of each pixel, row by row. A
    /// stale image is shown this once and then cleared.
    pub fn update_frame(&mut self) -> (pixels: Vec<Color>)
        requires
            old(self).wf(),
        ensures
            final(self).wf(),
            final(self).width() == old(self).width(),
            final(self).height() == old(self).height(),
            final(self).controls() == old(self).controls(),
            final(self).texture().same_shape(&old(self).texture()),
            !final(self).texture().is_invalid(),
            pixels.len() == old(self).width() as int * old(self).height() as int,
            forall|i: int, j: int|
                0 <= i < old(self).width() && 0 <= j < old(self).height() ==> pixels@[pixel_index(
                    old(self).width(),
                    i,
                    j,
                )] == mean_of(#[trigger] old(self).texture().pixel(i, j)),
            forall|i: int, j: int|
                0 <= i < old(self).width() && 0 <= j < old(self).height() ==> #[trigger] final(self).texture().pixel(i, j)
                    == if old(self).texture().is_invalid() {
                    empty_pixel()
                } else {
                    old(self).texture().pixel(i, j)
                },
    {
        self.texture_handle.get_texture()
    }
}

} // verus!
