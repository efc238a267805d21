//! The render loop: what one tick does to the state of the display.
//!
//! The loop itself runs outside this crate, where the keyboard, the clock and
//! the terminal are. Each tick it hands over the keys that were pressed, the
//! robot's pose and the transforms it could resolve, and takes back the
//! finished canvas.

use vstd::prelude::*;
use crate::canvas::{Canvas, CanvasView, Cell};
use crate::drawable::{Drawable, Look};
use crate::geometry::{Point, Pose3};
use crate::message::{Header, Message};
use crate::mode::{Action, Key, Mode, ModeController, Policy, action_of, names};
use crate::registry::{ListenerRegistry, Slot, latest_of};
use crate::viewport::{Viewport, ViewportView};

verus! {

/// World units per cell of a fresh display.
pub const DEFAULT_ZOOM: i64 = 100;

/// How long to wait before the transform between the fixed frame and the
/// robot's frame is looked up again at startup, in milliseconds.
pub const STARTUP_RETRY_MILLIS: u64 = 100;

/// What to do next while the display waits to start.
#[derive(Clone, Copy, Debug, PartialEq, Eq, Structural)]
pub enum Startup {
    /// Enter the render loop.
    Enter,
    /// Sleep for this many milliseconds and look the transform up again.
    Wait(u64),
}

/// Decides whether the render loop may begin: it begins once the transform
/// between the fixed frame and the robot's frame can be resolved, or once the
/// connection to the message bus is gone; until then the lookup is repeated
/// after a short, fixed wait.
pub fn startup_gate(bus_ok: bool, transform_available: bool) -> (next: Startup)
    ensures
        next == if bus_ok && !transform_available {
            Startup::Wait(STARTUP_RETRY_MILLIS)
        } else {
            Startup::Enter
        },
{
    if bus_ok && !transform_available {
        Startup::Wait(STARTUP_RETRY_MILLIS)
    } else {
        Startup::Enter
    }
}

/// The length of one tick in milliseconds, for a target rate in frames per
/// second.
pub fn tick_period_millis(target_framerate: u64) -> (millis: u64)
    requires
        target_framerate > 0,
    ensures
        millis == 1000u64 / target_framerate,
{
    1000 / target_framerate
}

/// A transform that the loop needs for a frame.
#[derive(Clone, Debug, PartialEq, Eq)]
pub enum Lookup {
    /// The pose of the robot in the fixed frame, now.
    Robot,
    /// The pose of the named frame in the fixed frame, at the given time.
    Frame(Header),
}

/// The transform that `drawable` needs to be drawn: none while it is hidden;
/// the robot's pose for a pose glyph; for any other the pose of the frame of
/// its newest snapshot at the time the snapshot was taken, and none while it
/// has no snapshot.
pub open spec fn lookup_for(slots: Seq<Slot>, drawable: Drawable) -> Option<Lookup> {
    if !drawable.active {
        None
    } else if drawable.look is PoseGlyph {
        Some(Lookup::Robot)
    } else {
        match snapshot_of(slots, drawable) {
            Some(message) => Some(Lookup::Frame(message.header_of())),
            None => None,
        }
    }
}

/// The transform resolved for the drawable at position `i`, if any.
pub open spec fn transform_at(transforms: Seq<Option<Pose3>>, i: int) -> Option<Pose3> {
    if 0 <= i < transforms.len() {
        transforms[i]
    } else {
        None
    }
}

/// The newest message of the mailbox that `drawable` reads.
pub open spec fn snapshot_of(slots: Seq<Slot>, drawable: Drawable) -> Option<Message> {
    latest_of(slots, drawable.source as int)
}

/// The canvas after the first `k` drawables are drawn on it in their order,
/// each shown one from its newest snapshot and with the transform resolved
/// for it. Hidden drawables are passed over.
pub open spec fn drawn(
    canvas: CanvasView,
    view: ViewportView,
    drawables: Seq<Drawable>,
    slots: Seq<Slot>,
    transforms: Seq<Option<Pose3>>,
    k: int,
) -> CanvasView
    decreases k,
{
    if k <= 0 {
        canvas
    } else {
        let below = drawn(canvas, view, drawables, slots, transforms, k - 1);
        let d = drawables[k - 1];
        if d.active {
            match snapshot_of(slots, d) {
                Some(message) => d.rendered(below, view, Some(&message), transform_at(transforms, k - 1)),
                None => d.rendered(below, view, None, transform_at(transforms, k - 1)),
            }
        } else {
            below
        }
    }
}

/// The drawables with exactly those shown that `ids` names.
pub open spec fn declared(drawables: Seq<Drawable>, ids: Seq<u32>) -> Seq<Drawable> {
    Seq::new(
        drawables.len(),
        |i: int| Drawable { active: ids.contains(drawables[i].id), ..drawables[i] },
    )
}

/// The position of the current mode, the drawables and the view after `key`.
/// The interrupt key changes nothing; any other key does what its action
/// says.
pub open spec fn after_key(
    modes: Seq<Mode>,
    state: (int, Seq<Drawable>, ViewportView),
    key: Key,
) -> (int, Seq<Drawable>, ViewportView) {
    if key == Key::Ctrl('c') {
        state
    } else {
        ModeController::applied(modes, state.0, state.1, state.2, action_of(modes, state.0, key))
    }
}

/// Whether `key` ends the loop: the interrupt key and every key that stands
/// for quitting do.
pub open spec fn quits(modes: Seq<Mode>, current: int, key: Key) -> bool {
    key == Key::Ctrl('c') || action_of(modes, current, key) == Action::Quit
}

/// The state after the first `k` of `keys`, one after the other.
pub open spec fn after_keys(
    modes: Seq<Mode>,
    state: (int, Seq<Drawable>, ViewportView),
    keys: Seq<Key>,
    k: int,
) -> (int, Seq<Drawable>, ViewportView)
    decreases k,
{
    if k <= 0 {
        state
    } else {
        after_key(modes, after_keys(modes, state, keys, k - 1), keys[k - 1])
    }
}

/// Whether one of the first `k` of `keys` ends the loop.
pub open spec fn quit_among(
    modes: Seq<Mode>,
    state: (int, Seq<Drawable>, ViewportView),
    keys: Seq<Key>,
    k: int,
) -> bool
    decreases k,
{
    if k <= 0 {
        false
    } else {
        quit_among(modes, state, keys, k - 1) || quits(
            modes,
            after_keys(modes, state, keys, k - 1).0,
            keys[k - 1],
        )
    }
}

/// The state of the display: the view, the canvas, the modes and the
/// drawables in the order in which they are drawn, lowest first.
pub struct RenderLoop {
    pub viewport: Viewport,
    pub canvas: Canvas,
    pub controller: ModeController,
    pub drawables: Vec<Drawable>,
}

impl RenderLoop {
    /// The position of the current mode, the drawables and the view.
    pub open spec fn state(&self) -> (int, Seq<Drawable>, ViewportView) {
        (self.controller@.current, self.drawables@, self.viewport@)
    }

    /// A display of `width` by `height` cells: the view stands at the origin
    /// of the world, unturned and at the default zoom, the canvas is blank,
    /// and exactly those drawables are shown that the current mode names.
    pub fn new(
        controller: ModeController,
        drawables: Vec<Drawable>,
        width: u16,
        height: u16,
    ) -> (this: RenderLoop)
        ensures
            this.controller == controller,
            this.drawables@ == declared(drawables@, controller@.modes[controller@.current].active@),
            this.canvas@ == CanvasView::blank(width as nat, height as nat),
            this.viewport@ == (ViewportView {
                center: Point { x: 0, y: 0 },
                zoom: DEFAULT_ZOOM as int,
                rotation: 0,
                width: width as nat,
                height: height as nat,
            }),
    {
        let mut drawables = drawables;
        let ghost given = drawables@;
        let mut i: usize = 0;
        while i < drawables.len()
            invariant
                i <= drawables.len(),
                drawables.len() == given.len(),
                forall|j: int|
                    0 <= j < i ==> #[trigger] drawables@[j] == declared(
                        given,
                        controller@.modes[controller@.current].active@,
                    )[j],
                forall|j: int| i <= j < drawables.len() ==> #[trigger] drawables@[j] == given[j],
            decreases drawables.len() - i,
        {
            let d = drawables[i];
            let active = names(&controller.current_mode().active, d.id);
            drawables.set(i, Drawable { id: d.id, source: d.source, active, look: d.look });
            i = i + 1;
        }
        assert(drawables@ =~= declared(given, controller@.modes[controller@.current].active@));
        assert(0int % 360_000_000 == 0);
        RenderLoop {
            viewport: Viewport::new(Point { x: 0, y: 0 }, DEFAULT_ZOOM, 0, width, height),
            canvas: Canvas::new(width, height),
            controller,
            drawables,
        }
    }

    /// Takes over a new size of the terminal: the canvas is made anew, blank,
    /// and the view learns the new extents.
    pub fn resize(&mut self, width: u16, height: u16)
        ensures
            final(self).controller == old(self).controller,
            final(self).drawables == old(self).drawables,
            final(self).canvas@ == CanvasView::blank(width as nat, height as nat),
            final(self).viewport@ == (ViewportView {
                width: width as nat,
                height: height as nat,
                ..old(self).viewport@
            }),
    {
        self.viewport.resize(width, height);
        self.canvas = Canvas::new(width, height);
    }

    /// The transforms that the next frame needs, one entry for each drawable
    /// by position. The caller resolves each of them, without waiting, and
    /// hands what it found to `draw` or `tick`.
    pub fn lookups(&self, registry: &ListenerRegistry) -> (wanted: Vec<Option<Lookup>>)
        ensures
            wanted@.len() == self.drawables@.len(),
            forall|i: int|
                0 <= i < wanted@.len() ==> #[trigger] wanted@[i] == lookup_for(
                    registry@,
                    self.drawables@[i],
                ),
    {
        let mut wanted: Vec<Option<Lookup>> = Vec::new();
        let mut k: usize = 0;
        while k < self.drawables.len()
            invariant
                k <= self.drawables.len(),
                wanted@.len() == k,
                forall|i: int|
                    0 <= i < k ==> #[trigger] wanted@[i] == lookup_for(
                        registry@,
                        self.drawables@[i],
                    ),
            decreases self.drawables.len() - k,
        {
            let d = self.drawables[k];
            let entry = if !d.active {
                None
            } else {
                match d.look {
                    Look::PoseGlyph(_) => Some(Lookup::Robot),
                    _ => match registry.latest(d.source) {
                        Some(message) => {
                            let header = message.header();
                            Some(
                                Lookup::Frame(
                                    Header {
                                        frame_id: header.frame_id.clone(),
                                        stamp: header.stamp,
                                    },
                                ),
                            )
                        },
                        None => None,
                    },
                }
            };
            wanted.push(entry);
            k = k + 1;
        }
        wanted
    }

    /// Handles one key and says whether it ends the loop. The interrupt key
    /// `Ctrl-c` ends the loop and changes nothing; any other key is looked up
    /// in the current mode and its action is carried out.
    pub fn handle_input(&mut self, key: Key) -> (quit: bool)
        ensures
            final(self).controller@.modes == old(self).controller@.modes,
            final(self).canvas == old(self).canvas,
            final(self).state() == after_key(old(self).controller@.modes, old(self).state(), key),
            quit == quits(old(self).controller@.modes, old(self).controller@.current, key),
    {
        if key == Key::Ctrl('c') {
            return true;
        }
        let action = self.controller.action_for(key);
        self.controller.apply(&action, &mut self.drawables, &mut self.viewport)
    }

    /// Draws one frame: where the current mode follows the robot and the
    /// robot's pose is known, the view is centred on the robot; then the
    /// canvas is wiped and every shown drawable is drawn on it, in order.
    /// `transforms` holds, for each drawable by position, the transform
    /// resolved for it, `None` where there is none; a drawable without a
    /// transform is skipped for this frame.
    pub fn draw(
        &mut self,
        robot_pose: Option<Pose3>,
        registry: &ListenerRegistry,
        transforms: &Vec<Option<Pose3>>,
    )
        ensures
            final(self).controller == old(self).controller,
            final(self).drawables == old(self).drawables,
            final(self).viewport@ == match robot_pose {
                Some(pose) if old(self).controller@.modes[old(self).controller@.current].policy
                    == Policy::Follow => old(self).viewport@.recentered(
                    Point { x: pose.x, y: pose.y },
                ),
                _ => old(self).viewport@,
            },
            final(self).canvas@ == drawn(
                CanvasView::blank(old(self).canvas@.width, old(self).canvas@.height),
                final(self).viewport@,
                old(self).drawables@,
                registry@,
                transforms@,
                old(self).drawables@.len() as int,
            ),
    {
        match robot_pose {
            Some(pose) => {
                match self.controller.current_mode().policy {
                    Policy::Follow => {
                        self.viewport.recenter(Point { x: pose.x, y: pose.y });
                    },
                    Policy::Fixed => {},
                }
            },
            None => {},
        }
        self.canvas.clear();
        let ghost blank = self.canvas@;
        let mut k: usize = 0;
        while k < self.drawables.len()
            invariant
                self.controller == old(self).controller,
                self.drawables == old(self).drawables,
                k <= self.drawables.len(),
                blank == CanvasView::blank(old(self).canvas@.width, old(self).canvas@.height),
                self.viewport@ == match robot_pose {
                    Some(pose) if old(self).controller@.modes[old(self).controller@.current].policy
                        == Policy::Follow => old(self).viewport@.recentered(
                        Point { x: pose.x, y: pose.y },
                    ),
                    _ => old(self).viewport@,
                },
                self.canvas@ == drawn(
                    blank,
                    self.viewport@,
                    self.drawables@,
                    registry@,
                    transforms@,
                    k as int,
                ),
            decreases self.drawables.len() - k,
        {
            let d = self.drawables[k];
            if d.active {
                let resolved = if k < transforms.len() {
                    transforms[k]
                } else {
                    None
                };
                let snapshot = registry.latest(d.source);
                d.render(&mut self.canvas, &self.viewport, snapshot, resolved);
            }
            k = k + 1;
        }
    }

    /// One tick: the keys are handled in the order in which they were
    /// pressed, then one frame is drawn. The result says whether one of the
    /// keys ended the loop; the frame of this tick is drawn all the same.
    pub fn tick(
        &mut self,
        keys: &Vec<Key>,
        robot_pose: Option<Pose3>,
        registry: &ListenerRegistry,
        transforms: &Vec<Option<Pose3>>,
    ) -> (quit: bool)
        ensures
            final(self).controller@.modes == old(self).controller@.modes,
            quit == quit_among(
                old(self).controller@.modes,
                old(self).state(),
                keys@,
                keys@.len() as int,
            ),
            ({
                let handled = after_keys(
                    old(self).controller@.modes,
                    old(self).state(),
                    keys@,
                    keys@.len() as int,
                );
                &&& final(self).controller@.current == handled.0
                &&& final(self).drawables@ == handled.1
                &&& final(self).viewport@ == match robot_pose {
                    Some(pose) if old(self).controller@.modes[handled.0].policy == Policy::Follow =>
                        handled.2.recentered(Point { x: pose.x, y: pose.y }),
                    _ => handled.2,
                }
                &&& final(self).canvas@ == drawn(
                    CanvasView::blank(old(self).canvas@.width, old(self).canvas@.height),
                    final(self).viewport@,
                    handled.1,
                    registry@,
                    transforms@,
                    handled.1.len() as int,
                )
            }),
    {
        let mut quit = false;
        let mut k: usize = 0;
        while k < keys.len()
            invariant
                k <= keys.len(),
                self.controller@.modes == old(self).controller@.modes,
                self.canvas == old(self).canvas,
                self.state() == after_keys(
                    old(self).controller@.modes,
                    old(self).state(),
                    keys@,
                    k as int,
                ),
                quit == quit_among(old(self).controller@.modes, old(self).state(), keys@, k as int),
            decreases keys.len() - k,
        {
            let ended = self.handle_input(keys[k]);
            quit = quit || ended;
            k = k + 1;
        }
        self.draw(robot_pose, registry, transforms);
        quit
    }

    /// The finished canvas, as it is flushed to the terminal.
    pub fn frame(&self) -> (grid: Vec<Vec<Option<Cell>>>)
        ensures
            grid.len() == self.canvas@.height,
            forall|r: int| 0 <= r < grid.len() ==> (#[trigger] grid[r]).len() == self.canvas@.width,
            forall|r: int, c: int|
                0 <= r < self.canvas@.height && 0 <= c < self.canvas@.width ==> grid[r][c]
                    == self.canvas@.at(c, r),
    {
        self.canvas.snapshot_for_flush()
    }
}

} // verus!
