//! Modes and the actions that keys stand for.
//!
//! A mode names the drawables that are shown while it is current, says
//! whether the view follows the robot, and binds keys to actions. One mode is
//! current at any time.

use vstd::prelude::*;
use crate::drawable::Drawable;
use crate::viewport::{Viewport, ViewportView};

verus! {

/// One symbol of keyboard input.
#[derive(Clone, Copy, Debug, PartialEq, Eq, Structural)]
pub enum Key {
    Char(char),
    Esc,
    Ctrl(char),
    Other,
}

/// Whether the view keeps its centre on the robot.
#[derive(Clone, Copy, Debug, PartialEq, Eq, Structural)]
pub enum Policy {
    Follow,
    Fixed,
}

/// What a key asks for.
#[derive(Clone, Debug, PartialEq, Eq)]
pub enum Action {
    /// Make the mode of this name current.
    SwitchMode(String),
    /// Show the drawable of this identifier if it is hidden, hide it if it is
    /// shown.
    ToggleDrawable(u32),
    /// Move the centre of the view by this many world units.
    PanViewport(i64, i64),
    /// Multiply the zoom by this many thousandths.
    ZoomViewport(i64),
    /// Turn the view by this many millionths of a degree.
    RotateViewport(i64),
    /// End the loop after this tick.
    Quit,
    /// Nothing: the key stands for no action.
    Unmapped,
}

/// One entry of a mode's key table.
#[derive(Clone, Debug, PartialEq, Eq)]
pub struct Binding {
    pub key: Key,
    pub action: Action,
}

/// A named bundle of shown drawables, viewport policy and key bindings.
#[derive(Clone, Debug, PartialEq, Eq)]
pub struct Mode {
    pub name: String,
    /// The identifiers of the drawables shown while the mode is current.
    pub active: Vec<u32>,
    pub policy: Policy,
    pub bindings: Vec<Binding>,
}

/// The digit that a key stands for, if it is one of the reserved keys `0` to
/// `9`.
pub open spec fn digit_of(key: Key) -> Option<int> {
    match key {
        Key::Char(c) => if '0' <= c && c <= '9' {
            Some(c as u32 - '0' as u32)
        } else {
            None
        },
        _ => None,
    }
}

/// The first binding of `key` at or after position `from`.
pub open spec fn binding_of(bindings: Seq<Binding>, key: Key, from: int) -> Option<int>
    decreases bindings.len() - from,
{
    if from < 0 || from >= bindings.len() {
        None
    } else if bindings[from].key == key {
        Some(from)
    } else {
        binding_of(bindings, key, from + 1)
    }
}

/// The first mode called `name` at or after position `from`.
pub open spec fn mode_named(modes: Seq<Mode>, name: Seq<char>, from: int) -> Option<int>
    decreases modes.len() - from,
{
    if from < 0 || from >= modes.len() {
        None
    } else if modes[from].name@ == name {
        Some(from)
    } else {
        mode_named(modes, name, from + 1)
    }
}

/// The action that `key` stands for while mode `current` is current.
///
/// The digits are reserved: digit `d` selects the mode at position `d` and
/// stands for nothing where there is no such mode. Any other key stands for
/// what the current mode first binds it to, and for nothing where the mode
/// does not bind it.
pub open spec fn action_of(modes: Seq<Mode>, current: int, key: Key) -> Action {
    match digit_of(key) {
        Some(d) => if d < modes.len() {
            Action::SwitchMode(modes[d].name)
        } else {
            Action::Unmapped
        },
        None => match binding_of(modes[current].bindings@, key, 0) {
            Some(at) => modes[current].bindings@[at].action,
            None => Action::Unmapped,
        },
    }
}

/// Whether a drawable is shown after a switch from a mode that shows
/// `leaving` to a mode that shows `entering`: one that only the new mode
/// names is shown, one that only the old mode names is hidden, and every
/// other stays as it was.
pub open spec fn shown_after_switch(
    drawable: Drawable,
    leaving: Seq<u32>,
    entering: Seq<u32>,
) -> bool {
    if entering.contains(drawable.id) && !leaving.contains(drawable.id) {
        true
    } else if leaving.contains(drawable.id) && !entering.contains(drawable.id) {
        false
    } else {
        drawable.active
    }
}

/// The drawables after a switch between two modes.
pub open spec fn switched(drawables: Seq<Drawable>, leaving: Seq<u32>, entering: Seq<u32>) -> Seq<
    Drawable,
> {
    Seq::new(
        drawables.len(),
        |i: int|
            Drawable {
                active: shown_after_switch(drawables[i], leaving, entering),
                ..drawables[i]
            },
    )
}

/// The drawables after those called `id` are toggled.
pub open spec fn toggled(drawables: Seq<Drawable>, id: u32) -> Seq<Drawable> {
    Seq::new(
        drawables.len(),
        |i: int|
            if drawables[i].id == id {
                Drawable { active: !drawables[i].active, ..drawables[i] }
            } else {
                drawables[i]
            },
    )
}

/// The drawables with exactly those shown that `declared` names.
pub open spec fn shown_as_declared(drawables: Seq<Drawable>, declared: Seq<u32>) -> bool {
    forall|i: int|
        0 <= i < drawables.len() ==> (#[trigger] drawables[i]).active == declared.contains(
            drawables[i].id,
        )
}

/// A switch from one mode to another hides the drawables that only the old
/// mode names, shows those that only the new mode names, and leaves those
/// that both name as they are. If exactly the drawables of the old mode were
/// shown before the switch, exactly those of the new mode are shown after it.
/// Nothing but whether a drawable is shown changes.
pub proof fn law_switch_shows_declared_set(
    drawables: Seq<Drawable>,
    leaving: Seq<u32>,
    entering: Seq<u32>,
)
    ensures
        switched(drawables, leaving, entering).len() == drawables.len(),
        forall|i: int|
            0 <= i < drawables.len() ==> (#[trigger] switched(drawables, leaving, entering)[i])
                == (Drawable {
                active: switched(drawables, leaving, entering)[i].active,
                ..drawables[i]
            }),
        forall|i: int|
            0 <= i < drawables.len() && leaving.contains(drawables[i].id) && entering.contains(
                drawables[i].id,
            ) ==> #[trigger] switched(drawables, leaving, entering)[i] == drawables[i],
        forall|i: int|
            0 <= i < drawables.len() && leaving.contains(drawables[i].id) && !entering.contains(
                drawables[i].id,
            ) ==> !(#[trigger] switched(drawables, leaving, entering)[i]).active,
        forall|i: int|
            0 <= i < drawables.len() && !leaving.contains(drawables[i].id) && entering.contains(
                drawables[i].id,
            ) ==> (#[trigger] switched(drawables, leaving, entering)[i]).active,
        shown_as_declared(drawables, leaving) ==> shown_as_declared(
            switched(drawables, leaving, entering),
            entering,
        ),
{
}

/// What a `ModeController` stands for.
pub struct ControllerView {
    pub modes: Seq<Mode>,
    /// The position of the current mode.
    pub current: int,
}

/// The state machine over the configured modes.
pub struct ModeController {
    modes: Vec<Mode>,
    current: usize,
}

impl View for ModeController {
    type V = ControllerView;

    closed spec fn view(&self) -> ControllerView {
        ControllerView { modes: self.modes@, current: self.current as int }
    }
}

/// Whether `ids` names `id`.
pub fn names(ids: &Vec<u32>, id: u32) -> (found: bool)
    ensures
        found == ids@.contains(id),
{
    let mut i: usize = 0;
    while i < ids.len()
        invariant
            i <= ids.len(),
            forall|j: int| 0 <= j < i ==> ids@[j] != id,
        decreases ids.len() - i,
    {
        if ids[i] == id {
            return true;
        }
        i = i + 1;
    }
    false
}

/// A copy of an action.
pub fn copy_action(action: &Action) -> (copy: Action)
    ensures
        copy == *action,
{
    match action {
        Action::SwitchMode(name) => Action::SwitchMode(name.clone()),
        Action::ToggleDrawable(id) => Action::ToggleDrawable(*id),
        Action::PanViewport(dx, dy) => Action::PanViewport(*dx, *dy),
        Action::ZoomViewport(permille) => Action::ZoomViewport(*permille),
        Action::RotateViewport(delta) => Action::RotateViewport(*delta),
        Action::Quit => Action::Quit,
        Action::Unmapped => Action::Unmapped,
    }
}

/// The digit that a key stands for.
fn digit(key: Key) -> (d: Option<usize>)
    ensures
        match d {
            Some(v) => digit_of(key) == Some(v as int),
            None => digit_of(key).is_none(),
        },
{
    match key {
        Key::Char(c) => {
            if '0' <= c && c <= '9' {
                Some((c as u32 - '0' as u32) as usize)
            } else {
                None
            }
        },
        _ => None,
    }
}

/// Shows and hides the drawables as a switch between two modes asks.
fn switch_drawables(drawables: &mut Vec<Drawable>, leaving: &Vec<u32>, entering: &Vec<u32>)
    ensures
        final(drawables)@ == switched(old(drawables)@, leaving@, entering@),
{
    let mut i: usize = 0;
    while i < drawables.len()
        invariant
            i <= drawables.len(),
            drawables.len() == old(drawables).len(),
            forall|j: int|
                0 <= j < i ==> #[trigger] drawables@[j] == switched(
                    old(drawables)@,
                    leaving@,
                    entering@,
                )[j],
            forall|j: int| i <= j < drawables.len() ==> #[trigger] drawables@[j] == old(drawables)@[j],
        decreases drawables.len() - i,
    {
        let d = drawables[i];
        let enters = names(entering, d.id);
        let leaves = names(leaving, d.id);
        let active = if enters && !leaves {
            true
        } else if leaves && !enters {
            false
        } else {
            d.active
        };
        drawables.set(i, Drawable { id: d.id, source: d.source, active, look: d.look });
        i = i + 1;
    }
    assert(drawables@ =~= switched(old(drawables)@, leaving@, entering@));
}

/// Toggles the drawables called `id`.
fn toggle_drawables(drawables: &mut Vec<Drawable>, id: u32)
    ensures
        final(drawables)@ == toggled(old(drawables)@, id),
{
    let mut i: usize = 0;
    while i < drawables.len()
        invariant
            i <= drawables.len(),
            drawables.len() == old(drawables).len(),
            forall|j: int| 0 <= j < i ==> #[trigger] drawables@[j] == toggled(old(drawables)@, id)[j],
            forall|j: int| i <= j < drawables.len() ==> #[trigger] drawables@[j] == old(drawables)@[j],
        decreases drawables.len() - i,
    {
        let d = drawables[i];
        if d.id == id {
            drawables.set(i, Drawable { id: d.id, source: d.source, active: !d.active, look: d.look });
        }
        i = i + 1;
    }
    assert(drawables@ =~= toggled(old(drawables)@, id));
}

impl ControllerView {
    /// There is a current mode.
    pub open spec fn wf(self) -> bool {
        0 <= self.current < self.modes.len()
    }
}

impl ModeController {
    /// There is a current mode, always.
    #[verifier::type_invariant]
    spec fn sound(&self) -> bool {
        self.current < self.modes.len()
    }

    /// A controller over `modes` with the first of them current, or `None`
    /// where there is no mode at all.
    pub fn new(modes: Vec<Mode>) -> (controller: Option<ModeController>)
        ensures
            controller.is_some() == (modes@.len() > 0),
            controller matches Some(c) ==> c@.wf() && c@.modes == modes@ && c@.current == 0,
    {
        if modes.len() == 0 {
            None
        } else {
            Some(ModeController { modes, current: 0 })
        }
    }

    /// The current mode.
    pub fn current_mode(&self) -> (mode: &Mode)
        ensures
            self@.wf(),
            *mode == self@.modes[self@.current],
    {
        proof {
            use_type_invariant(self);
        }
        &self.modes[self.current]
    }

    /// The position of the current mode.
    pub fn current(&self) -> (at: usize)
        ensures
            self@.wf(),
            at == self@.current,
    {
        proof {
            use_type_invariant(self);
        }
        self.current
    }

    /// The position of the first mode called `name`.
    pub fn find_mode(&self, name: &String) -> (at: Option<usize>)
        ensures
            match at {
                Some(i) => mode_named(self@.modes, name@, 0) == Some(i as int) && i
                    < self@.modes.len(),
                None => mode_named(self@.modes, name@, 0).is_none(),
            },
    {
        let mut i: usize = 0;
        while i < self.modes.len()
            invariant
                i <= self.modes.len(),
                mode_named(self@.modes, name@, 0) == mode_named(self@.modes, name@, i as int),
            decreases self.modes.len() - i,
        {
            if self.modes[i].name == *name {
                return Some(i);
            }
            i = i + 1;
        }
        None
    }

    /// The action that `key` stands for. A key that stands for nothing gives
    /// `Unmapped`.
    pub fn action_for(&self, key: Key) -> (action: Action)
        ensures
            self@.wf(),
            action == action_of(self@.modes, self@.current, key),
    {
        proof {
            use_type_invariant(self);
        }
        match digit(key) {
            Some(d) => {
                if d < self.modes.len() {
                    Action::SwitchMode(self.modes[d].name.clone())
                } else {
                    Action::Unmapped
                }
            },
            None => {
                let bindings = &self.modes[self.current].bindings;
                let mut i: usize = 0;
                while i < bindings.len()
                    invariant
                        self@.wf(),
                        digit_of(key).is_none(),
                        *bindings == self@.modes[self@.current].bindings,
                        i <= bindings.len(),
                        binding_of(bindings@, key, 0) == binding_of(bindings@, key, i as int),
                    decreases bindings.len() - i,
                {
                    if bindings[i].key == key {
                        return copy_action(&bindings[i].action);
                    }
                    i = i + 1;
                }
                Action::Unmapped
            },
        }
    }

    /// The state after `action`: the position of the current mode, the
    /// drawables and the view.
    ///
    /// A switch to a mode that exists makes it current and shows and hides
    /// the drawables as `switched` says; a switch to a mode that does not
    /// exist changes nothing. A toggle flips the drawables of the given
    /// identifier. Panning, zooming and turning change the view. Quitting and
    /// the unmapped action change nothing.
    pub open spec fn applied(
        modes: Seq<Mode>,
        current: int,
        drawables: Seq<Drawable>,
        view: ViewportView,
        action: Action,
    ) -> (int, Seq<Drawable>, ViewportView) {
        match action {
            Action::SwitchMode(name) => match mode_named(modes, name@, 0) {
                Some(target) => (
                    target,
                    switched(drawables, modes[current].active@, modes[target].active@),
                    view,
                ),
                None => (current, drawables, view),
            },
            Action::ToggleDrawable(id) => (current, toggled(drawables, id), view),
            Action::PanViewport(dx, dy) => (current, drawables, view.panned(dx as int, dy as int)),
            Action::ZoomViewport(permille) => (current, drawables, view.zoomed(permille as int)),
            Action::RotateViewport(delta) => (current, drawables, view.rotated(delta as int)),
            Action::Quit => (current, drawables, view),
            Action::Unmapped => (current, drawables, view),
        }
    }

    /// Carries out `action` and says whether it asks to quit.
    pub fn apply(
        &mut self,
        action: &Action,
        drawables: &mut Vec<Drawable>,
        viewport: &mut Viewport,
    ) -> (quit: bool)
        ensures
            final(self)@.wf(),
            final(self)@.modes == old(self)@.modes,
            quit == (*action == Action::Quit),
            (final(self)@.current, final(drawables)@, final(viewport)@) == Self::applied(
                old(self)@.modes,
                old(self)@.current,
                old(drawables)@,
                old(viewport)@,
                *action,
            ),
    {
        proof {
            use_type_invariant(&*self);
        }
        match action {
            Action::SwitchMode(name) => {
                match self.find_mode(name) {
                    Some(target) => {
                        switch_drawables(
                            drawables,
                            &self.modes[self.current].active,
                            &self.modes[target].active,
                        );
                        self.current = target;
                    },
                    None => {},
                }
                false
            },
            Action::ToggleDrawable(id) => {
                toggle_drawables(drawables, *id);
                false
            },
            Action::PanViewport(dx, dy) => {
                viewport.pan(*dx, *dy);
                false
            },
            Action::ZoomViewport(permille) => {
                viewport.zoom_by(*permille);
                false
            },
            Action::RotateViewport(delta) => {
                viewport.rotate_by(*delta);
                false
            },
            Action::Quit => true,
            Action::Unmapped => false,
        }
    }
}

} // verus!
