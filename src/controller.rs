use vstd::prelude::*;
use crate::object::{Avatar, Object};

verus! {

/// A logical action an entity can be asked to perform.
#[derive(Debug, Clone, Copy, PartialEq, Eq, Hash, Structural)]
pub enum Command {
    Up,
    Down,
    Left,
    Right,
    RightRotate,
    LeftRotate,
}

/// How many commands there are.
pub const COMMAND_COUNT: usize = 6;

impl Command {
    /// The slot that holds this command's state.
    pub open spec fn spec_index(self) -> int {
        match self {
            Command::Up => 0,
            Command::Down => 1,
            Command::Left => 2,
            Command::Right => 3,
            Command::RightRotate => 4,
            Command::LeftRotate => 5,
        }
    }

    pub fn index(self) -> (r: usize)
        ensures
            r == self.spec_index(),
    {
        match self {
            Command::Up => 0,
            Command::Down => 1,
            Command::Left => 2,
            Command::Right => 3,
            Command::RightRotate => 4,
            Command::LeftRotate => 5,
        }
    }

    /// Whether the command is a rotation, which entities cannot perform yet.
    pub open spec fn is_rotation(self) -> bool {
        self is RightRotate || self is LeftRotate
    }
}

/// A physical key.
#[derive(Debug, Clone, Copy, PartialEq, Eq, Hash, Structural)]
pub enum KeyCode {
    KeyW,
    KeyA,
    KeyS,
    KeyD,
    ArrowUp,
    ArrowDown,
    ArrowLeft,
    ArrowRight,
    Escape,
    /// Any other key, by a code of the platform's.
    Other(u32),
}

/// An event of the window that the controller may be handed.
#[derive(Debug, Clone, Copy, PartialEq, Eq, Structural)]
pub enum InputEvent {
    /// A key went down (`pressed`) or up.
    Keyboard { key: KeyCode, pressed: bool },
    /// The window was asked to close.
    CloseRequested,
    /// The window wants a new frame.
    RedrawRequested,
    /// Anything else.
    Other,
}

/// The command that `key` is bound to: the first binding of that key.
pub open spec fn bound(binds: Seq<(KeyCode, Command)>, key: KeyCode) -> Option<Command>
    decreases binds.len(),
{
    if binds.len() == 0 {
        None
    } else if binds[0].0 == key {
        Some(binds[0].1)
    } else {
        bound(binds.skip(1), key)
    }
}

/// The held flags after `event`: a bound key sets its command's flag to
/// whether it is pressed; anything else changes nothing.
pub open spec fn event_effect(binds: Seq<(KeyCode, Command)>, held: Seq<bool>, event: InputEvent) -> Seq<bool> {
    match event {
        InputEvent::Keyboard { key, pressed } => match bound(binds, key) {
            Some(c) => held.update(c.spec_index(), pressed),
            None => held,
        },
        _ => held,
    }
}

/// Whether the controller takes `event` as movement input: a press of a
/// bound key.
pub open spec fn consumed(binds: Seq<(KeyCode, Command)>, event: InputEvent) -> bool {
    match event {
        InputEvent::Keyboard { key, pressed } => bound(binds, key) is Some && pressed,
        _ => false,
    }
}

/// `o` after the move of each held directional command, in the order up,
/// down, left, right.
pub open spec fn dispatch<O: Object>(held: Seq<bool>, o: O) -> O {
    let o1 = if held[Command::Up.spec_index()] { o.spec_after(Command::Up) } else { o };
    let o2 = if held[Command::Down.spec_index()] { o1.spec_after(Command::Down) } else { o1 };
    let o3 = if held[Command::Left.spec_index()] { o2.spec_after(Command::Left) } else { o2 };
    if held[Command::Right.spec_index()] { o3.spec_after(Command::Right) } else { o3 }
}

/// The held commands that no entity can perform yet, in the order right
/// rotation, left rotation.
pub open spec fn unsupported(held: Seq<bool>) -> Seq<Command> {
    let r = if held[Command::RightRotate.spec_index()] { seq![Command::RightRotate] } else { seq![] };
    if held[Command::LeftRotate.spec_index()] { r.push(Command::LeftRotate) } else { r }
}

/// Turns key events into held commands, and held commands into moves.
pub struct InputController {
    commands: Vec<bool>,
    key_binds: Vec<(KeyCode, Command)>,
}

impl InputController {
    /// Whether each command is held, by its slot.
    pub closed spec fn spec_held(&self) -> Seq<bool> {
        self.commands@
    }

    /// The key bindings, earliest first.
    pub closed spec fn spec_bindings(&self) -> Seq<(KeyCode, Command)> {
        self.key_binds@
    }

    /// Every command has a slot.
    pub open spec fn wf(&self) -> bool {
        self.spec_held().len() == COMMAND_COUNT
    }

    /// A controller with `W`, `S`, `A` and `D` bound to up, down, left and
    /// right, and nothing held.
    pub fn new() -> (r: Self)
        ensures
            r.wf(),
            r.spec_held() == Seq::new(COMMAND_COUNT as nat, |i: int| false),
            r.spec_bindings() == seq![
                (KeyCode::KeyW, Command::Up),
                (KeyCode::KeyS, Command::Down),
                (KeyCode::KeyA, Command::Left),
                (KeyCode::KeyD, Command::Right),
            ],
    {
        let commands_list = [Command::Up, Command::Down, Command::Left, Command::Right];
        let input_list = [KeyCode::KeyW, KeyCode::KeyS, KeyCode::KeyA, KeyCode::KeyD];
        let mut key_binds: Vec<(KeyCode, Command)> = Vec::new();
        let mut i: usize = 0;
        while i < 4
            invariant
                0 <= i <= 4,
                commands_list@ == seq![Command::Up, Command::Down, Command::Left, Command::Right],
                input_list@ == seq![KeyCode::KeyW, KeyCode::KeyS, KeyCode::KeyA, KeyCode::KeyD],
                key_binds@.len() == i,
                forall|j: int| 0 <= j < i ==> #[trigger] key_binds@[j] == (input_list@[j], commands_list@[j]),
            decreases 4 - i,
        {
            key_binds.push((input_list[i], commands_list[i]));
            i = i + 1;
        }
        let r = Self::with_bindings(key_binds);
        assert(r.spec_bindings() =~= seq![
            (KeyCode::KeyW, Command::Up),
            (KeyCode::KeyS, Command::Down),
            (KeyCode::KeyA, Command::Left),
            (KeyCode::KeyD, Command::Right),
        ]);
        r
    }

    /// A controller with the given bindings and nothing held. Where a key is
    /// bound more than once, its first binding counts.
    pub fn with_bindings(key_binds: Vec<(KeyCode, Command)>) -> (r: Self)
        ensures
            r.wf(),
            r.spec_held() == Seq::new(COMMAND_COUNT as nat, |i: int| false),
            r.spec_bindings() == key_binds@,
    {
        let mut commands: Vec<bool> = Vec::new();
        let mut i: usize = 0;
        while i < COMMAND_COUNT
            invariant
                0 <= i <= COMMAND_COUNT,
                commands@.len() == i,
                forall|j: int| 0 <= j < i ==> !#[trigger] commands@[j],
            decreases COMMAND_COUNT - i,
        {
            commands.push(false);
            i = i + 1;
        }
        let r = Self { commands, key_binds };
        assert(r.spec_held() =~= Seq::new(COMMAND_COUNT as nat, |i: int| false));
        r
    }

    /// Whether `c` is held.
    pub fn is_held(&self, c: Command) -> (r: bool)
        requires
            self.wf(),
        ensures
            r == self.spec_held()[c.spec_index()],
    {
        self.commands[c.index()]
    }

    /// The command that `key` is bound to.
    pub fn binding(&self, key: KeyCode) -> (r: Option<Command>)
        ensures
            r == bound(self.spec_bindings(), key),
    {
        let mut i: usize = 0;
        assert(self.key_binds@.skip(0) =~= self.key_binds@);
        while i < self.key_binds.len()
            invariant
                0 <= i <= self.key_binds@.len(),
                bound(self.key_binds@, key) == bound(self.key_binds@.skip(i as int), key),
            decreases self.key_binds@.len() - i,
        {
            let (k, c) = self.key_binds[i];
            assert(self.key_binds@.skip(i as int).skip(1) =~= self.key_binds@.skip(i + 1));
            if k == key {
                return Some(c);
            }
            i = i + 1;
        }
        assert(self.key_binds@.skip(i as int) =~= Seq::<(KeyCode, Command)>::empty());
        None
    }

    /// Takes a window event: a key that is bound sets its command held or
    /// released; other keys and events change nothing. Returns whether the
    /// event was a press of a bound key, that is, movement input that needs no
    /// further handling.
    pub fn process(&mut self, event: &InputEvent) -> (r: bool)
        requires
            old(self).wf(),
        ensures
            final(self).wf(),
            final(self).spec_bindings() == old(self).spec_bindings(),
            final(self).spec_held() == event_effect(old(self).spec_bindings(), old(self).spec_held(), *event),
            r == consumed(old(self).spec_bindings(), *event),
    {
        let mut return_val = false;
        match event {
            InputEvent::Keyboard { key, pressed } => {
                match self.binding(*key) {
                    Some(command) => {
                        self.commands.set(command.index(), *pressed);
                        return_val = *pressed;
                    },
                    None => {},
                }
            },
            _ => {},
        }
        return_val
    }

    /// Performs each held directional command on `object` once, in the order
    /// up, down, left, right, and returns the held commands that it cannot
    /// perform yet (the rotations).
    pub fn update<O: Object>(&mut self, object: &mut O) -> (r: Vec<Command>)
        requires
            old(self).wf(),
        ensures
            *final(self) == *old(self),
            *final(object) == dispatch(old(self).spec_held(), *old(object)),
            r@ == unsupported(old(self).spec_held()),
    {
        if self.commands[Command::Up.index()] {
            object.move_up();
        }
        if self.commands[Command::Down.index()] {
            object.move_down();
        }
        if self.commands[Command::Left.index()] {
            object.move_left();
        }
        if self.commands[Command::Right.index()] {
            object.move_right();
        }
        let mut pending: Vec<Command> = Vec::new();
        if self.commands[Command::RightRotate.index()] {
            pending.push(Command::RightRotate);
        }
        if self.commands[Command::LeftRotate.index()] {
            pending.push(Command::LeftRotate);
        }
        assert(pending@ =~= unsupported(self.spec_held()));
        pending
    }
}

/// The held flags with exactly the commands `c1` and `c2` held.
pub open spec fn holding(c1: Command, c2: Command) -> Seq<bool> {
    Seq::new(COMMAND_COUNT as nat, |i: int| i == c1.spec_index() || i == c2.spec_index())
}

/// An event of a key that no binding names changes no held flag.
pub proof fn law_unbound_key_ignored(
    binds: Seq<(KeyCode, Command)>,
    held: Seq<bool>,
    key: KeyCode,
    pressed: bool,
)
    requires
        bound(binds, key) is None,
    ensures
        event_effect(binds, held, InputEvent::Keyboard { key, pressed }) == held,
{
}

/// After any event of a bound key, its command's flag is the event's pressed
/// state, and no other flag changes; so pressing and then releasing a key
/// whose command was released leaves every flag as it was.
pub proof fn law_press_then_release(
    binds: Seq<(KeyCode, Command)>,
    held: Seq<bool>,
    key: KeyCode,
    pressed: bool,
)
    requires
        held.len() == COMMAND_COUNT,
        bound(binds, key) is Some,
    ensures
        event_effect(binds, held, InputEvent::Keyboard { key, pressed })[bound(binds, key)->0.spec_index()] == pressed,
        forall|c: Command| c != bound(binds, key)->0 ==> #[trigger] event_effect(binds, held, InputEvent::Keyboard { key, pressed })[c.spec_index()] == held[c.spec_index()],
        !held[bound(binds, key)->0.spec_index()] ==> event_effect(
            binds,
            event_effect(binds, held, InputEvent::Keyboard { key, pressed: true }),
            InputEvent::Keyboard { key, pressed: false },
        ) == held,
{
    let c = bound(binds, key)->0;
    assert forall|d: Command| d != c implies #[trigger] event_effect(binds, held, InputEvent::Keyboard { key, pressed })[d.spec_index()] == held[d.spec_index()] by {
        assert(d.spec_index() != c.spec_index());
    }
    if !held[c.spec_index()] {
        let s1 = event_effect(binds, held, InputEvent::Keyboard { key, pressed: true });
        assert(event_effect(binds, s1, InputEvent::Keyboard { key, pressed: false }) =~= held);
    }
}

/// The held flags after each of `events` in turn.
pub open spec fn run_events(binds: Seq<(KeyCode, Command)>, held: Seq<bool>, events: Seq<InputEvent>) -> Seq<bool>
    decreases events.len(),
{
    if events.len() == 0 {
        held
    } else {
        event_effect(binds, run_events(binds, held, events.drop_last()), events.last())
    }
}

/// The pressed state of the last of `events` that is an event of a key bound
/// to `c`, or `false` where there is none.
pub open spec fn last_pressed(binds: Seq<(KeyCode, Command)>, c: Command, events: Seq<InputEvent>) -> bool
    decreases events.len(),
{
    if events.len() == 0 {
        false
    } else {
        match events.last() {
            InputEvent::Keyboard { key, pressed } if bound(binds, key) == Some(c) => pressed,
            _ => last_pressed(binds, c, events.drop_last()),
        }
    }
}

/// Starting with nothing held, after any run of events each command is held
/// exactly when the last event of a key bound to it was a press.
pub proof fn law_held_follows_last_event(
    binds: Seq<(KeyCode, Command)>,
    held: Seq<bool>,
    events: Seq<InputEvent>,
)
    requires
        held.len() == COMMAND_COUNT,
        forall|i: int| 0 <= i < COMMAND_COUNT ==> !#[trigger] held[i],
    ensures
        run_events(binds, held, events).len() == COMMAND_COUNT,
        forall|c: Command| #[trigger] run_events(binds, held, events)[c.spec_index()] == last_pressed(binds, c, events),
    decreases events.len(),
{
    if events.len() > 0 {
        let prev = events.drop_last();
        law_held_follows_last_event(binds, held, prev);
        let before = run_events(binds, held, prev);
        assert forall|c: Command| #[trigger] run_events(binds, held, events)[c.spec_index()] == last_pressed(binds, c, events) by {
            assert(before[c.spec_index()] == last_pressed(binds, c, prev));
            match events.last() {
                InputEvent::Keyboard { key, pressed } => {
                    match bound(binds, key) {
                        Some(d) => {
                            if d != c {
                                assert(d.spec_index() != c.spec_index());
                            }
                        },
                        None => {},
                    }
                },
                _ => {},
            }
        }
    } else {
        assert forall|c: Command| #[trigger] run_events(binds, held, events)[c.spec_index()] == last_pressed(binds, c, events) by {
            assert(!held[c.spec_index()]);
        }
    }
}

/// Holding one vertical and one horizontal command moves an avatar by the sum
/// of the moves that each command makes alone, as long as no coordinate
/// reaches the end of its range.
pub proof fn law_orthogonal_moves(a: Avatar, vertical: Command, horizontal: Command)
    requires
        vertical is Up || vertical is Down,
        horizontal is Left || horizontal is Right,
        fits_shift(a.placement.y as int, Avatar::displacement(a.step as int, vertical).1),
        fits_shift(a.placement.x as int, Avatar::displacement(a.step as int, horizontal).0),
    ensures
        ({
            let both = dispatch(holding(vertical, horizontal), a).placement;
            let v = dispatch(holding(vertical, vertical), a).placement;
            let h = dispatch(holding(horizontal, horizontal), a).placement;
            &&& both.x - a.placement.x == (v.x - a.placement.x) + (h.x - a.placement.x)
            &&& both.y - a.placement.y == (v.y - a.placement.y) + (h.y - a.placement.y)
            &&& both.z == a.placement.z
        }),
{
}

/// Whether `v + d` stays within the `i64` range.
pub open spec fn fits_shift(v: int, d: int) -> bool {
    i64::MIN <= v + d <= i64::MAX
}

} // verus!
