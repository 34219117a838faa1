use vstd::prelude::*;
use crate::controller::{dispatch, unsupported, Command, InputController, InputEvent, KeyCode};
use crate::object::{Object, Placement};
use crate::physics::{Kinetics, Vector, UNIT};

verus! {

/// The four coordinates that a placement hands the renderer.
pub open spec fn location_of(p: Placement) -> Seq<i64> {
    seq![p.x, p.y, p.z, 0i64]
}

/// The per-frame payload of the renderer: a location and a colour, each four
/// fixed-point numbers.
#[derive(Debug, Clone, Copy)]
pub struct PlacementUniform {
    pub location: [i64; 4],
    pub color: [i64; 4],
}

impl PlacementUniform {
    /// A payload at the origin, coloured teal (half green, half blue) and opaque.
    pub fn new() -> (r: Self)
        ensures
            r.location@ == seq![0i64, 0, 0, 0],
            r.color@ == seq![0i64, 500, 500, 1000],
    {
        let r = Self { location: [0, 0, 0, 0], color: [0, UNIT / 2, UNIT / 2, UNIT] };
        assert(UNIT / 2 == 500);
        assert(r.location@ =~= seq![0i64, 0, 0, 0]);
        assert(r.color@ =~= seq![0i64, 500, 500, 1000]);
        r
    }

    /// Writes `placement`'s coordinates into the payload; the colour stays.
    pub fn update(&mut self, placement: &Placement)
        ensures
            final(self).location@ == location_of(*placement),
            final(self).color == old(self).color,
    {
        self.location = placement.placement_vector();
    }

    /// The coordinates that the payload holds, as `(x, y, z)`.
    pub fn position(&self) -> (r: (i64, i64, i64))
        ensures
            r == (self.location@[0], self.location@[1], self.location@[2]),
    {
        (self.location[0], self.location[1], self.location[2])
    }
}

/// A body's placement, packed into the payload and read back, gives the
/// body's position in the plane `z = 0`; so after any step of the body.
pub proof fn law_payload_round_trip(
    k: Kinetics,
    forces: Seq<Vector>,
    dt: int,
    next: Kinetics,
    packed: PlacementUniform,
)
    requires
        k.stepped(forces, dt, next),
        packed.location@ == location_of(Placement::spec_from_kinetics(next)),
    ensures
        (packed.location@[0], packed.location@[1], packed.location@[2]) == (
            next.spec_position().x,
            next.spec_position().y,
            0i64,
        ),
{
}

/// One frame of the simulation: the held commands move `object`, and the
/// payload takes its new placement. Returns the held commands that the object
/// cannot perform yet.
pub fn advance_frame<O: Object>(
    controller: &mut InputController,
    object: &mut O,
    uniform: &mut PlacementUniform,
) -> (r: Vec<Command>)
    requires
        old(controller).wf(),
    ensures
        *final(controller) == *old(controller),
        *final(object) == dispatch(old(controller).spec_held(), *old(object)),
        final(uniform).location@ == location_of(final(object).spec_placement()),
        final(uniform).color == old(uniform).color,
        r@ == unsupported(old(controller).spec_held()),
{
    let pending = controller.update(object);
    uniform.update(object.placement());
    pending
}

/// What the event loop does next.
#[derive(Debug, Clone, Copy, PartialEq, Eq, Structural)]
pub enum LoopAction {
    /// Nothing more for this event.
    Continue,
    /// Advance and draw a frame.
    Redraw,
    /// Leave the loop.
    Exit,
}

/// Why drawing a frame failed.
#[derive(Debug, Clone, Copy, PartialEq, Eq, Structural)]
pub enum SurfaceFault {
    Lost,
    Outdated,
    OutOfMemory,
    Timeout,
}

/// What follows a window event that the controller did (`consumed`) or did
/// not take: a close request or a press of Escape ends the loop, a redraw
/// request draws a frame, anything else is left alone.
pub fn on_window_event(consumed: bool, event: &InputEvent) -> (r: LoopAction)
    ensures
        r == (if consumed {
            LoopAction::Continue
        } else {
            match *event {
                InputEvent::CloseRequested => LoopAction::Exit,
                InputEvent::Keyboard { key: KeyCode::Escape, pressed: true } => LoopAction::Exit,
                InputEvent::RedrawRequested => LoopAction::Redraw,
                _ => LoopAction::Continue,
            }
        }),
{
    if consumed {
        return LoopAction::Continue;
    }
    match event {
        InputEvent::CloseRequested => LoopAction::Exit,
        InputEvent::Keyboard { key: KeyCode::Escape, pressed: true } => LoopAction::Exit,
        InputEvent::RedrawRequested => LoopAction::Redraw,
        _ => LoopAction::Continue,
    }
}

/// What follows a failed frame: running out of memory ends the loop; a lost
/// or outdated surface or a timeout skips the frame.
pub fn on_surface_fault(fault: SurfaceFault) -> (r: LoopAction)
    ensures
        r == (if fault is OutOfMemory {
            LoopAction::Exit
        } else {
            LoopAction::Continue
        }),
{
    match fault {
        SurfaceFault::OutOfMemory => LoopAction::Exit,
        _ => LoopAction::Continue,
    }
}

} // verus!
