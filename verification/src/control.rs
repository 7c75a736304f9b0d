//! The frame-loop decisions: which window events end the session, and
//! what each event does to the scene. The surrounding event loop only
//! translates raw window events into `SimEvent` values, calls
//! `handle_event`, and obeys the returned `Action`.

use vstd::prelude::*;

use crate::geometry::Point;
use crate::geometry::in_bounds;
use crate::world::World;
use crate::world::WorldModel;
use crate::world::assign_step;
use crate::world::model_wf;
use crate::world::tick_step;

verus! {

/// A window event, reduced to what the simulation cares about.
#[derive(Clone, Copy, Debug, PartialEq, Eq)]
pub enum SimEvent {
    /// The window was asked to close.
    CloseRequested,
    /// The escape key was pressed.
    EscapePressed,
    /// The pointer was clicked at this spot of the scene.
    Click(Point),
    /// A frame elapsed.
    FrameTick,
    /// Any other event; ignored.
    Other,
}

/// What the event loop must do after an event was handled.
#[derive(Clone, Copy, Debug, PartialEq, Eq, Structural)]
pub enum Action {
    /// Leave the event loop.
    Exit,
    /// Keep running.
    Continue,
}

/// The scene after an event: a click sends the nearest idle worker, a
/// frame tick advances every travelling worker, everything else leaves
/// the scene alone.
pub open spec fn event_step(m: WorldModel, ev: SimEvent) -> WorldModel {
    match ev {
        SimEvent::Click(p) => assign_step(m, p),
        SimEvent::FrameTick => tick_step(m),
        SimEvent::CloseRequested => m,
        SimEvent::EscapePressed => m,
        SimEvent::Other => m,
    }
}

/// The action an event demands: only a close request or the escape key
/// ends the session.
pub open spec fn event_action(ev: SimEvent) -> Action {
    match ev {
        SimEvent::CloseRequested => Action::Exit,
        SimEvent::EscapePressed => Action::Exit,
        SimEvent::Click(_) => Action::Continue,
        SimEvent::FrameTick => Action::Continue,
        SimEvent::Other => Action::Continue,
    }
}

/// Handle one event: apply its effect to the scene and say whether the
/// event loop should keep running.
pub fn handle_event(world: &mut World, ev: SimEvent) -> (a: Action)
    requires
        old(world).wf(),
        ev matches SimEvent::Click(p) ==> in_bounds(p),
    ensures
        final(world).wf(),
        final(world)@ == event_step(old(world)@, ev),
        a == event_action(ev),
{
    match ev {
        SimEvent::CloseRequested => Action::Exit,
        SimEvent::EscapePressed => Action::Exit,
        SimEvent::Click(p) => {
            world.assign_target(p);
            Action::Continue
        },
        SimEvent::FrameTick => {
            world.tick();
            Action::Continue
        },
        SimEvent::Other => Action::Continue,
    }
}

/// Every event keeps the scene invariant: whatever arrives, a well
/// formed scene stays well formed.
pub proof fn lemma_event_preserves_wf(m: WorldModel, ev: SimEvent)
    requires
        model_wf(m),
        ev matches SimEvent::Click(p) ==> in_bounds(p),
    ensures
        model_wf(event_step(m, ev)),
{
    match ev {
        SimEvent::Click(p) => {
            crate::world::lemma_nearest_idle_correct(m.workers, p);
            let m2 = assign_step(m, p);
            assert forall|i: int| 0 <= i < m2.workers.len() implies crate::world::worker_wf(
                #[trigger] m2.workers[i],
            ) by {
                assert(crate::world::worker_wf(m.workers[i]));
            }
        },
        SimEvent::FrameTick => {
            let m2 = tick_step(m);
            assert forall|i: int| 0 <= i < m2.workers.len() implies crate::world::worker_wf(
                #[trigger] m2.workers[i],
            ) by {
                crate::world::lemma_stepped_wf(m.workers[i], m.speed);
            }
        },
        _ => {},
    }
}

} // verus!
