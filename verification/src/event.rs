//! Input events and the context an element uses to react to them.

use vstd::prelude::*;

use crate::geometry::TuiPoint;
use crate::thinking::MessageId;

verus! {

/// Modifier keys held during an event.
#[derive(Clone, Copy, Debug, PartialEq, Eq, Structural)]
pub struct ModifiersState {
    pub shift: bool,
    pub ctrl: bool,
    pub alt: bool,
    pub cmd: bool,
    pub func: bool,
}

impl Default for ModifiersState {
    fn default() -> (r: ModifiersState)
        ensures
            r == (ModifiersState { shift: false, ctrl: false, alt: false, cmd: false, func: false }),
    {
        ModifiersState { shift: false, ctrl: false, alt: false, cmd: false, func: false }
    }
}

/// An input event delivered to an element tree.
#[derive(Clone, Copy, Debug, PartialEq, Eq, Structural)]
pub enum TuiEvent {
    LeftMouseDown {
        position: TuiPoint,
        modifiers: ModifiersState,
        click_count: u32,
        is_first_mouse: bool,
    },
    LeftMouseUp { position: TuiPoint, modifiers: ModifiersState },
    MouseMoved { position: TuiPoint },
    KeyDown { key: char, modifiers: ModifiersState },
}

/// A request that an element hands back to the view that owns its state.
#[derive(Clone, Debug, PartialEq, Eq)]
pub enum TuiAction {
    /// The header of the thinking block of this message was clicked.
    ToggleThinking(MessageId),
}

/// What handlers of one event asked for: a redraw, and actions for the
/// owning view, in the order they were dispatched.
pub struct TuiEventContext {
    notified: bool,
    actions: Vec<TuiAction>,
}

impl TuiEventContext {
    /// Whether a redraw was requested.
    pub closed spec fn redraw_requested(&self) -> bool {
        self.notified
    }

    /// The actions dispatched so far.
    pub closed spec fn dispatched(&self) -> Seq<TuiAction> {
        self.actions@
    }

    /// Requests a redraw.
    pub fn notify(&mut self)
        ensures
            final(self).redraw_requested(),
            final(self).dispatched() == old(self).dispatched(),
    {
        self.notified = true;
    }

    /// Whether a redraw was requested.
    pub fn is_notified(&self) -> (r: bool)
        ensures
            r == self.redraw_requested(),
    {
        self.notified
    }

    /// Hands `action` to the owning view.
    pub fn dispatch_action(&mut self, action: TuiAction)
        ensures
            final(self).dispatched() == old(self).dispatched().push(action),
            final(self).redraw_requested() == old(self).redraw_requested(),
    {
        self.actions.push(action);
    }

    /// Removes and returns the dispatched actions, oldest first.
    pub fn take_actions(&mut self) -> (r: Vec<TuiAction>)
        ensures
            r@ == old(self).dispatched(),
            final(self).dispatched() == Seq::<TuiAction>::empty(),
            final(self).redraw_requested() == old(self).redraw_requested(),
    {
        let mut taken: Vec<TuiAction> = Vec::new();
        std::mem::swap(&mut taken, &mut self.actions);
        taken
    }
}

impl Default for TuiEventContext {
    fn default() -> (r: TuiEventContext)
        ensures
            !r.redraw_requested(),
            r.dispatched() == Seq::<TuiAction>::empty(),
    {
        TuiEventContext { notified: false, actions: Vec::new() }
    }
}

} // verus!
