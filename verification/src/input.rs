//! Mapping raw input events onto the simulation's abstract actions.
//!
//! The surrounding application reduces whatever input device it reads to a
//! plain key or mouse-button code before calling in; the mapper only keeps
//! the code-to-action tables and answers lookups, with `Idle` for anything
//! unmapped.

use vstd::prelude::*;

verus! {

/// The closed set of user intents the simulation consumes.
#[derive(Clone, Copy, Debug, PartialEq, Eq)]
pub enum PlayerActions {
    Idle,
    RunSimulation,
    NextStep,
    ToggleTile,
    CountNeightbours,
}

/// A raw input event, reduced to the plain values the mapper reads: a
/// keyboard key code, a mouse button code, or anything else.
#[derive(Clone, Copy, Debug, PartialEq, Eq)]
pub enum InputEvent {
    Keyboard(u32),
    Mouse(u32),
    Other,
}

/// The action a mapping list assigns to `code`: the latest entry for the
/// code wins, and `Idle` stands where no entry matches.
pub open spec fn mapped_action(s: Seq<(u32, PlayerActions)>, code: u32) -> PlayerActions
    decreases s.len(),
{
    if s.len() == 0 {
        PlayerActions::Idle
    } else if s.last().0 == code {
        s.last().1
    } else {
        mapped_action(s.drop_last(), code)
    }
}

/// Translates key codes and mouse-button codes into `PlayerActions`.
pub struct InputHandler {
    mappings: Vec<(u32, PlayerActions)>,
    click_mappings: Vec<(u32, PlayerActions)>,
}

/// Look `code` up in a mapping list; the latest matching entry wins.
fn lookup(table: &Vec<(u32, PlayerActions)>, code: u32) -> (a: PlayerActions)
    ensures
        a == mapped_action(table@, code),
{
    let mut result = PlayerActions::Idle;
    let mut i: usize = 0;
    while i < table.len()
        invariant
            i <= table@.len(),
            result == mapped_action(table@.take(i as int), code),
        decreases table@.len() - i,
    {
        let entry = table[i];
        if entry.0 == code {
            result = entry.1;
        }
        proof {
            assert(table@.take(i + 1).drop_last() =~= table@.take(i as int));
            assert(table@.take(i + 1).last() == table@[i as int]);
        }
        i = i + 1;
    }
    proof {
        assert(table@.take(table@.len() as int) =~= table@);
    }
    result
}

impl InputHandler {
    /// The action the keyboard table assigns to `code`.
    pub closed spec fn key_action(&self, code: u32) -> PlayerActions {
        mapped_action(self.mappings@, code)
    }

    /// The action the mouse table assigns to `code`.
    pub closed spec fn click_action(&self, code: u32) -> PlayerActions {
        mapped_action(self.click_mappings@, code)
    }

    /// A handler with no mappings: everything is `Idle`.
    pub fn new() -> (h: InputHandler)
        ensures
            forall|code: u32| h.key_action(code) == PlayerActions::Idle,
            forall|code: u32| h.click_action(code) == PlayerActions::Idle,
    {
        InputHandler { mappings: Vec::new(), click_mappings: Vec::new() }
    }

    /// Bind a key code to an action, overriding any earlier binding of the
    /// same code; mouse bindings are untouched.
    pub fn add_mapping(&mut self, key: u32, action: PlayerActions)
        ensures
            forall|code: u32|
                final(self).key_action(code) == (if code == key {
                    action
                } else {
                    old(self).key_action(code)
                }),
            forall|code: u32| final(self).click_action(code) == old(self).click_action(code),
    {
        self.mappings.push((key, action));
        proof {
            assert(self.mappings@.drop_last() =~= old(self).mappings@);
            assert(self.mappings@.last() == (key, action));
        }
    }

    /// Bind a mouse-button code to an action, overriding any earlier binding
    /// of the same code; key bindings are untouched.
    pub fn add_click_mapping(&mut self, button: u32, action: PlayerActions)
        ensures
            forall|code: u32|
                final(self).click_action(code) == (if code == button {
                    action
                } else {
                    old(self).click_action(code)
                }),
            forall|code: u32| final(self).key_action(code) == old(self).key_action(code),
    {
        self.click_mappings.push((button, action));
        proof {
            assert(self.click_mappings@.drop_last() =~= old(self).click_mappings@);
            assert(self.click_mappings@.last() == (button, action));
        }
    }

    /// The action bound to a key code, `Idle` where none is.
    pub fn handle_keyboard(&self, key: u32) -> (a: PlayerActions)
        ensures
            a == self.key_action(key),
    {
        lookup(&self.mappings, key)
    }

    /// The action bound to a mouse-button code, `Idle` where none is.
    pub fn handle_mouse(&self, button: u32) -> (a: PlayerActions)
        ensures
            a == self.click_action(button),
    {
        lookup(&self.click_mappings, button)
    }
}

/// Dispatch one raw event: keys go to the keyboard table, buttons to the
/// mouse table, anything else is `Idle`.
pub fn handle_input(handler: &InputHandler, event: InputEvent) -> (a: PlayerActions)
    ensures
        a == (match event {
            InputEvent::Keyboard(key) => handler.key_action(key),
            InputEvent::Mouse(button) => handler.click_action(button),
            InputEvent::Other => PlayerActions::Idle,
        }),
{
    match event {
        InputEvent::Keyboard(key) => handler.handle_keyboard(key),
        InputEvent::Mouse(button) => handler.handle_mouse(button),
        InputEvent::Other => PlayerActions::Idle,
    }
}

} // verus!
