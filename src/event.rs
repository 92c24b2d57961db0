use vstd::prelude::*;
use crate::geometry::LocalPoint;

verus! {

/// A key on the keyboard.
#[derive(Clone, Copy, Debug, PartialEq, Eq, Structural)]
pub enum Key {
    Character(char),
    Enter,
    Tab,
    Space,
    Backspace,
    Delete,
    Escape,
    Home,
    End,
    PageUp,
    PageDown,
    ArrowUp,
    ArrowDown,
    ArrowLeft,
    ArrowRight,
}

/// An input event delivered to the root of the tree.
#[derive(Clone, Copy, Debug, PartialEq, Eq, Structural)]
pub enum Event {
    /// A touch or click began.
    TouchBegin { id: usize, position: LocalPoint },
    /// A touch or drag moved.
    TouchMove { id: usize, position: LocalPoint },
    /// A touch or click ended.
    TouchEnd { id: usize, position: LocalPoint },
    /// A key was pressed.
    Key(Key),
}

/// An entry of a context menu or command list.
#[derive(Clone, Debug)]
pub struct CommandInfo {
    /// The menu path of the command, such as `"Edit/Copy"`.
    pub path: String,
    /// The key that triggers it, if any.
    pub key: Option<Key>,
}

} // verus!
