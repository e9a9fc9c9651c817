use vstd::prelude::*;

verus! {

/// One directional move input.
#[derive(Clone, Copy, Debug, PartialEq, Eq, Structural)]
pub enum MoveCommand {
    Up,
    Down,
    Left,
    Right,
}

/// Moves waiting to be carried out, oldest first, and the key seen most
/// recently, which lets a held key be told apart from a new press.
#[derive(Debug)]
pub struct InputQueue {
    pub commands: Vec<MoveCommand>,
    pub last_key: Option<MoveCommand>,
}

impl Default for InputQueue {
    fn default() -> (r: Self)
        ensures
            r.commands@ == Seq::<MoveCommand>::empty(),
            r.last_key is None,
    {
        InputQueue { commands: Vec::new(), last_key: None }
    }
}

} // verus!
