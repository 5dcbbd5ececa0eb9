//! The queue of edit commands that native menu items hand to the focused
//! text widget.

use vstd::prelude::*;
use std::collections::VecDeque;

verus! {

/// An edit command chosen from the native menu.
#[derive(Debug, Clone, Copy, PartialEq, Eq, Structural)]
pub enum EditCommand {
    Undo,
    Redo,
    Cut,
    Copy,
    Paste,
    SelectAll,
}

/// Commands waiting to be replayed, oldest first.
#[derive(Debug)]
pub struct EditCommandQueue {
    commands: VecDeque<EditCommand>,
}

impl EditCommandQueue {
    /// The waiting commands, oldest first.
    pub closed spec fn view(&self) -> Seq<EditCommand> {
        self.commands@
    }
}

/// An empty command queue.
pub fn command_queue() -> (q: EditCommandQueue)
    ensures
        q.view() == Seq::<EditCommand>::empty(),
{
    EditCommandQueue { commands: VecDeque::new() }
}

/// Queues a command behind those waiting.
pub fn queue_command(queue: &mut EditCommandQueue, command: EditCommand)
    ensures
        final(queue).view() == old(queue).view().push(command),
{
    queue.commands.push_back(command);
}

/// Takes the oldest waiting command.
pub fn pop_command(queue: &mut EditCommandQueue) -> (res: Option<EditCommand>)
    ensures
        old(queue).view().len() == 0 ==> res is None && final(queue).view() == old(queue).view(),
        old(queue).view().len() > 0 ==> res == Some(old(queue).view()[0]) && final(queue).view()
            == old(queue).view().drop_first(),
{
    let r = queue.commands.pop_front();
    proof {
        if old(queue).view().len() > 0 {
            assert(queue.view() =~= old(queue).view().drop_first());
        }
    }
    r
}

/// Law: commands come out in the order they were queued.
pub proof fn law_queue_fifo(waiting: Seq<EditCommand>, a: EditCommand, b: EditCommand)
    ensures
        waiting.len() == 0 ==> ({
            let q = waiting.push(a).push(b);
            &&& q[0] == a
            &&& q.drop_first()[0] == b
            &&& q.drop_first().drop_first().len() == 0
        }),
{
}

} // verus!
