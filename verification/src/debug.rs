use vstd::prelude::*;
use std::collections::VecDeque;

verus! {

/// State of the in-game debug console.
pub struct DebugConsole {
    /// Whether the console panel is shown.
    pub console_open: bool,
    /// The command line being typed.
    pub cmd_buffer: String,
    /// Commands entered so far, latest first.
    pub cmd_history: VecDeque<String>,
    /// Lines the console has printed, latest first.
    pub output: VecDeque<String>,
}

/// The line printed for a command that the console does not know.
pub open spec fn not_found_message(cmd: Seq<char>) -> Seq<char> {
    "Command "@ + cmd + " not found"@
}

/// What running the command line does to the console: an empty line does
/// nothing; otherwise the line is cleared, the command goes to the front of
/// the history, and the "not found" message to the front of the output.
pub open spec fn invoked(before: DebugConsole, after: DebugConsole) -> bool {
    if before.cmd_buffer@.len() == 0 {
        after == before
    } else {
        &&& after.console_open == before.console_open
        &&& after.cmd_buffer@.len() == 0
        &&& after.cmd_history@ == seq![before.cmd_buffer] + before.cmd_history@
        &&& after.output@.len() == before.output@.len() + 1
        &&& after.output@[0]@ == not_found_message(before.cmd_buffer@)
        &&& after.output@.skip(1) == before.output@
    }
}

impl Default for DebugConsole {
    fn default() -> (console: DebugConsole)
        ensures
            !console.console_open,
            console.cmd_buffer@.len() == 0,
            console.cmd_history@.len() == 0,
            console.output@.len() == 0,
    {
        DebugConsole {
            console_open: false,
            cmd_buffer: String::new(),
            cmd_history: VecDeque::new(),
            output: VecDeque::new(),
        }
    }
}

impl DebugConsole {
    /// Runs the command line. No command is known yet, so every non-empty
    /// line is answered with "Command <line> not found".
    pub fn invoke(&mut self)
        ensures
            invoked(*old(self), *final(self)),
    {
        if self.cmd_buffer.as_str().is_empty() {
            return;
        }
        let mut cur_cmd = String::new();
        std::mem::swap(&mut cur_cmd, &mut self.cmd_buffer);
        let mut message = String::from_str("Command ");
        message.append(cur_cmd.as_str());
        message.append(" not found");
        self.output.push_front(message);
        self.cmd_history.push_front(cur_cmd);
        proof {
            assert(self.output@.skip(1) =~= old(self).output@);
        }
    }

    /// The console key was pressed or not this frame: a press opens a closed
    /// console and closes an open one.
    pub fn apply_toggle_key(&mut self, toggle_pressed: bool)
        ensures
            final(self).console_open == (old(self).console_open != toggle_pressed),
            final(self).cmd_buffer == old(self).cmd_buffer,
            final(self).cmd_history == old(self).cmd_history,
            final(self).output == old(self).output,
    {
        if toggle_pressed {
            self.console_open = !self.console_open;
        }
    }

    /// The command line, shown only while the console is open: Enter, while
    /// the line has the keyboard, runs it; otherwise, if the console key was
    /// pressed this frame while the console is open, the line should take the
    /// keyboard focus. A closed console runs nothing and asks for no focus.
    /// Returns whether to request that focus.
    pub fn handle_command_line(
        &mut self,
        wants_keyboard: bool,
        line_has_focus: bool,
        enter_pressed: bool,
        toggle_pressed: bool,
    ) -> (request_focus: bool)
        ensures
            (old(self).console_open && wants_keyboard && line_has_focus && enter_pressed) ==> {
                &&& invoked(*old(self), *final(self))
                &&& !request_focus
            },
            !(old(self).console_open && wants_keyboard && line_has_focus && enter_pressed) ==> {
                &&& *final(self) == *old(self)
                &&& request_focus == (toggle_pressed && old(self).console_open)
            },
    {
        if !self.console_open {
            return false;
        }
        if wants_keyboard && line_has_focus && enter_pressed {
            self.invoke();
            false
        } else {
            toggle_pressed
        }
    }
}

/// Running the command line twice in a row, with no typing between, does
/// nothing the second time: the first run leaves the line empty.
pub proof fn lemma_invoke_twice(a: DebugConsole, b: DebugConsole, c: DebugConsole)
    requires
        invoked(a, b),
        invoked(b, c),
    ensures
        c == b,
{
}

/// Running a non-empty line records exactly that line, unchanged, at the
/// front of the history, with the earlier history after it; prints
/// "Command <line> not found" at the front of the output, with the earlier
/// output after it, so the printed line names the recorded command; and
/// leaves the line empty.
pub proof fn lemma_invoke_records_line(a: DebugConsole, b: DebugConsole)
    requires
        invoked(a, b),
        a.cmd_buffer@.len() > 0,
    ensures
        b.cmd_history@.len() == a.cmd_history@.len() + 1,
        b.cmd_history@[0]@ == a.cmd_buffer@,
        forall|i: int| 0 <= i < a.cmd_history@.len() ==> b.cmd_history@[i + 1] == a.cmd_history@[i],
        b.output@.len() == a.output@.len() + 1,
        b.output@[0]@ == "Command "@ + a.cmd_buffer@ + " not found"@,
        b.output@[0]@ == "Command "@ + b.cmd_history@[0]@ + " not found"@,
        forall|i: int| 0 <= i < a.output@.len() ==> b.output@[i + 1] == a.output@[i],
        b.cmd_buffer@.len() == 0,
        b.console_open == a.console_open,
{
    assert forall|i: int| 0 <= i < a.output@.len() implies b.output@[i + 1] == a.output@[i] by {
        assert(b.output@.skip(1)[i] == b.output@[i + 1]);
    }
}

/// Every command that runs adds exactly one line of output and one entry of
/// history, so the two grow in step.
pub proof fn lemma_output_follows_history(a: DebugConsole, b: DebugConsole)
    requires
        invoked(a, b),
    ensures
        b.output@.len() - b.cmd_history@.len() == a.output@.len() - a.cmd_history@.len(),
        b.cmd_history@.len() == a.cmd_history@.len() + (if a.cmd_buffer@.len() == 0 {
            0int
        } else {
            1int
        }),
{
}

} // verus!
