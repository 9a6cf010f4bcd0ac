//! The shell: the top-level coordinator. It owns which pane holds focus and
//! which note the editor is bound to. A commit from the selector binds the
//! editor and moves focus to it; a release from the editor moves focus back,
//! leaving the binding in place so the same note reopens cheaply.

use vstd::prelude::*;

verus! {

/// Which pane holds focus. Exactly one does at any time.
#[derive(Clone, Copy, PartialEq, Eq, Structural, Debug)]
pub enum Focus {
    /// The selector (command) pane.
    Command,
    /// The editor pane.
    Editor,
}

/// An event delivered to the shell.
pub enum Msg {
    /// The selector committed a note name.
    FileSelect(String),
    /// The selector committed a command (reserved; ignored).
    CommandSelect(String),
    /// The editor released focus.
    FocusCommand,
}

/// The shell's state.
pub struct Shell {
    /// The focused pane.
    pub focus: Focus,
    /// The note the editor is bound to; `None` until the first commit.
    pub editing: Option<String>,
}

/// The shell's transition function: a commit binds the editor and focuses
/// it; a release focuses the selector and keeps the binding.
pub open spec fn shell_step(s: Shell, msg: Msg) -> Shell {
    match msg {
        Msg::FileSelect(f) => Shell { focus: Focus::Editor, editing: Some(f) },
        Msg::CommandSelect(_) => s,
        Msg::FocusCommand => Shell { focus: Focus::Command, editing: s.editing },
    }
}

/// The initial shell state: selector focused, nothing bound.
pub open spec fn shell_init(s: Shell) -> bool {
    s.focus == Focus::Command && s.editing is None
}

/// The shell state after a sequence of events, from the initial state.
pub open spec fn shell_run(init: Shell, msgs: Seq<Msg>) -> Shell
    decreases msgs.len(),
{
    if msgs.len() == 0 {
        init
    } else {
        shell_step(shell_run(init, msgs.drop_last()), msgs.last())
    }
}

/// Some event in `msgs` is a commit.
pub open spec fn has_commit(msgs: Seq<Msg>) -> bool {
    exists|i: int| 0 <= i < msgs.len() && (#[trigger] msgs[i]) matches Msg::FileSelect(_)
}

impl Shell {
    /// The selector pane holds focus.
    pub open spec fn selector_focused(&self) -> bool {
        self.focus == Focus::Command
    }

    /// The editor pane holds focus.
    pub open spec fn editor_focused(&self) -> bool {
        self.focus == Focus::Editor
    }

    /// A fresh shell: selector focused, no note bound.
    pub fn new() -> (r: Shell)
        ensures
            shell_init(r),
    {
        Shell { focus: Focus::Command, editing: None }
    }

    /// Processes one event; the new state is exactly [`shell_step`] of the
    /// old. Returns whether the view must be re-rendered (always, as the
    /// focus props may have changed).
    pub fn update(&mut self, msg: Msg) -> (r: bool)
        ensures
            *final(self) == shell_step(*old(self), msg),
            r == true,
    {
        match msg {
            Msg::FileSelect(f) => {
                self.editing = Some(f);
                self.focus = Focus::Editor;
            },
            Msg::CommandSelect(_) => {},
            Msg::FocusCommand => {
                self.focus = Focus::Command;
            },
        }
        true
    }
}

/// Exactly one pane holds focus in any shell state.
pub proof fn lemma_focus_exclusive(s: Shell)
    ensures
        s.selector_focused() <==> !s.editor_focused(),
{
}

/// After any sequence of events from the initial state, a note is bound if
/// and only if some commit has occurred.
pub proof fn lemma_editing_iff_commit(init: Shell, msgs: Seq<Msg>)
    requires
        shell_init(init),
    ensures
        shell_run(init, msgs).editing is Some <==> has_commit(msgs),
    decreases msgs.len(),
{
    if msgs.len() == 0 {
    } else {
        lemma_editing_iff_commit(init, msgs.drop_last());
        let pre = shell_run(init, msgs.drop_last());
        if msgs.last() matches Msg::FileSelect(_) {
            assert(msgs[msgs.len() - 1] matches Msg::FileSelect(_));
            assert(has_commit(msgs));
        } else {
            assert(shell_run(init, msgs).editing == pre.editing);
            assert(has_commit(msgs.drop_last()) ==> has_commit(msgs)) by {
                if has_commit(msgs.drop_last()) {
                    let i = choose|i: int|
                        0 <= i < msgs.drop_last().len() && (#[trigger] msgs.drop_last()[i]) matches Msg::FileSelect(_);
                    assert(msgs[i] matches Msg::FileSelect(_));
                }
            }
            assert(has_commit(msgs) ==> has_commit(msgs.drop_last())) by {
                if has_commit(msgs) {
                    let i = choose|i: int|
                        0 <= i < msgs.len() && (#[trigger] msgs[i]) matches Msg::FileSelect(_);
                    assert(i < msgs.len() - 1);
                    assert(msgs.drop_last()[i] matches Msg::FileSelect(_));
                }
            }
        }
    }
}

} // verus!
