//! The selector: a keyboard-driven filter and picker over the note list.
//! It turns input and key events into store queries and a committed note
//! name, discards superseded query responses by token, and keeps the
//! highlight inside the list.

use vstd::prelude::*;
use vstd::string::StringSliceAdditionalSpecFns;

use crate::item::Item;

verus! {

/// An event delivered to the selector.
pub enum Msg {
    /// A key event with no binding; carries whether an IME composition is
    /// active.
    Idle(bool),
    /// The text field's value changed.
    Input(String),
    /// Move the caret to the start of the input.
    MoveCaretToFirst,
    /// Move the caret to the end of the input.
    MoveCaretToEnd,
    /// Move the highlight up.
    MoveSelectionUp,
    /// Move the highlight down.
    MoveSelectionDown,
    /// Commit the highlighted name (or the raw input).
    Enter,
    /// A listing response arrived for the query issued under this token.
    UpdateFiles(u64, Vec<Item>),
}

/// What the environment must do after an event was processed.
pub enum Action {
    /// Nothing.
    Idle,
    /// Issue a store listing for `key`; the response must carry `token`.
    Query { token: u64, key: String },
    /// Deliver the chosen name to the shell.
    Commit { name: String },
    /// Place the input caret at byte position `pos`.
    Caret { pos: usize },
    /// Give the input field input focus.
    FocusInput,
}

/// The selector's state.
pub struct Selector {
    /// An IME composition session is active.
    pub is_composing: bool,
    /// The raw filter text.
    pub input: String,
    /// The most recent accepted listing.
    pub items: Vec<Item>,
    /// The highlighted index into `items`.
    pub list_index: usize,
    /// A listing request has been issued at least once.
    pub issued: bool,
    /// Token of the most recently issued listing request.
    pub current_token: u64,
    /// The key the most recent listing request was issued for.
    pub issued_key: String,
}

impl Selector {
    /// The selector invariant: the highlight stays inside the list (or is
    /// zero when the list is empty), and the latest issued query always asks
    /// for the current input.
    pub open spec fn wf(&self) -> bool {
        &&& self.items@.len() == 0 ==> self.list_index == 0
        &&& self.items@.len() > 0 ==> self.list_index < self.items@.len()
        &&& self.issued ==> self.issued_key@ == self.input@
    }

    /// A fresh selector: empty input, empty list, nothing issued.
    pub fn new() -> (r: Selector)
        ensures
            r.wf(),
            !r.is_composing,
            r.input@.len() == 0,
            r.items@.len() == 0,
            r.list_index == 0,
            !r.issued,
    {
        Selector {
            is_composing: false,
            input: String::new(),
            items: Vec::new(),
            list_index: 0,
            issued: false,
            current_token: 0,
            issued_key: String::new(),
        }
    }

    /// Reacts to a focus change from the shell: gaining focus places the
    /// caret in the input field; losing it tears nothing down, so a later
    /// refocus finds the input, list and highlight unchanged.
    pub fn on_focus_change(&self, focused: bool) -> (r: Action)
        ensures
            focused ==> r == Action::FocusInput,
            !focused ==> r == Action::Idle,
    {
        if focused {
            Action::FocusInput
        } else {
            Action::Idle
        }
    }

    /// (Re-)issues a listing query for the current input. Used when the
    /// selector is first shown.
    pub fn refresh(&mut self) -> (r: Action)
        requires
            old(self).wf(),
            old(self).current_token < u64::MAX,
        ensures
            final(self).wf(),
            final(self).is_composing == old(self).is_composing,
            final(self).input == old(self).input,
            final(self).items == old(self).items,
            final(self).list_index == old(self).list_index,
            final(self).issued,
            final(self).current_token == old(self).current_token + 1,
            final(self).issued_key@ == old(self).input@,
            r matches Action::Query { token, key } && token == final(self).current_token && key@
                == old(self).input@,
    {
        self.current_token = self.current_token + 1;
        self.issued = true;
        self.issued_key = self.input.clone();
        Action::Query { token: self.current_token, key: self.input.clone() }
    }

    /// Processes one event. Returns the action the environment must perform
    /// and whether the view must be re-rendered.
    ///
    /// The contract pins every transition:
    /// - an input change is ignored while a composition session reports an
    ///   empty value; otherwise it issues a superseding query for the new
    ///   input;
    /// - highlight moves saturate at both ends;
    /// - `Enter` commits the highlighted name, or the raw input when the
    ///   list is empty;
    /// - a listing response is applied only when its token is the one of the
    ///   latest issued query, whose key is the current input (no stale
    ///   response wins); an applied listing clamps the highlight.
    pub fn update(&mut self, msg: Msg) -> (r: (Action, bool))
        requires
            old(self).wf(),
            msg matches Msg::Input(_) ==> old(self).current_token < u64::MAX,
        ensures
            final(self).wf(),
            match msg {
                Msg::Idle(c) => {
                    &&& final(self).is_composing == c
                    &&& final(self).input == old(self).input
                    &&& final(self).items == old(self).items
                    &&& final(self).list_index == old(self).list_index
                    &&& final(self).issued == old(self).issued
                    &&& final(self).current_token == old(self).current_token
                    &&& final(self).issued_key == old(self).issued_key
                    &&& r.0 == Action::Idle
                    &&& r.1 == false
                },
                Msg::Input(s) => {
                    &&& (old(self).is_composing && s@.len() == 0) ==> *final(self) == *old(self)
                        && r.0 == Action::Idle && r.1 == false
                    &&& !(old(self).is_composing && s@.len() == 0) ==> {
                        &&& final(self).input == s
                        &&& final(self).is_composing == old(self).is_composing
                        &&& final(self).items == old(self).items
                        &&& final(self).list_index == old(self).list_index
                        &&& final(self).issued
                        &&& final(self).current_token == old(self).current_token + 1
                        &&& final(self).issued_key@ == s@
                        &&& r.0 matches Action::Query { token, key } && token == final(self).current_token && key@ == s@
                        &&& r.1 == false
                    }
                },
                Msg::MoveCaretToFirst => {
                    &&& *final(self) == *old(self)
                    &&& r.0 == Action::Caret { pos: 0 }
                    &&& r.1 == false
                },
                Msg::MoveCaretToEnd => {
                    &&& *final(self) == *old(self)
                    &&& r.0 matches Action::Caret { pos } && pos == vstd::utf8::encode_utf8(
                        old(self).input@,
                    ).len() as usize
                    &&& r.1 == false
                },
                Msg::MoveSelectionUp => {
                    &&& final(self).list_index == if old(self).list_index > 0 {
                        (old(self).list_index - 1) as usize
                    } else {
                        0
                    }
                    &&& final(self).input == old(self).input
                    &&& final(self).items == old(self).items
                    &&& final(self).is_composing == old(self).is_composing
                    &&& final(self).issued == old(self).issued
                    &&& final(self).current_token == old(self).current_token
                    &&& final(self).issued_key == old(self).issued_key
                    &&& r.0 == Action::Idle
                    &&& r.1 == true
                },
                Msg::MoveSelectionDown => {
                    &&& final(self).list_index == if old(self).list_index + 1 < old(
                        self,
                    ).items@.len() {
                        (old(self).list_index + 1) as usize
                    } else {
                        old(self).list_index
                    }
                    &&& final(self).input == old(self).input
                    &&& final(self).items == old(self).items
                    &&& final(self).is_composing == old(self).is_composing
                    &&& final(self).issued == old(self).issued
                    &&& final(self).current_token == old(self).current_token
                    &&& final(self).issued_key == old(self).issued_key
                    &&& r.0 == Action::Idle
                    &&& r.1 == true
                },
                Msg::Enter => {
                    &&& *final(self) == *old(self)
                    &&& r.0 matches Action::Commit { name } && name@ == if old(self).items@.len()
                        > 0 {
                        old(self).items@[old(self).list_index as int].name@
                    } else {
                        old(self).input@
                    }
                    &&& r.1 == false
                },
                Msg::UpdateFiles(token, files) => {
                    &&& (old(self).issued && token == old(self).current_token) ==> {
                        &&& final(self).items == files
                        &&& old(self).issued_key@ == old(self).input@
                        &&& final(self).input == old(self).input
                        &&& final(self).list_index == if files@.len() == 0 {
                            0
                        } else if old(self).list_index < files@.len() {
                            old(self).list_index
                        } else {
                            (files@.len() - 1) as usize
                        }
                        &&& r.1 == true
                    }
                    &&& !(old(self).issued && token == old(self).current_token) ==> *final(self)
                        == *old(self) && r.1 == false
                    &&& final(self).is_composing == old(self).is_composing
                    &&& final(self).issued == old(self).issued
                    &&& final(self).current_token == old(self).current_token
                    &&& final(self).issued_key == old(self).issued_key
                    &&& r.0 == Action::Idle
                },
            },
    {
        match msg {
            Msg::Idle(c) => {
                self.is_composing = c;
                (Action::Idle, false)
            },
            Msg::Input(s) => {
                if self.is_composing && s.as_str().is_empty() {
                    (Action::Idle, false)
                } else {
                    self.input = s;
                    self.current_token = self.current_token + 1;
                    self.issued = true;
                    self.issued_key = self.input.clone();
                    (
                        Action::Query { token: self.current_token, key: self.input.clone() },
                        false,
                    )
                }
            },
            Msg::MoveCaretToFirst => (Action::Caret { pos: 0 }, false),
            Msg::MoveCaretToEnd => (Action::Caret { pos: self.input.as_str().len() }, false),
            Msg::MoveSelectionUp => {
                if self.list_index > 0 {
                    self.list_index = self.list_index - 1;
                }
                (Action::Idle, true)
            },
            Msg::MoveSelectionDown => {
                let len = self.items.len();
                if len > 0 && self.list_index < len - 1 {
                    self.list_index = self.list_index + 1;
                }
                (Action::Idle, true)
            },
            Msg::Enter => {
                let name = if self.items.len() > 0 {
                    self.items[self.list_index].name.clone()
                } else {
                    self.input.clone()
                };
                (Action::Commit { name }, false)
            },
            Msg::UpdateFiles(token, files) => {
                if self.issued && token == self.current_token {
                    if files.len() == 0 {
                        self.list_index = 0;
                    } else if self.list_index >= files.len() {
                        self.list_index = files.len() - 1;
                    }
                    self.items = files;
                    (Action::Idle, true)
                } else {
                    (Action::Idle, false)
                }
            },
        }
    }
}

/// Maps a key event to a selector event, as the input field's key handler
/// does. Returns the event and whether the key's default behaviour must be
/// suppressed (only the four control chords suppress it).
pub fn key_to_msg(ctrl: bool, key: &str, is_composing: bool) -> (r: (Msg, bool))
    ensures
        ctrl && key@ == "a"@ ==> r.0 == Msg::MoveCaretToFirst && r.1,
        ctrl && key@ == "e"@ ==> r.0 == Msg::MoveCaretToEnd && r.1,
        ctrl && key@ == "p"@ ==> r.0 == Msg::MoveSelectionUp && r.1,
        ctrl && key@ == "n"@ ==> r.0 == Msg::MoveSelectionDown && r.1,
        !(ctrl && (key@ == "a"@ || key@ == "e"@ || key@ == "p"@ || key@ == "n"@)) && key@
            == "Enter"@ ==> r.0 == Msg::Enter && !r.1,
        !(ctrl && (key@ == "a"@ || key@ == "e"@ || key@ == "p"@ || key@ == "n"@)) && key@
            != "Enter"@ ==> r.0 == Msg::Idle(is_composing) && !r.1,
{
    proof {
        reveal_strlit("a");
        reveal_strlit("e");
        reveal_strlit("p");
        reveal_strlit("n");
        reveal_strlit("Enter");
        assert("a"@[0] == 'a' && "e"@[0] == 'e' && "p"@[0] == 'p' && "n"@[0] == 'n');
        assert("a"@ != "e"@ && "a"@ != "p"@ && "a"@ != "n"@ && "e"@ != "p"@ && "e"@ != "n"@
            && "p"@ != "n"@);
        assert("a"@.len() == 1 && "e"@.len() == 1 && "p"@.len() == 1 && "n"@.len() == 1
            && "Enter"@.len() == 5);
    }
    if ctrl {
        if crate::text::str_eq(key, "a") {
            return (Msg::MoveCaretToFirst, true);
        }
        if crate::text::str_eq(key, "e") {
            return (Msg::MoveCaretToEnd, true);
        }
        if crate::text::str_eq(key, "p") {
            return (Msg::MoveSelectionUp, true);
        }
        if crate::text::str_eq(key, "n") {
            return (Msg::MoveSelectionDown, true);
        }
    }
    if crate::text::str_eq(key, "Enter") {
        return (Msg::Enter, false);
    }
    (Msg::Idle(is_composing), false)
}

} // verus!
