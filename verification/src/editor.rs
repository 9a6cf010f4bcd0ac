//! The editor: edits one note's full text. Binding to a name fetches the
//! content (the pane is read-only until it arrives); Escape saves the buffer
//! and yields focus back. Only the most recent fetch and the most recent save
//! count; earlier ones are superseded by token.

use vstd::prelude::*;

verus! {

/// An event delivered to the editor.
pub enum Msg {
    /// The user pressed Escape: save and release.
    Save,
    /// Yield focus back to the shell.
    Unfocus,
    /// The content fetched under this token arrived.
    ContentLoaded(u64, String),
    /// A key event with no binding.
    Idle,
}

/// What the environment must do after an editor event was processed.
pub enum Action {
    /// Nothing.
    Idle,
    /// Fetch the content of `name`; the response must carry `token`.
    Fetch { token: u64, name: String },
    /// Store `content` under `name`; the outcome must carry `token`.
    Store { token: u64, name: String, content: String },
    /// Install `content` into the text buffer and, when `focus`, focus it.
    Install { content: String, focus: bool },
    /// Invoke the shell's release callback.
    Release,
}

/// The editor's state.
pub struct Editor {
    /// The note the editor is bound to; `None` means idle.
    pub file_name: Option<String>,
    /// The editor pane holds input focus.
    pub focused: bool,
    /// The buffer may be edited (its content has been loaded).
    pub editable: bool,
    /// Token of the most recent content fetch.
    pub fetch_token: u64,
    /// Token of the most recent save.
    pub save_token: u64,
}

impl Editor {
    /// A fresh, unbound editor.
    pub fn new() -> (r: Editor)
        ensures
            r.file_name is None,
            !r.focused,
            !r.editable,
    {
        Editor { file_name: None, focused: false, editable: false, fetch_token: 0, save_token: 0 }
    }

    /// Binds the editor to `name` and asks for its content. The pane stays
    /// non-editable until the matching response arrives; any earlier fetch is
    /// superseded.
    pub fn bind(&mut self, name: String) -> (r: Action)
        requires
            old(self).fetch_token < u64::MAX,
        ensures
            final(self).file_name matches Some(n) && n == name,
            !final(self).editable,
            final(self).fetch_token == old(self).fetch_token + 1,
            final(self).save_token == old(self).save_token,
            final(self).focused == old(self).focused,
            r matches Action::Fetch { token, name: n } && token == final(self).fetch_token && n@
                == name@,
    {
        self.editable = false;
        self.fetch_token = self.fetch_token + 1;
        let act = Action::Fetch { token: self.fetch_token, name: name.clone() };
        self.file_name = Some(name);
        act
    }

    /// Tells the editor whether it holds focus.
    pub fn set_focus(&mut self, focused: bool)
        ensures
            final(self).focused == focused,
            final(self).file_name == old(self).file_name,
            final(self).editable == old(self).editable,
            final(self).fetch_token == old(self).fetch_token,
            final(self).save_token == old(self).save_token,
    {
        self.focused = focused;
    }

    /// Processes one event; `buffer` is the current text of the pane.
    ///
    /// - `Save` with a bound name issues a superseding store of the buffer;
    ///   without one it releases focus at once and writes nothing.
    /// - `ContentLoaded` is applied only when its token is the latest
    ///   fetch's; it makes the pane editable and installs the content.
    /// - `Unfocus` releases focus.
    pub fn update(&mut self, msg: Msg, buffer: &String) -> (r: Action)
        requires
            msg matches Msg::Save ==> old(self).save_token < u64::MAX,
        ensures
            match msg {
                Msg::Save => {
                    &&& old(self).file_name matches Some(n) ==> {
                        &&& r matches Action::Store { token, name, content } && token == final(self).save_token && name@ == n@ && content@ == buffer@
                        &&& final(self).save_token == old(self).save_token + 1
                        &&& final(self).file_name == old(self).file_name
                        &&& final(self).editable == old(self).editable
                        &&& final(self).fetch_token == old(self).fetch_token
                        &&& final(self).focused == old(self).focused
                    }
                    &&& old(self).file_name is None ==> r == Action::Release && *final(self)
                        == *old(self)
                },
                Msg::Unfocus => r == Action::Release && *final(self) == *old(self),
                Msg::ContentLoaded(token, content) => {
                    &&& token == old(self).fetch_token ==> {
                        &&& final(self).editable
                        &&& r matches Action::Install { content: c, focus } && c == content
                            && focus == old(self).focused
                        &&& final(self).file_name == old(self).file_name
                        &&& final(self).fetch_token == old(self).fetch_token
                        &&& final(self).save_token == old(self).save_token
                        &&& final(self).focused == old(self).focused
                    }
                    &&& token != old(self).fetch_token ==> r == Action::Idle && *final(self)
                        == *old(self)
                },
                Msg::Idle => r == Action::Idle && *final(self) == *old(self),
            },
    {
        match msg {
            Msg::Save => {
                match &self.file_name {
                    Some(f) => {
                        self.save_token = self.save_token + 1;
                        Action::Store {
                            token: self.save_token,
                            name: f.clone(),
                            content: buffer.clone(),
                        }
                    },
                    None => Action::Release,
                }
            },
            Msg::Unfocus => Action::Release,
            Msg::ContentLoaded(token, content) => {
                if token == self.fetch_token {
                    self.editable = true;
                    Action::Install { content, focus: self.focused }
                } else {
                    Action::Idle
                }
            },
            Msg::Idle => Action::Idle,
        }
    }

    /// The outcome of a save arrived (success or failure alike): when it is
    /// the latest save's, focus is released; a superseded save changes
    /// nothing.
    pub fn on_save_result(&mut self, token: u64) -> (r: Action)
        ensures
            *final(self) == *old(self),
            token == old(self).save_token ==> r == Action::Release,
            token != old(self).save_token ==> r == Action::Idle,
    {
        if token == self.save_token {
            Action::Release
        } else {
            Action::Idle
        }
    }
}

/// Maps a key event to an editor event, as the pane's key handler does.
pub fn key_to_msg(key: &str) -> (r: Msg)
    ensures
        key@ == "Escape"@ ==> r == Msg::Save,
        key@ != "Escape"@ ==> r == Msg::Idle,
{
    proof {
        reveal_strlit("Escape");
    }
    if crate::text::str_eq(key, "Escape") {
        Msg::Save
    } else {
        Msg::Idle
    }
}

} // verus!
