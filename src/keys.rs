//! Logical keys and what each one does to the navigation state.
use vstd::prelude::*;
use vstd::string::*;
use crate::filter::rows_in_range;
use crate::nav::{App, clamped, collapse_step, expand_step, resolved, selected_id, TOAST_TICKS};
use crate::sinks::{BrowserOpener, ClipboardSink};
use crate::text::join_text;
use crate::tree::VisibleNode;

verus! {

/// A logical key code.
#[derive(Clone, Copy, Debug, PartialEq, Eq, Structural)]
pub enum Key {
    Char(char),
    Up,
    Down,
    Left,
    Right,
    Enter,
    Esc,
    Backspace,
    Other,
}

/// What the surrounding loop is asked to do after a key.
#[derive(Clone, Copy, Debug, PartialEq, Eq, Structural)]
pub enum KeyAction {
    Continue,
    Quit,
    Reload,
}

/// The loop action a key asks for: outside search editing, `q` quits and `r`
/// reloads; everything else continues.
pub open spec fn key_action(search_mode: bool, key: Key) -> KeyAction {
    if search_mode {
        KeyAction::Continue
    } else if key == Key::Char('q') {
        KeyAction::Quit
    } else if key == Key::Char('r') {
        KeyAction::Reload
    } else {
        KeyAction::Continue
    }
}

/// The locator of the selected row's node, a selection beyond the rows
/// counting as the last row.
pub open spec fn selected_url(app: App, visible: Seq<VisibleNode>) -> Seq<char> {
    app.nodes@[visible[clamped(app.selected, visible.len()) as int].id as int].url@
}

/// `b` reports a copy that ended with `outcome`: the locator copied, with a
/// toast, or the failure's message.
pub open spec fn copy_reported(a: App, b: App, outcome: Result<String, String>) -> bool {
    &&& only_messages_changed(a, b)
    &&& match outcome {
        Ok(u) => {
            &&& b.status matches Some(st) && st@ == "copied "@ + u@
            &&& b.toast matches Some(t) && t.message@ == "Copied URL"@ && t.remaining == TOAST_TICKS
        },
        Err(e) => {
            &&& b.status matches Some(st) && st@ == "copy failed: "@ + e@
            &&& b.toast == a.toast
        },
    }
}

/// `b` reports an opening that ended with `outcome`.
pub open spec fn open_reported(a: App, b: App, outcome: Result<String, String>) -> bool {
    &&& b == (App { status: b.status, ..a })
    &&& match outcome {
        Ok(u) => b.status matches Some(st) && st@ == "opened "@ + u@,
        Err(e) => b.status matches Some(st) && st@ == "open failed: "@ + e@,
    }
}

/// What a copy or an opening of the selection can end with: the selected
/// locator on success, `no selection` without rows, else the sink's error.
pub open spec fn selection_outcome(app: App, visible: Seq<VisibleNode>, outcome: Result<String, String>) -> bool {
    &&& visible.len() == 0 ==> (outcome matches Err(e) && e@ == "no selection"@)
    &&& outcome matches Ok(u) ==> visible.len() > 0 && u@ == selected_url(app, visible)
}

/// Only the status line and the toast may differ.
pub open spec fn only_messages_changed(a: App, b: App) -> bool {
    b == (App { status: b.status, toast: b.toast, ..a })
}

impl App {
    /// The locator of the selected row's node; none without rows.
    pub fn selected_locator(&self, visible: &[VisibleNode]) -> (r: Option<String>)
        requires
            rows_in_range(visible@, self.nodes@),
        ensures
            visible@.len() == 0 <==> r is None,
            r matches Some(u) ==> u@ == selected_url(*self, visible@),
    {
        if visible.len() == 0 {
            return None;
        }
        let sel = if self.selected < visible.len() {
            self.selected
        } else {
            visible.len() - 1
        };
        Some(self.nodes[visible[sel].id].url.clone())
    }

    /// Hands the selected locator to the clipboard; returns it when the
    /// clipboard took it, else the clipboard's error.
    pub fn yank_selected<C: ClipboardSink>(&mut self, visible: &[VisibleNode], clipboard: &mut C) -> (r: Result<
        String,
        String,
    >)
        requires
            rows_in_range(visible@, old(self).nodes@),
        ensures
            *final(self) == *old(self),
            selection_outcome(*old(self), visible@, r),
    {
        match self.selected_locator(visible) {
            None => Err(String::from_str("no selection")),
            Some(url) => match clipboard.set_text(url.clone()) {
                Ok(()) => Ok(url),
                Err(e) => Err(e),
            },
        }
    }

    /// Hands the selected locator to the browser; returns it when the
    /// browser took it, else the browser's error.
    pub fn open_selected<B: BrowserOpener>(&mut self, visible: &[VisibleNode], browser: &mut B) -> (r: Result<
        String,
        String,
    >)
        requires
            rows_in_range(visible@, old(self).nodes@),
        ensures
            *final(self) == *old(self),
            selection_outcome(*old(self), visible@, r),
    {
        match self.selected_locator(visible) {
            None => Err(String::from_str("no selection")),
            Some(url) => match browser.open(url.as_str()) {
                Ok(()) => Ok(url),
                Err(e) => Err(e),
            },
        }
    }

    /// Reports how a copy ended: `copied <locator>` and a toast, or
    /// `copy failed: <error>`.
    pub fn report_copy(&mut self, outcome: Result<String, String>)
        ensures
            copy_reported(*old(self), *final(self), outcome),
    {
        match outcome {
            Ok(url) => {
                self.set_status(join_text("copied ", url.as_str()));
                self.set_toast(String::from_str("Copied URL"));
            },
            Err(err) => self.set_status(join_text("copy failed: ", err.as_str())),
        }
    }

    /// Reports how an opening ended: `opened <locator>` or
    /// `open failed: <error>`.
    pub fn report_open(&mut self, outcome: Result<String, String>)
        ensures
            open_reported(*old(self), *final(self), outcome),
    {
        match outcome {
            Ok(url) => self.set_status(join_text("opened ", url.as_str())),
            Err(err) => self.set_status(join_text("open failed: ", err.as_str())),
        }
    }

    /// Applies one key to the state, given the projection the user sees.
    /// While editing a query, keys edit it; otherwise they move, expand,
    /// collapse, jump (`g g`, `G`), copy (`y`), open (`o`), start a search
    /// (`/`), clear it (Esc), or ask the loop to quit (`q`) or reload (`r`).
    /// Any key but `g` disarms the chord.
    pub fn handle_key<C: ClipboardSink, B: BrowserOpener>(
        &mut self,
        key: Key,
        visible: &[VisibleNode],
        clipboard: Option<&mut C>,
        browser: &mut B,
    ) -> (r: KeyAction)
        requires
            old(self).wf(),
            rows_in_range(visible@, old(self).nodes@),
        ensures
            r == key_action(old(self).search_mode, key),
            final(self).wf(),
            old(self).search_mode ==> {
                let q = old(self).search_query;
                let b = *final(self);
                let follows = b.selected == resolved(b.rows(), selected_id(*old(self)), old(self).selected);
                match key {
                    Key::Esc => follows && b == (App { search_mode: false, search_query: None, selected: b.selected, ..*old(self) }),
                    Key::Enter => {
                        &&& follows
                        &&& b.search_query == match q {
                            Some(s) => if s@.len() == 0 {
                                None
                            } else {
                                Some(s)
                            },
                            None => None,
                        }
                        &&& b == (App { search_mode: false, search_query: b.search_query, selected: b.selected, ..*old(self) })
                    },
                    Key::Backspace => {
                        &&& (q is None ==> b == *old(self))
                        &&& (q matches Some(s) ==> follows && b.search_query is Some
                            && b.search_query->Some_0@ == if s@.len() == 0 {
                            s@
                        } else {
                            s@.drop_last()
                        })
                        &&& b == (App { search_query: b.search_query, selected: b.selected, ..*old(self) })
                    },
                    Key::Char(c) => {
                        &&& follows
                        &&& b.search_query is Some
                        &&& b.search_query->Some_0@ == match q {
                            Some(s) => s@.push(c),
                            None => seq![c],
                        }
                        &&& b == (App { search_query: b.search_query, selected: b.selected, ..*old(self) })
                    },
                    _ => b == *old(self),
                }
            },
            !old(self).search_mode ==> {
                let a = App { pending_g: final(self).pending_g, ..*old(self) };
                let b = *final(self);
                &&& final(self).pending_g == (key == Key::Char('g') && !old(self).pending_g)
                &&& match key {
                    Key::Up => b == (App {
                        selected: if a.selected > 0 {
                            (a.selected - 1) as usize
                        } else {
                            a.selected
                        },
                        ..a
                    }),
                    Key::Down => b == (App {
                        selected: if a.selected + 1 < visible@.len() {
                            (a.selected + 1) as usize
                        } else {
                            a.selected
                        },
                        ..a
                    }),
                    Key::Left => collapse_step(a, b, visible@),
                    Key::Right => expand_step(a, b, visible@),
                    Key::Esc => {
                        &&& b.selected == resolved(b.rows(), selected_id(a), a.selected)
                        &&& b == (App { search_mode: false, search_query: None, selected: b.selected, ..a })
                    },
                    Key::Char(c) => if c == 'k' {
                        b == (App {
                            selected: if a.selected > 0 {
                                (a.selected - 1) as usize
                            } else {
                                a.selected
                            },
                            ..a
                        })
                    } else if c == 'j' {
                        b == (App {
                            selected: if a.selected + 1 < visible@.len() {
                                (a.selected + 1) as usize
                            } else {
                                a.selected
                            },
                            ..a
                        })
                    } else if c == 'h' {
                        collapse_step(a, b, visible@)
                    } else if c == 'l' {
                        expand_step(a, b, visible@)
                    } else if c == 'g' {
                        b == (App { selected: if old(self).pending_g { 0 } else { a.selected }, ..a })
                    } else if c == 'G' {
                        b == (App {
                            selected: if visible@.len() > 0 {
                                (visible@.len() - 1) as usize
                            } else {
                                a.selected
                            },
                            ..a
                        })
                    } else if c == '/' {
                        &&& b.search_mode
                        &&& b.search_query matches Some(s) && s@.len() == 0
                        &&& b.selected == resolved(b.rows(), selected_id(a), a.selected)
                        &&& b == (App { search_mode: true, search_query: b.search_query, selected: b.selected, ..a })
                    } else if c == 'y' {
                        if clipboard is None {
                            &&& only_messages_changed(a, b)
                            &&& b.status matches Some(st) && st@ == "clipboard unavailable"@
                            &&& b.toast == a.toast
                        } else {
                            exists|o: Result<String, String>| selection_outcome(a, visible@, o) && #[trigger] copy_reported(a, b, o)
                        }
                    } else if c == 'o' {
                        exists|o: Result<String, String>| selection_outcome(a, visible@, o) && #[trigger] open_reported(a, b, o)
                    } else {
                        b == a
                    },
                    _ => b == a,
                }
            },
    {
        if self.search_mode {
            match key {
                Key::Esc => self.clear_search(),
                Key::Enter => self.exit_search_mode(),
                Key::Backspace => self.pop_search_char(),
                Key::Char(ch) => self.push_search_char(ch),
                _ => {},
            }
            return KeyAction::Continue;
        }
        let is_g = match key {
            Key::Char(c) => c == 'g',
            _ => false,
        };
        if !is_g {
            self.clear_pending_g();
        }
        let action = match key {
            Key::Up => {
                self.move_up();
                KeyAction::Continue
            },
            Key::Down => {
                self.move_down(visible.len());
                KeyAction::Continue
            },
            Key::Left => {
                self.collapse_or_parent(visible);
                KeyAction::Continue
            },
            Key::Right => {
                self.expand_or_child(visible);
                KeyAction::Continue
            },
            Key::Esc => {
                self.clear_search();
                KeyAction::Continue
            },
            Key::Char(c) => {
                if c == 'q' {
                    KeyAction::Quit
                } else if c == 'r' {
                    KeyAction::Reload
                } else if c == 'k' {
                    self.move_up();
                    KeyAction::Continue
                } else if c == 'j' {
                    self.move_down(visible.len());
                    KeyAction::Continue
                } else if c == 'h' {
                    self.collapse_or_parent(visible);
                    KeyAction::Continue
                } else if c == 'l' {
                    self.expand_or_child(visible);
                    KeyAction::Continue
                } else if c == 'g' {
                    if self.consume_pending_g() {
                        self.move_top();
                    } else {
                        self.set_pending_g();
                    }
                    KeyAction::Continue
                } else if c == 'G' {
                    self.move_bottom(visible.len());
                    KeyAction::Continue
                } else if c == 'y' {
                    match clipboard {
                        Some(cb) => {
                            let outcome = self.yank_selected(visible, cb);
                            self.report_copy(outcome);
                        },
                        None => self.set_status(String::from_str("clipboard unavailable")),
                    }
                    KeyAction::Continue
                } else if c == 'o' {
                    let outcome = self.open_selected(visible, browser);
                    self.report_open(outcome);
                    KeyAction::Continue
                } else if c == '/' {
                    self.start_search();
                    KeyAction::Continue
                } else {
                    KeyAction::Continue
                }
            },
            _ => KeyAction::Continue,
        };
        action
    }
}

} // verus!
