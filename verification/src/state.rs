//! The launcher window's state machine: the live query, the displayed
//! filtered list, and the key-by-key transitions that drive them.

use vstd::prelude::*;
use crate::entry::{Catalog, DesktopEntry, entry_views};
use crate::filter::{filter_catalog, filter_spec, lemma_filter_empty_query};
use crate::text::{upper_char, upper_char_spec};

verus! {

/// The shift fold of one supported key character: letters uppercase,
/// digits and punctuation follow the standard keyboard shift mapping,
/// anything else is unchanged.
pub open spec fn shifted_spec(c: char) -> char {
    if 'a' <= c && c <= 'z' {
        upper_char_spec(c)
    } else {
        match c {
            '1' => '!',
            '2' => '@',
            '3' => '#',
            '4' => '$',
            '5' => '%',
            '6' => '^',
            '7' => '&',
            '8' => '*',
            '9' => '(',
            '0' => ')',
            ';' => ':',
            '[' => '{',
            ']' => '}',
            '\'' => '"',
            '\\' => '|',
            ',' => '<',
            '.' => '>',
            '/' => '?',
            _ => c,
        }
    }
}

/// The character a key press contributes to the query, honouring shift.
pub open spec fn effective_char_spec(c: char, shift: bool) -> char {
    if shift {
        shifted_spec(c)
    } else {
        c
    }
}

/// The shift lookup table, executable.
pub fn shifted_char(c: char) -> (r: char)
    ensures
        r == shifted_spec(c),
{
    if 'a' <= c && c <= 'z' {
        upper_char(c)
    } else {
        match c {
            '1' => '!',
            '2' => '@',
            '3' => '#',
            '4' => '$',
            '5' => '%',
            '6' => '^',
            '7' => '&',
            '8' => '*',
            '9' => '(',
            '0' => ')',
            ';' => ':',
            '[' => '{',
            ']' => '}',
            '\'' => '"',
            '\\' => '|',
            ',' => '<',
            '.' => '>',
            '/' => '?',
            _ => c,
        }
    }
}

/// The character a key press contributes to the query, executable.
pub fn effective_char(c: char, shift: bool) -> (r: char)
    ensures
        r == effective_char_spec(c, shift),
{
    if shift {
        shifted_char(c)
    } else {
        c
    }
}

/// One key press the launcher window reacts to.
pub enum Key {
    /// A printable character key, with the shift state at the press.
    Printable { ch: char, shift: bool },
    /// Remove the last query character.
    Backspace,
    /// Activate the first displayed row, if any.
    Confirm,
    /// Abandon the launcher without starting anything.
    Cancel,
}

/// What the caller must do after a key press.
pub enum Action {
    /// Keep the window open and re-render.
    Continue,
    /// Start this command in a detached shell, then end the process.
    Launch { command: String },
    /// End the process without starting anything.
    Exit,
}

/// The launcher's whole mutable state: the immutable catalog, the live
/// query, and the displayed filtered list derived from them.
pub struct AppState {
    /// Every loaded entry, fixed for the process's lifetime.
    pub catalog: Vec<DesktopEntry>,
    /// The live search query.
    pub query: Vec<char>,
    /// The displayed rows: the catalog filtered by the query.
    pub filtered: Vec<DesktopEntry>,
}

impl AppState {
    /// The window's invariant: the displayed list is always exactly the
    /// catalog filtered by the live query, in catalog order.
    pub open spec fn wf(self) -> bool {
        entry_views(self.filtered@) == filter_spec(entry_views(self.catalog@), self.query@)
    }

    /// A fresh launcher state: empty query, every catalog entry displayed.
    pub fn new(catalog: Catalog) -> (r: AppState)
        ensures
            r.wf(),
            r.catalog@ == catalog.entries@,
            r.query@ == Seq::<char>::empty(),
            entry_views(r.filtered@) == entry_views(catalog.entries@),
    {
        let query: Vec<char> = Vec::new();
        let filtered = filter_catalog(&catalog.entries, &query);
        proof {
            assert(query@ =~= Seq::<char>::empty());
            lemma_filter_empty_query(entry_views(catalog.entries@));
        }
        AppState { catalog: catalog.entries, query, filtered }
    }

    /// One step of the launcher: reacts to a key press, keeps the displayed
    /// list in step with the query, and says what the caller must do next.
    /// Cancel always ends the session without launching; confirm launches
    /// the first displayed row exactly when one exists.
    pub fn on_key(&mut self, key: Key) -> (r: Action)
        requires
            old(self).wf(),
        ensures
            final(self).wf(),
            final(self).catalog@ == old(self).catalog@,
            key matches Key::Printable { ch, shift } ==> {
                &&& final(self).query@ == old(self).query@.push(effective_char_spec(ch, shift))
                &&& r is Continue
            },
            key is Backspace ==> {
                &&& final(self).query@ == (if old(self).query@.len() == 0 {
                    old(self).query@
                } else {
                    old(self).query@.drop_last()
                })
                &&& r is Continue
            },
            key is Confirm ==> {
                &&& *final(self) == *old(self)
                &&& (old(self).filtered@.len() > 0 ==> (r matches Action::Launch { command }
                    && command@ == old(self).filtered@[0]@.cmd))
                &&& (old(self).filtered@.len() == 0 ==> r is Continue)
            },
            key is Cancel ==> *final(self) == *old(self) && r is Exit,
    {
        match key {
            Key::Printable { ch, shift } => {
                let c = effective_char(ch, shift);
                self.query.push(c);
                let f = filter_catalog(&self.catalog, &self.query);
                self.filtered = f;
                Action::Continue
            },
            Key::Backspace => {
                if self.query.len() > 0 {
                    let _ = self.query.pop();
                }
                let f = filter_catalog(&self.catalog, &self.query);
                self.filtered = f;
                Action::Continue
            },
            Key::Confirm => {
                if self.filtered.len() > 0 {
                    Action::Launch { command: self.filtered[0].exec_command.clone() }
                } else {
                    Action::Continue
                }
            },
            Key::Cancel => Action::Exit,
        }
    }
}

/// The command line a confirmed entry is started with: its exec command,
/// handed whole to a shell interpreter.
pub fn shell_invocation(command: &String) -> (r: (String, Vec<String>))
    ensures
        r.0@ == "sh"@,
        r.1@.len() == 2,
        r.1@[0]@ == "-c"@,
        r.1@[1]@ == command@,
{
    let mut args: Vec<String> = Vec::new();
    args.push("-c".to_owned());
    args.push(command.clone());
    ("sh".to_owned(), args)
}

} // verus!
