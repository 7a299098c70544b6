//! The catalog's records: one entry per successfully loaded descriptor file.

use vstd::prelude::*;

verus! {

/// One launchable application, as loaded from a descriptor file.
pub struct DesktopEntry {
    /// The value of the descriptor's "Name" key, shown in the list.
    pub display_name: String,
    /// The value of the descriptor's "Exec" key, handed verbatim to a shell.
    pub exec_command: String,
    /// The descriptor file this entry was loaded from (diagnostics only).
    pub source_path: String,
}

/// The mathematical shape of a `DesktopEntry`: its three fields as
/// character sequences.
pub ghost struct EntryView {
    pub name: Seq<char>,
    pub cmd: Seq<char>,
    pub path: Seq<char>,
}

impl View for DesktopEntry {
    type V = EntryView;

    open spec fn view(&self) -> EntryView {
        EntryView {
            name: self.display_name@,
            cmd: self.exec_command@,
            path: self.source_path@,
        }
    }
}

impl Clone for DesktopEntry {
    fn clone(&self) -> (r: Self)
        ensures
            r@ == self@,
    {
        DesktopEntry {
            display_name: self.display_name.clone(),
            exec_command: self.exec_command.clone(),
            source_path: self.source_path.clone(),
        }
    }
}

/// The views of a sequence of entries.
pub open spec fn entry_views(s: Seq<DesktopEntry>) -> Seq<EntryView> {
    s.map_values(|e: DesktopEntry| e@)
}

/// The catalog: every successfully loaded entry of one run, in discovery
/// order. Built once at startup and never mutated afterwards.
pub struct Catalog {
    pub entries: Vec<DesktopEntry>,
}

impl View for Catalog {
    type V = Seq<EntryView>;

    open spec fn view(&self) -> Seq<EntryView> {
        entry_views(self.entries@)
    }
}

/// Builds the catalog record for one descriptor file from the fields its
/// parse produced. A record exists exactly when both required fields were
/// present, and carries their values verbatim.
pub fn entry_of_fields(path: &String, name: Option<String>, exec: Option<String>) -> (r: Option<
    DesktopEntry,
>)
    ensures
        r is Some <==> (name is Some && exec is Some),
        r matches Some(e) ==> {
            &&& e@.name == name->Some_0@
            &&& e@.cmd == exec->Some_0@
            &&& e@.path == path@
        },
{
    match (name, exec) {
        (Some(n), Some(x)) => Some(
            DesktopEntry {
                display_name: n,
                exec_command: x,
                source_path: path.clone(),
            },
        ),
        _ => None,
    }
}

} // verus!
