//! The descriptor scanner and loader: from directory listings to the
//! catalog. Reading directories is the caller's business; this module
//! decides which file names are descriptors, builds their paths, parses
//! them through the descriptor-format crate, and keeps the complete records.

use vstd::prelude::*;
use crate::entry::{Catalog, DesktopEntry, EntryView, entry_of_fields, entry_views};
use crate::filter::{is_subsequence_of, lemma_subseq_push};
use crate::text::{is_suffix_of, lemma_suffix_of_concat};

verus! {

/// The characters of the descriptor file extension.
pub open spec fn descriptor_suffix() -> Seq<char> {
    seq!['.', 'd', 'e', 's', 'k', 't', 'o', 'p']
}

/// The source paths of a sequence of entry views.
pub open spec fn entry_paths(s: Seq<EntryView>) -> Seq<Seq<char>> {
    s.map_values(|v: EntryView| v.path)
}

/// The views of a sequence of strings.
pub open spec fn string_views(s: Seq<String>) -> Seq<Seq<char>> {
    s.map_values(|x: String| x@)
}

/// Relies on home::home_dir: looks the current user's home directory up
/// from the platform; yields None when it cannot be resolved or its path is
/// not UTF-8. The outcome depends on the environment, so nothing more is
/// assumed of it.
#[verifier::external_body]
fn home_dir_string() -> (r: Option<String>) {
    match home::home_dir() {
        Some(p) => p.into_os_string().into_string().ok(),
        None => None,
    }
}

/// Relies on freedesktop_entry_parser::parse_entry, which reads and parses
/// the descriptor file at `path`, Entry::section, which selects the
/// "[Desktop Entry]" section, and Section::attr, which lists a key's values
/// first-come-first. Err(()) stands for a file that could not be read or
/// parsed; an absent section or key yields None for that field. The outcome
/// depends on what is on disk, so nothing more is assumed of it.
#[verifier::external_body]
fn read_descriptor_fields(path: &String) -> (r: Result<(Option<String>, Option<String>), ()>) {
    match freedesktop_entry_parser::parse_entry(path.as_str()) {
        Ok(entry) => match entry.section("Desktop Entry") {
            Some(section) => Ok(
                (section.attr("Name").first().cloned(), section.attr("Exec").first().cloned()),
            ),
            None => Ok((None, None)),
        },
        Err(_) => Err(()),
    }
}

/// The descriptor directories configured for a given optional home
/// directory: the system-wide one, then the user-local one when the home
/// directory resolved.
pub fn directories_for_home(home: Option<String>) -> (r: Vec<String>)
    ensures
        1 <= r@.len() <= 2,
        r@[0]@ == "/usr/share/applications/"@,
        home matches Some(h) ==> r@.len() == 2 && r@[1]@ == h@ + "/.local/share/applications/"@,
        home is None ==> r@.len() == 1,
{
    let mut dirs: Vec<String> = Vec::new();
    dirs.push("/usr/share/applications/".to_owned());
    match home {
        Some(h) => {
            dirs.push(h.concat("/.local/share/applications/"));
        },
        None => {},
    }
    dirs
}

/// The descriptor directories of this run: the system-wide one and, when
/// the home directory resolves, the user-local one.
pub fn configured_directories() -> (r: Vec<String>)
    ensures
        1 <= r@.len() <= 2,
        r@[0]@ == "/usr/share/applications/"@,
        r@.len() == 2 ==> is_suffix_of("/.local/share/applications/"@, r@[1]@),
{
    let home = home_dir_string();
    let ghost home_snapshot = home;
    let r = directories_for_home(home);
    proof {
        match home_snapshot {
            Some(h) => lemma_suffix_of_concat(h@, "/.local/share/applications/"@),
            None => (),
        }
    }
    r
}

/// Whether a file name ends in the descriptor extension.
pub fn is_descriptor_name(name: &str) -> (r: bool)
    ensures
        r == is_suffix_of(descriptor_suffix(), name@),
{
    let suffix: Vec<char> = vec!['.', 'd', 'e', 's', 'k', 't', 'o', 'p'];
    proof {
        assert(suffix@ =~= descriptor_suffix());
    }
    let n = name.unicode_len();
    if n < 8 {
        return false;
    }
    let mut j: usize = 0;
    while j < 8
        invariant
            n == name@.len(),
            8 <= n,
            suffix@ == descriptor_suffix(),
            0 <= j <= 8,
            forall|k: int|
                0 <= k < j ==> name@[n - 8 + k] == #[trigger] descriptor_suffix()[k],
        decreases 8 - j,
    {
        if name.get_char(n - 8 + j) != suffix[j] {
            assert(!is_suffix_of(descriptor_suffix(), name@));
            return false;
        }
        j += 1;
    }
    true
}

/// The full paths of the descriptor files among one directory's file
/// names, in listing order.
pub open spec fn descriptor_paths_spec(dir: Seq<char>, files: Seq<Seq<char>>) -> Seq<Seq<char>>
    decreases files.len(),
{
    if files.len() == 0 {
        Seq::empty()
    } else {
        let rest = descriptor_paths_spec(dir, files.drop_last());
        if is_suffix_of(descriptor_suffix(), files.last()) {
            rest.push(dir + files.last())
        } else {
            rest
        }
    }
}

/// The descriptor file paths within one directory listing: the directory
/// path concatenated with each file name that ends in the descriptor
/// suffix, in listing order.
pub fn descriptor_paths(dir: &String, files: &Vec<String>) -> (r: Vec<String>)
    ensures
        string_views(r@) == descriptor_paths_spec(dir@, string_views(files@)),
{
    let mut r: Vec<String> = Vec::new();
    let mut i: usize = 0;
    while i < files.len()
        invariant
            0 <= i <= files@.len(),
            string_views(r@) == descriptor_paths_spec(dir@, string_views(files@).take(i as int)),
        decreases files@.len() - i,
    {
        let ghost pre = string_views(files@).take(i as int);
        let ghost f = files@[i as int]@;
        proof {
            assert(string_views(files@).take(i + 1) =~= pre.push(f));
            assert(pre.push(f).drop_last() =~= pre);
            assert(pre.push(f).last() == f);
            assert(descriptor_paths_spec(dir@, pre.push(f)) == (if is_suffix_of(
                descriptor_suffix(),
                f,
            ) {
                descriptor_paths_spec(dir@, pre).push(dir@ + f)
            } else {
                descriptor_paths_spec(dir@, pre)
            }));
        }
        if is_descriptor_name(files[i].as_str()) {
            r.push(dir.clone().concat(files[i].as_str()));
            proof {
                assert(string_views(r@) =~= descriptor_paths_spec(dir@, pre).push(dir@ + f));
            }
        }
        i += 1;
    }
    proof {
        assert(string_views(files@).take(files@.len() as int) =~= string_views(files@));
    }
    r
}

/// One configured directory and the outcome of listing it: None when the
/// directory could not be read, otherwise its file names in listing order.
pub struct DirScan {
    pub dir: String,
    pub files: Option<Vec<String>>,
}

/// The mathematical shape of a `DirScan`.
pub ghost struct ScanView {
    pub dir: Seq<char>,
    pub files: Option<Seq<Seq<char>>>,
}

impl View for DirScan {
    type V = ScanView;

    open spec fn view(&self) -> ScanView {
        ScanView {
            dir: self.dir@,
            files: match self.files {
                Some(f) => Some(string_views(f@)),
                None => None,
            },
        }
    }
}

/// The views of a sequence of scans.
pub open spec fn scan_views(s: Seq<DirScan>) -> Seq<ScanView> {
    s.map_values(|d: DirScan| d@)
}

/// All descriptor paths of a sequence of directory scans, directory by
/// directory; an unreadable directory contributes nothing.
pub open spec fn scan_paths_spec(scans: Seq<ScanView>) -> Seq<Seq<char>>
    decreases scans.len(),
{
    if scans.len() == 0 {
        Seq::empty()
    } else {
        scan_paths_spec(scans.drop_last()) + (match scans.last().files {
            Some(fs) => descriptor_paths_spec(scans.last().dir, fs),
            None => Seq::empty(),
        })
    }
}

/// An unreadable directory anywhere in the configuration changes nothing:
/// the descriptor paths are exactly those of the remaining directories.
pub proof fn lemma_unreadable_dir_skipped(a: Seq<ScanView>, s: ScanView, b: Seq<ScanView>)
    requires
        s.files is None,
    ensures
        scan_paths_spec(a + seq![s] + b) == scan_paths_spec(a + b),
    decreases b.len(),
{
    if b.len() == 0 {
        assert(a + seq![s] + b =~= a + seq![s]);
        assert((a + seq![s]).drop_last() =~= a);
        assert((a + seq![s]).last() == s);
        assert(scan_paths_spec(a + seq![s]) =~= scan_paths_spec(a));
        assert(a + b =~= a);
    } else {
        let c = a + seq![s] + b;
        let d = a + b;
        assert(c.drop_last() =~= a + seq![s] + b.drop_last());
        assert(c.last() == b.last());
        assert(d.drop_last() =~= a + b.drop_last());
        assert(d.last() == b.last());
        lemma_unreadable_dir_skipped(a, s, b.drop_last());
    }
}

/// Loads one descriptor file: parses it and keeps a record only when both
/// required fields are present. Whatever the file held, a produced entry
/// records this path as its source.
pub fn load_entry(path: &String) -> (r: Option<DesktopEntry>)
    ensures
        r matches Some(e) ==> e@.path == path@,
{
    match read_descriptor_fields(path) {
        Ok((name, exec)) => entry_of_fields(path, name, exec),
        Err(_) => None,
    }
}

/// Loads every descriptor path in order, keeping the files that parsed
/// completely; each produced entry records one of the given paths as its
/// source, and the entries keep the discovery order of their paths.
pub fn load_entries(paths: &Vec<String>) -> (r: Vec<DesktopEntry>)
    ensures
        r@.len() <= paths@.len(),
        forall|i: int| 0 <= i < r@.len() ==> string_views(paths@).contains(#[trigger] r@[i]@.path),
        is_subsequence_of(entry_paths(entry_views(r@)), string_views(paths@)),
{
    let mut r: Vec<DesktopEntry> = Vec::new();
    let mut i: usize = 0;
    while i < paths.len()
        invariant
            0 <= i <= paths@.len(),
            r@.len() <= i,
            forall|k: int|
                0 <= k < r@.len() ==> string_views(paths@).contains(#[trigger] r@[k]@.path),
            is_subsequence_of(entry_paths(entry_views(r@)), string_views(paths@).take(i as int)),
        decreases paths@.len() - i,
    {
        let ghost prev = entry_paths(entry_views(r@));
        let ghost q = string_views(paths@).take(i as int);
        let ghost x = paths@[i as int]@;
        proof {
            assert(string_views(paths@).take(i + 1) =~= q.push(x));
        }
        match load_entry(&paths[i]) {
            Some(e) => {
                proof {
                    assert(string_views(paths@)[i as int] == paths@[i as int]@);
                }
                r.push(e);
                proof {
                    assert(entry_paths(entry_views(r@)) =~= prev.push(x));
                    assert(prev.push(x).drop_last() =~= prev);
                    assert(q.push(x).drop_last() =~= q);
                    assert(is_subsequence_of(prev.push(x), q.push(x)));
                }
            },
            None => {
                proof {
                    lemma_subseq_push(prev, q, x);
                }
            },
        }
        i += 1;
    }
    proof {
        assert(string_views(paths@).take(paths@.len() as int) =~= string_views(paths@));
    }
    r
}

/// Runs the scanner and loader over every configured directory's listing,
/// accumulating the catalog in discovery order. Every entry stems from one
/// of the discovered descriptor paths, and the catalog keeps their
/// discovery order.
pub fn build_catalog(scans: &Vec<DirScan>) -> (c: Catalog)
    ensures
        c@.len() <= scan_paths_spec(scan_views(scans@)).len(),
        forall|i: int|
            0 <= i < c@.len() ==> scan_paths_spec(scan_views(scans@)).contains(
                #[trigger] c@[i].path,
            ),
        is_subsequence_of(entry_paths(c@), scan_paths_spec(scan_views(scans@))),
{
    let paths = collect_descriptor_paths(scans);
    let entries = load_entries(&paths);
    Catalog { entries }
}

/// The descriptor file paths of every readable configured directory, in
/// configuration order; unreadable directories are skipped and the rest of
/// the configuration is still scanned.
pub fn collect_descriptor_paths(scans: &Vec<DirScan>) -> (r: Vec<String>)
    ensures
        string_views(r@) == scan_paths_spec(scan_views(scans@)),
{
    let mut r: Vec<String> = Vec::new();
    let mut i: usize = 0;
    while i < scans.len()
        invariant
            0 <= i <= scans@.len(),
            string_views(r@) == scan_paths_spec(scan_views(scans@).take(i as int)),
        decreases scans@.len() - i,
    {
        let ghost pre = scan_views(scans@).take(i as int);
        let ghost v = scans@[i as int]@;
        proof {
            assert(scan_views(scans@).take(i + 1) =~= pre.push(v));
            assert(pre.push(v).drop_last() =~= pre);
        }
        match &scans[i].files {
            Some(fs) => {
                let mut ps = descriptor_paths(&scans[i].dir, fs);
                proof {
                    assert(v.files == Some(string_views(fs@)));
                    assert(string_views(r@ + ps@) =~= string_views(r@) + string_views(ps@));
                }
                r.append(&mut ps);
            },
            None => {
                proof {
                    assert(string_views(r@) + Seq::<Seq<char>>::empty() =~= string_views(r@));
                }
            },
        }
        i += 1;
    }
    proof {
        assert(scan_views(scans@).take(scans@.len() as int) =~= scan_views(scans@));
    }
    r
}

} // verus!
