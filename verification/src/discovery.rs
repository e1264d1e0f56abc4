//! Filesystem discovery: listing candidate Wine bottles, the depth-bounded
//! recursive search for Windows executables, the per-root scan for game
//! directories, and keyword extraction around a chosen executable.
//!
//! Each operation has a pure core that works on a snapshot of the directory
//! tree and carries an exact contract, and a driver of the original's shape
//! that reads the disk through the trusted wrappers and hands the snapshot
//! to the core.

use vstd::prelude::*;

use crate::fs_model::DirEntryInfo;
use crate::fs_model::EntryKind;
use crate::fs_model::FsNode;
use crate::fs_model::path_exists;
use crate::fs_model::path_is_dir;
use crate::fs_model::read_dir_entries;
use crate::paths::expand_tilde;
use crate::paths::ext_of_name;
use crate::paths::has_exe_ext;
use crate::paths::join_path;
use crate::paths::opt_str_view;
use crate::paths::parent_dir;
use crate::paths::file_name_of;
use crate::paths::spec_file_name;
use crate::paths::spec_join;
use crate::paths::spec_parent;
use crate::paths::spec_resolve;
use crate::paths::stem_of;
use crate::paths::stem_of_name;
use crate::strings::sort_and_dedup;
use crate::strings::strictly_sorted;

verus! {

/// A direct child of the scanned root that holds at least one executable,
/// with the executables' full paths in the order the scan met them.
pub struct GameDirInfo {
    pub dir_name: String,
    pub executables: Vec<String>,
}

impl View for GameDirInfo {
    type V = (Seq<char>, Seq<Seq<char>>);

    open spec fn view(&self) -> Self::V {
        (self.dir_name@, self.executables.deep_view())
    }
}

impl DeepView for GameDirInfo {
    type V = (Seq<char>, Seq<Seq<char>>);

    open spec fn deep_view(&self) -> Self::V {
        self@
    }
}

/// Why a discovery operation failed, with the path it was attempted on.
/// Discovery knows exactly one failure: a root that is missing or is not a
/// directory. An existing root whose entries cannot be read is no error;
/// it simply lists as empty, just as unreadable subtrees are skipped.
pub enum ScanError {
    /// The scan root is missing or is not a directory.
    ScanRootInvalid(String),
}

impl ScanError {
    /// A description of the failure naming the attempted path.
    pub fn message(&self) -> (r: String)
        ensures
            self matches ScanError::ScanRootInvalid(p) ==> r@ == "scan root missing or not a directory: "@ + p@,
    {
        match self {
            ScanError::ScanRootInvalid(p) => {
                let mut m = "scan root missing or not a directory: ".to_owned();
                m.append(p.as_str());
                m
            },
        }
    }
}

/// The names of the directory entries among `l[i..]`, in listing order.
pub open spec fn spec_bottle_names(l: Seq<DirEntryInfo>, i: int) -> Seq<Seq<char>>
    decreases l.len() - i,
{
    if i < 0 || i >= l.len() {
        Seq::empty()
    } else {
        let rest = spec_bottle_names(l, i + 1);
        if l[i].kind is Dir {
            seq![l[i].name@] + rest
        } else {
            rest
        }
    }
}

/// The full paths of the `exe`-suffixed files among `entries[i..]` and, for
/// directory entries, recursively below them, in depth-first listing order;
/// nothing is collected below nesting depth 5.
pub open spec fn spec_find_exes(
    prefix: Seq<char>,
    entries: Seq<FsNode>,
    i: int,
    depth: int,
) -> Seq<Seq<char>>
    decreases 6 - depth, entries.len() - i,
{
    if depth > 5 || i < 0 || i >= entries.len() {
        Seq::empty()
    } else {
        let head = match entries[i] {
            FsNode::File { name } => {
                if ext_of_name(name@) == Some("exe"@) {
                    seq![spec_join(prefix, name@)]
                } else {
                    Seq::empty()
                }
            },
            FsNode::Dir { name, children } => {
                spec_find_exes(spec_join(prefix, name@), children@, 0, depth + 1)
            },
        };
        head + spec_find_exes(prefix, entries, i + 1, depth)
    }
}

/// The scan of a root's direct children `entries[i..]`: each child directory
/// whose subtree holds at least one executable, paired with those
/// executables' paths.
pub open spec fn spec_scan(root: Seq<char>, entries: Seq<FsNode>, i: int) -> Seq<
    (Seq<char>, Seq<Seq<char>>),
>
    decreases entries.len() - i,
{
    if i < 0 || i >= entries.len() {
        Seq::empty()
    } else {
        let rest = spec_scan(root, entries, i + 1);
        match entries[i] {
            FsNode::Dir { name, children } => {
                let exes = spec_find_exes(spec_join(root, name@), children@, 0, 0);
                if exes.len() > 0 {
                    seq![(name@, exes)] + rest
                } else {
                    rest
                }
            },
            FsNode::File { .. } => rest,
        }
    }
}

/// The stems of the `exe`-suffixed regular files among `l[i..]`.
pub open spec fn spec_exe_stems(l: Seq<DirEntryInfo>, i: int) -> Seq<Seq<char>>
    decreases l.len() - i,
{
    if i < 0 || i >= l.len() {
        Seq::empty()
    } else {
        let rest = spec_exe_stems(l, i + 1);
        if l[i].kind is File && ext_of_name(l[i].name@) == Some("exe"@) {
            seq![stem_of_name(l[i].name@)] + rest
        } else {
            rest
        }
    }
}

/// The keyword an executable's location contributes: the name of its parent
/// directory, when the path has one that names a directory.
pub open spec fn spec_dir_keyword(path: Seq<char>) -> Option<Seq<char>> {
    match spec_parent(path) {
        Some(par) => spec_file_name(par),
        None => None,
    }
}

/// The raw keywords before sorting and deduplication: the directory's own
/// name, if any, followed by the stems of its `exe` files.
pub open spec fn spec_raw_keywords(dir_kw: Option<Seq<char>>, l: Seq<DirEntryInfo>) -> Seq<
    Seq<char>,
> {
    (match dir_kw {
        Some(d) => seq![d],
        None => Seq::empty(),
    }) + spec_exe_stems(l, 0)
}

/// The names of the directories in a listing, in listing order: the bottles
/// under a containers root.
pub fn bottle_names(listing: &Vec<DirEntryInfo>) -> (r: Vec<String>)
    ensures
        r.deep_view() == spec_bottle_names(listing@, 0),
{
    let mut r: Vec<String> = Vec::new();
    let n = listing.len();
    let mut i: usize = 0;
    proof {
        assert(r.deep_view() =~= Seq::<Seq<char>>::empty());
    }
    while i < n
        invariant
            i <= n,
            n == listing@.len(),
            r.deep_view() + spec_bottle_names(listing@, i as int) == spec_bottle_names(
                listing@,
                0,
            ),
        decreases n - i,
    {
        let e = &listing[i];
        let ghost before = r.deep_view();
        match e.kind {
            EntryKind::Dir => {
                r.push(e.name.clone());
                proof {
                    assert(r.deep_view() =~= before.push(e.name@));
                    assert(before.push(e.name@) + spec_bottle_names(listing@, i + 1) =~= before
                        + spec_bottle_names(listing@, i as int));
                }
            },
            _ => {
                proof {
                    assert(spec_bottle_names(listing@, i as int) == spec_bottle_names(
                        listing@,
                        i + 1,
                    ));
                }
            },
        }
        i = i + 1;
    }
    proof {
        assert(spec_bottle_names(listing@, n as int) =~= Seq::<Seq<char>>::empty());
        assert(r.deep_view() + Seq::<Seq<char>>::empty() =~= r.deep_view());
    }
    r
}

/// How many directory levels the bounded scan may still descend from here.
pub open spec fn depth_budget(depth: int) -> int {
    if depth > 5 {
        0
    } else {
        6 - depth
    }
}

/// Appends to `exes` the full path of every `exe` file in the snapshot
/// `entries` of directory `prefix`, searching directories recursively but
/// never below nesting depth 5: the pure core of the executable scan.
pub fn find_exes_in_tree(prefix: &str, entries: &Vec<FsNode>, depth: usize, exes: &mut Vec<String>)
    ensures
        final(exes).deep_view() == old(exes).deep_view() + spec_find_exes(
            prefix@,
            entries@,
            0,
            depth as int,
        ),
    decreases depth_budget(depth as int),
{
    if depth > 5 {
        proof {
            assert(spec_find_exes(prefix@, entries@, 0, depth as int)
                =~= Seq::<Seq<char>>::empty());
            assert(exes.deep_view() + Seq::<Seq<char>>::empty() =~= exes.deep_view());
        }
        return ;
    }
    let n = entries.len();
    let mut i: usize = 0;
    while i < n
        invariant
            i <= n,
            n == entries@.len(),
            depth <= 5,
            exes.deep_view() + spec_find_exes(prefix@, entries@, i as int, depth as int) == old(
                exes,
            ).deep_view() + spec_find_exes(prefix@, entries@, 0, depth as int),
        decreases n - i,
    {
        let ghost before = exes.deep_view();
        let ghost head = match entries@[i as int] {
            FsNode::File { name } => {
                if ext_of_name(name@) == Some("exe"@) {
                    seq![spec_join(prefix@, name@)]
                } else {
                    Seq::<Seq<char>>::empty()
                }
            },
            FsNode::Dir { name, children } => {
                spec_find_exes(spec_join(prefix@, name@), children@, 0, depth as int + 1)
            },
        };
        proof {
            assert(spec_find_exes(prefix@, entries@, i as int, depth as int) == head
                + spec_find_exes(prefix@, entries@, i + 1, depth as int));
        }
        match &entries[i] {
            FsNode::File { name } => {
                if has_exe_ext(name.as_str()) {
                    let full = join_path(prefix, name.as_str());
                    exes.push(full);
                    proof {
                        assert(exes.deep_view() =~= before.push(spec_join(prefix@, name@)));
                        assert(before.push(spec_join(prefix@, name@)) =~= before + head);
                    }
                } else {
                    proof {
                        assert(head =~= Seq::<Seq<char>>::empty());
                        assert(before + head =~= before);
                    }
                }
            },
            FsNode::Dir { name, children } => {
                let sub = join_path(prefix, name.as_str());
                find_exes_in_tree(sub.as_str(), children, depth + 1, exes);
                proof {
                    assert(exes.deep_view() == before + head);
                }
            },
        }
        proof {
            assert((before + head) + spec_find_exes(prefix@, entries@, i + 1, depth as int)
                =~= before + (head + spec_find_exes(prefix@, entries@, i + 1, depth as int)));
            assert(exes.deep_view() + spec_find_exes(prefix@, entries@, i + 1, depth as int)
                == old(exes).deep_view() + spec_find_exes(prefix@, entries@, 0, depth as int));
        }
        i = i + 1;
    }
    proof {
        assert(spec_find_exes(prefix@, entries@, n as int, depth as int)
            =~= Seq::<Seq<char>>::empty());
        assert(exes.deep_view() + Seq::<Seq<char>>::empty() =~= exes.deep_view());
    }
}

/// The scan of a snapshot of a root's children: each child directory with
/// at least one executable below it, in listing order, with the executables
/// in depth-first order. Children without executables are omitted.
pub fn scan_tree(root: &str, entries: &Vec<FsNode>) -> (r: Vec<GameDirInfo>)
    ensures
        r.deep_view() == spec_scan(root@, entries@, 0),
{
    let mut r: Vec<GameDirInfo> = Vec::new();
    let n = entries.len();
    let mut i: usize = 0;
    proof {
        assert(r.deep_view() =~= Seq::<(Seq<char>, Seq<Seq<char>>)>::empty());
    }
    while i < n
        invariant
            i <= n,
            n == entries@.len(),
            r.deep_view() + spec_scan(root@, entries@, i as int) == spec_scan(root@, entries@, 0),
        decreases n - i,
    {
        let ghost before = r.deep_view();
        match &entries[i] {
            FsNode::Dir { name, children } => {
                let sub = join_path(root, name.as_str());
                let mut exes: Vec<String> = Vec::new();
                proof {
                    assert(exes.deep_view() =~= Seq::<Seq<char>>::empty());
                }
                find_exes_in_tree(sub.as_str(), children, 0, &mut exes);
                let ghost spec_exes = spec_find_exes(spec_join(root@, name@), children@, 0, 0);
                proof {
                    assert(Seq::<Seq<char>>::empty() + spec_exes =~= spec_exes);
                    assert(exes.deep_view() == spec_exes);
                    assert(exes@.len() == exes.deep_view().len());
                }
                if exes.len() > 0 {
                    r.push(GameDirInfo { dir_name: name.clone(), executables: exes });
                    proof {
                        assert(r.deep_view() =~= before.push((name@, spec_exes)));
                        assert(before.push((name@, spec_exes)) =~= before + seq![(name@, spec_exes)]);
                        assert((before + seq![(name@, spec_exes)]) + spec_scan(root@, entries@, i + 1)
                            =~= before + (seq![(name@, spec_exes)] + spec_scan(root@, entries@, i + 1)));
                    }
                } else {
                    proof {
                        assert(spec_exes.len() == 0);
                        assert(spec_scan(root@, entries@, i as int) == spec_scan(
                            root@,
                            entries@,
                            i + 1,
                        ));
                    }
                }
            },
            FsNode::File { .. } => {
                proof {
                    assert(spec_scan(root@, entries@, i as int) == spec_scan(
                        root@,
                        entries@,
                        i + 1,
                    ));
                }
            },
        }
        i = i + 1;
    }
    proof {
        assert(spec_scan(root@, entries@, n as int) =~= Seq::<(Seq<char>, Seq<Seq<char>>)>::empty());
        assert(r.deep_view() + Seq::<(Seq<char>, Seq<Seq<char>>)>::empty() =~= r.deep_view());
    }
    r
}

/// The keywords around an executable: its directory's name, if given, plus
/// the stems of the listing's `exe` files, sorted and deduplicated.
pub fn keyword_list(dir_name: Option<&String>, listing: &Vec<DirEntryInfo>) -> (r: Vec<String>)
    ensures
        strictly_sorted(r.deep_view()),
        forall|x: Seq<char>|
            r.deep_view().contains(x) <==> spec_raw_keywords(
                opt_str_view(dir_name),
                listing@,
            ).contains(x),
{
    let mut raw: Vec<String> = Vec::new();
    let ghost dir_kw = opt_str_view(dir_name);
    let ghost dir_part: Seq<Seq<char>> = match dir_kw {
        Some(d) => seq![d],
        None => Seq::empty(),
    };
    if let Some(d) = dir_name {
        raw.push(d.clone());
    }
    proof {
        assert(raw.deep_view() =~= dir_part);
    }
    let n = listing.len();
    let mut i: usize = 0;
    while i < n
        invariant
            i <= n,
            n == listing@.len(),
            raw.deep_view() + spec_exe_stems(listing@, i as int) == dir_part + spec_exe_stems(
                listing@,
                0,
            ),
        decreases n - i,
    {
        let e = &listing[i];
        let ghost before = raw.deep_view();
        let is_file = match e.kind {
            EntryKind::File => true,
            _ => false,
        };
        if is_file && has_exe_ext(e.name.as_str()) {
            let st = stem_of(e.name.as_str());
            raw.push(st);
            proof {
                assert(raw.deep_view() =~= before.push(stem_of_name(e.name@)));
                assert(before.push(stem_of_name(e.name@)) + spec_exe_stems(listing@, i + 1)
                    =~= before + spec_exe_stems(listing@, i as int));
            }
        } else {
            proof {
                assert(spec_exe_stems(listing@, i as int) == spec_exe_stems(listing@, i + 1));
            }
        }
        i = i + 1;
    }
    proof {
        assert(spec_exe_stems(listing@, n as int) =~= Seq::<Seq<char>>::empty());
        assert(raw.deep_view() + Seq::<Seq<char>>::empty() =~= raw.deep_view());
        assert(raw.deep_view() == spec_raw_keywords(dir_kw, listing@));
    }
    sort_and_dedup(&raw)
}

/// What listing the bottles under `path` may return: the input resolved,
/// a missing root rejected with that resolved path, and an existing root
/// answered with exactly the directory names of its listing, in order.
pub open spec fn bottles_outcome(
    path: Seq<char>,
    home: Option<Seq<char>>,
    root_there: bool,
    listing: Seq<DirEntryInfo>,
    r: Result<Vec<String>, ScanError>,
) -> bool {
    let resolved = spec_resolve(path, home);
    if !root_there {
        r matches Err(ScanError::ScanRootInvalid(p)) && p@ == resolved
    } else {
        r matches Ok(names) && names.deep_view() == spec_bottle_names(listing, 0)
    }
}

/// Lists the Wine bottles under a containers root: the name of every direct
/// child directory, after home-shorthand expansion of `path`. Fails only
/// when the resolved root does not exist; a root whose entries cannot be
/// read lists as empty.
pub fn get_crossover_bottles(path: String) -> (r: Result<Vec<String>, ScanError>)
    ensures
        exists|home: Option<Seq<char>>, root_there: bool, listing: Seq<DirEntryInfo>|
            bottles_outcome(path@, home, root_there, listing, r),
{
    let resolved = expand_tilde(path.as_str());
    let ghost home: Option<Seq<char>> = choose|h: Option<Seq<char>>|
        resolved@ == spec_resolve(path@, h);
    if !path_exists(resolved.as_str()) {
        let r = Err(ScanError::ScanRootInvalid(resolved));
        proof {
            assert(bottles_outcome(path@, home, false, Seq::<DirEntryInfo>::empty(), r));
        }
        return r;
    }
    let listing = match read_dir_entries(resolved.as_str()) {
        Some(l) => l,
        None => Vec::new(),
    };
    let names = bottle_names(&listing);
    let r = Ok(names);
    proof {
        assert(bottles_outcome(path@, home, true, listing@, r));
    }
    r
}

/// Appends to `exes` every executable the bounded scan finds on disk under
/// `dir`, starting at nesting depth `depth`: for some snapshot of what the
/// disk held, the result is exactly the pure scan of that snapshot.
pub fn find_exes(dir: &str, exes: &mut Vec<String>, depth: usize)
    ensures
        exists|tree: Seq<FsNode>|
            final(exes).deep_view() == old(exes).deep_view() + spec_find_exes(
                dir@,
                tree,
                0,
                depth as int,
            ),
{
    if depth > 5 {
        proof {
            let tree = Seq::<FsNode>::empty();
            assert(spec_find_exes(dir@, tree, 0, depth as int) =~= Seq::<Seq<char>>::empty());
            assert(exes.deep_view() + Seq::<Seq<char>>::empty() =~= exes.deep_view());
            assert(exes.deep_view() == old(exes).deep_view() + spec_find_exes(
                dir@,
                tree,
                0,
                depth as int,
            ));
        }
        return ;
    }
    let tree = read_subtree(dir, 6 - depth);
    find_exes_in_tree(dir, &tree, depth, exes);
    proof {
        assert(exes.deep_view() == old(exes).deep_view() + spec_find_exes(
            dir@,
            tree@,
            0,
            depth as int,
        ));
    }
}

/// Reads a snapshot of the tree under `dir`, at most `levels` listings deep.
/// A directory that cannot be read, and any entry that is neither a regular
/// file nor a directory, is left out, as the scans would skip it anyway.
fn read_subtree(dir: &str, levels: usize) -> (r: Vec<FsNode>)
    decreases levels,
{
    let mut nodes: Vec<FsNode> = Vec::new();
    if levels == 0 {
        return nodes;
    }
    let listing = match read_dir_entries(dir) {
        Some(l) => l,
        None => {
            return nodes;
        },
    };
    let n = listing.len();
    let mut i: usize = 0;
    while i < n
        invariant
            i <= n,
            n == listing@.len(),
            levels >= 1,
        decreases n - i,
    {
        let e = &listing[i];
        match e.kind {
            EntryKind::File => {
                nodes.push(FsNode::File { name: e.name.clone() });
            },
            EntryKind::Dir => {
                let sub = join_path(dir, e.name.as_str());
                let children = read_subtree(sub.as_str(), levels - 1);
                nodes.push(FsNode::Dir { name: e.name.clone(), children });
            },
            EntryKind::Other => {},
        }
        i = i + 1;
    }
    nodes
}

/// What scanning `path` for game directories may return: a root that is
/// not a directory is rejected; an existing directory root always yields
/// exactly the pure scan of some snapshot of the tree under it.
pub open spec fn scan_outcome(
    path: Seq<char>,
    is_dir: bool,
    tree: Seq<FsNode>,
    r: Result<Vec<GameDirInfo>, ScanError>,
) -> bool {
    if !is_dir {
        r matches Err(ScanError::ScanRootInvalid(p)) && p@ == path
    } else {
        r matches Ok(v) && v.deep_view() == spec_scan(path, tree, 0)
    }
}

/// Scans the direct children of `path` and reports every child directory
/// holding at least one executable within the depth bound, with the
/// executables' full paths. Fails fast when `path` is not a directory,
/// and only then; a directory whose entries cannot be read scans as empty.
pub fn scan_game_directories(path: String) -> (r: Result<Vec<GameDirInfo>, ScanError>)
    ensures
        exists|is_dir: bool, tree: Seq<FsNode>| scan_outcome(path@, is_dir, tree, r),
{
    if !path_is_dir(path.as_str()) {
        let ghost pv = path@;
        let r = Err(ScanError::ScanRootInvalid(path));
        proof {
            assert(scan_outcome(pv, false, Seq::<FsNode>::empty(), r));
        }
        return r;
    }
    let listing = match read_dir_entries(path.as_str()) {
        Some(l) => l,
        None => Vec::new(),
    };
    let mut nodes: Vec<FsNode> = Vec::new();
    let n = listing.len();
    let mut i: usize = 0;
    while i < n
        invariant
            i <= n,
            n == listing@.len(),
        decreases n - i,
    {
        let e = &listing[i];
        match e.kind {
            EntryKind::File => {
                nodes.push(FsNode::File { name: e.name.clone() });
            },
            EntryKind::Dir => {
                let sub = join_path(path.as_str(), e.name.as_str());
                let children = read_subtree(sub.as_str(), 6);
                nodes.push(FsNode::Dir { name: e.name.clone(), children });
            },
            EntryKind::Other => {},
        }
        i = i + 1;
    }
    let v = scan_tree(path.as_str(), &nodes);
    let r = Ok(v);
    proof {
        assert(scan_outcome(path@, true, nodes@, r));
    }
    r
}

/// The keyword result is exactly the sorted, deduplicated raw keywords of
/// `path`'s parent and some listing of it.
pub open spec fn keywords_outcome(
    path: Seq<char>,
    listing: Seq<DirEntryInfo>,
    r: Result<Vec<String>, ScanError>,
) -> bool {
    r matches Ok(ks) && (forall|x: Seq<char>|
        ks.deep_view().contains(x) <==> spec_raw_keywords(
            spec_dir_keyword(path),
            listing,
        ).contains(x))
}

/// The keywords around a chosen executable: its parent directory's name and
/// the stems of the `exe` files directly inside that parent, sorted and
/// deduplicated. Never fails: a path without a parent, or an unreadable
/// parent, simply contributes nothing.
pub fn get_directory_keywords(path: String) -> (r: Result<Vec<String>, ScanError>)
    ensures
        r is Ok,
        r matches Ok(ks) ==> strictly_sorted(ks.deep_view()),
        r matches Ok(ks) ==> (spec_dir_keyword(path@) matches Some(dn)
            ==> ks.deep_view().contains(dn)),
        spec_parent(path@) is None ==> (r matches Ok(ks) && ks@.len() == 0),
        exists|listing: Seq<DirEntryInfo>| keywords_outcome(path@, listing, r),
{
    match parent_dir(path.as_str()) {
        None => {
            let ks: Vec<String> = Vec::new();
            proof {
                assert(ks.deep_view() =~= Seq::<Seq<char>>::empty());
            }
            let ghost kv = ks.deep_view();
            let r = Ok(ks);
            proof {
                let listing = Seq::<DirEntryInfo>::empty();
                assert(spec_exe_stems(listing, 0) =~= Seq::<Seq<char>>::empty());
                assert(spec_raw_keywords(spec_dir_keyword(path@), listing)
                    =~= Seq::<Seq<char>>::empty());
                assert(keywords_outcome(path@, listing, r));
            }
            r
        },
        Some(par) => {
            let dn = file_name_of(par.as_str());
            let dn_ref = dn.as_ref();
            let listing = match read_dir_entries(par.as_str()) {
                Some(l) => l,
                None => Vec::new(),
            };
            let ks = keyword_list(dn_ref, &listing);
            proof {
                assert(opt_str_view(dn_ref) == spec_dir_keyword(path@));
            }
            let r = Ok(ks);
            proof {
                assert(keywords_outcome(path@, listing@, r));
                if spec_dir_keyword(path@) is Some {
                    let d = spec_dir_keyword(path@)->0;
                    let raw = spec_raw_keywords(spec_dir_keyword(path@), listing@);
                    assert(raw[0] == d);
                    assert(raw.contains(d));
                }
            }
            r
        },
    }
}

/// A node holding a regular file whose name carries the `exe` extension.
pub open spec fn is_exe_file(node: FsNode) -> bool {
    node matches FsNode::File { name } && ext_of_name(name@) == Some("exe"@)
}

/// The name a node carries, whichever kind it is.
pub open spec fn node_name(node: FsNode) -> Seq<char> {
    match node {
        FsNode::File { name } => name@,
        FsNode::Dir { name, .. } => name@,
    }
}

/// What one node adds to the scan of its directory: a matching file adds
/// its full path, a directory adds the scan of its children one level
/// deeper, and anything else adds nothing.
pub open spec fn head_contrib(prefix: Seq<char>, node: FsNode, depth: int) -> Seq<Seq<char>> {
    match node {
        FsNode::File { name } => {
            if ext_of_name(name@) == Some("exe"@) {
                seq![spec_join(prefix, name@)]
            } else {
                Seq::empty()
            }
        },
        FsNode::Dir { name, children } => {
            spec_find_exes(spec_join(prefix, name@), children@, 0, depth + 1)
        },
    }
}

pub proof fn lemma_find_exes_unfold(prefix: Seq<char>, entries: Seq<FsNode>, i: int, depth: int)
    requires
        0 <= i < entries.len(),
        depth <= 5,
    ensures
        spec_find_exes(prefix, entries, i, depth) == head_contrib(prefix, entries[i], depth)
            + spec_find_exes(prefix, entries, i + 1, depth),
{
}

/// Whatever one entry at or after position `i` contributes is in the scan
/// of the whole listing.
proof fn lemma_contrib_found(
    prefix: Seq<char>,
    entries: Seq<FsNode>,
    i: int,
    k: int,
    depth: int,
    x: Seq<char>,
)
    requires
        0 <= i <= k < entries.len(),
        0 <= depth <= 5,
        head_contrib(prefix, entries[k], depth).contains(x),
    ensures
        spec_find_exes(prefix, entries, i, depth).contains(x),
    decreases k - i,
{
    lemma_find_exes_unfold(prefix, entries, i, depth);
    let h = head_contrib(prefix, entries[i], depth);
    let rest = spec_find_exes(prefix, entries, i + 1, depth);
    if i == k {
        let j = choose|j: int| 0 <= j < h.len() && h[j] == x;
        assert((h + rest)[j] == x);
    } else {
        lemma_contrib_found(prefix, entries, i + 1, k, depth, x);
        let j = choose|j: int| 0 <= j < rest.len() && rest[j] == x;
        assert((h + rest)[h.len() + j] == x);
    }
}

/// The directory `idxs` leads to from `(prefix, entries)`, together with
/// the path prefix accumulated on the way: each index steps into the named
/// child directory of the current listing.
pub open spec fn subtree_at(prefix: Seq<char>, entries: Seq<FsNode>, idxs: Seq<int>) -> Option<
    (Seq<char>, Seq<FsNode>),
>
    decreases idxs.len(),
{
    if idxs.len() == 0 {
        Some((prefix, entries))
    } else {
        let i = idxs[0];
        if 0 <= i < entries.len() {
            match entries[i] {
                FsNode::Dir { name, children } => {
                    subtree_at(spec_join(prefix, name@), children@, idxs.drop_first())
                },
                FsNode::File { .. } => None,
            }
        } else {
            None
        }
    }
}

/// Law: the bounded scan misses nothing within its reach: an `exe` file
/// sitting in a directory reached through at most `5 - depth` levels of
/// nesting is reported, under its full joined path.
pub proof fn law_exe_within_depth_found(
    prefix: Seq<char>,
    entries: Seq<FsNode>,
    idxs: Seq<int>,
    j: int,
    depth: int,
)
    requires
        0 <= depth,
        depth + idxs.len() <= 5,
        subtree_at(prefix, entries, idxs) is Some,
        ({
            let sub = subtree_at(prefix, entries, idxs)->0;
            0 <= j < sub.1.len() && is_exe_file(sub.1[j])
        }),
    ensures
        ({
            let sub = subtree_at(prefix, entries, idxs)->0;
            spec_find_exes(prefix, entries, 0, depth).contains(
                spec_join(sub.0, node_name(sub.1[j])),
            )
        }),
    decreases idxs.len(),
{
    let sub = subtree_at(prefix, entries, idxs)->0;
    let x = spec_join(sub.0, node_name(sub.1[j]));
    if idxs.len() == 0 {
        let node = entries[j];
        assert(head_contrib(prefix, node, depth)[0] == x);
        assert(head_contrib(prefix, node, depth).contains(x));
        lemma_contrib_found(prefix, entries, 0, j, depth, x);
    } else {
        let i0 = idxs[0];
        match entries[i0] {
            FsNode::Dir { name, children } => {
                law_exe_within_depth_found(
                    spec_join(prefix, name@),
                    children@,
                    idxs.drop_first(),
                    j,
                    depth + 1,
                );
                assert(head_contrib(prefix, entries[i0], depth).contains(x));
                lemma_contrib_found(prefix, entries, 0, i0, depth, x);
            },
            FsNode::File { .. } => {
                assert(false);
            },
        }
    }
}

/// `x` is the path of an `exe` file reachable from `(prefix, entries)`
/// through the directories `idxs` names — few enough of them to stay
/// within the scan's depth bound when starting at `depth`.
pub open spec fn found_witness(
    prefix: Seq<char>,
    entries: Seq<FsNode>,
    depth: int,
    idxs: Seq<int>,
    j: int,
    x: Seq<char>,
) -> bool {
    match subtree_at(prefix, entries, idxs) {
        Some(sub) => {
            &&& depth + idxs.len() <= 5
            &&& 0 <= j < sub.1.len()
            &&& is_exe_file(sub.1[j])
            &&& x == spec_join(sub.0, node_name(sub.1[j]))
        },
        None => false,
    }
}

/// Law: the bounded scan reports nothing from beyond its reach: every
/// reported path belongs to an `exe` file sitting at most `5 - depth`
/// directory levels below the scanned directory.
pub proof fn law_exe_found_only_within_depth(
    prefix: Seq<char>,
    entries: Seq<FsNode>,
    i: int,
    depth: int,
    x: Seq<char>,
)
    requires
        0 <= depth,
        spec_find_exes(prefix, entries, i, depth).contains(x),
    ensures
        exists|idxs: Seq<int>, j: int| #[trigger] found_witness(prefix, entries, depth, idxs, j, x),
    decreases 6 - depth, entries.len() - i,
{
    if depth > 5 || i < 0 || i >= entries.len() {
        assert(false);
    } else {
        lemma_find_exes_unfold(prefix, entries, i, depth);
        let h = head_contrib(prefix, entries[i], depth);
        let rest = spec_find_exes(prefix, entries, i + 1, depth);
        let k = choose|k: int| 0 <= k < (h + rest).len() && (h + rest)[k] == x;
        if k < h.len() {
            assert(h[k] == x);
            match entries[i] {
                FsNode::File { name } => {
                    let idxs = Seq::<int>::empty();
                    assert(subtree_at(prefix, entries, idxs) == Some((prefix, entries)));
                    assert(found_witness(prefix, entries, depth, idxs, i, x));
                },
                FsNode::Dir { name, children } => {
                    let sub_prefix = spec_join(prefix, name@);
                    assert(spec_find_exes(sub_prefix, children@, 0, depth + 1).contains(x));
                    law_exe_found_only_within_depth(sub_prefix, children@, 0, depth + 1, x);
                    let (idxs0, j0) = choose|idxs0: Seq<int>, j0: int|
                        #[trigger] found_witness(sub_prefix, children@, depth + 1, idxs0, j0, x);
                    let idxs = seq![i] + idxs0;
                    assert(idxs[0] == i);
                    assert(idxs.drop_first() =~= idxs0);
                    assert(subtree_at(prefix, entries, idxs) == subtree_at(
                        sub_prefix,
                        children@,
                        idxs0,
                    ));
                    assert(found_witness(prefix, entries, depth, idxs, j0, x));
                },
            }
        } else {
            assert(rest[k - h.len()] == x);
            assert(rest.contains(x));
            law_exe_found_only_within_depth(prefix, entries, i + 1, depth, x);
        }
    }
}

/// Law: what the bounded scan of a directory reports is exactly the set of
/// full paths of `exe` files at nesting depths 0 through 5 below it —
/// deeper ones are never reported, shallower ones never missed.
pub proof fn law_find_exes_characterization(prefix: Seq<char>, entries: Seq<FsNode>, x: Seq<char>)
    ensures
        spec_find_exes(prefix, entries, 0, 0).contains(x) <==> exists|idxs: Seq<int>, j: int|
            #[trigger] found_witness(prefix, entries, 0, idxs, j, x),
{
    if spec_find_exes(prefix, entries, 0, 0).contains(x) {
        law_exe_found_only_within_depth(prefix, entries, 0, 0, x);
    }
    if exists|idxs: Seq<int>, j: int| #[trigger] found_witness(prefix, entries, 0, idxs, j, x) {
        let (idxs, j) = choose|idxs: Seq<int>, j: int|
            #[trigger] found_witness(prefix, entries, 0, idxs, j, x);
        law_exe_within_depth_found(prefix, entries, idxs, j, 0);
    }
}

/// Law: the bounded scan collects nothing once the depth bound is passed:
/// whatever tree sits below a directory at nesting depth 6, no executable
/// of it is reported.
pub proof fn law_scan_stops_past_depth_bound(
    prefix: Seq<char>,
    entries: Seq<FsNode>,
    i: int,
    depth: int,
)
    requires
        depth > 5,
    ensures
        spec_find_exes(prefix, entries, i, depth) == Seq::<Seq<char>>::empty(),
{
}

/// Law: every reported game directory holds at least one executable:
/// children that yielded none are omitted from the scan's result.
pub proof fn law_scan_omits_empty_children(root: Seq<char>, entries: Seq<FsNode>, i: int)
    ensures
        forall|k: int|
            0 <= k < spec_scan(root, entries, i).len() ==> #[trigger] spec_scan(
                root,
                entries,
                i,
            )[k].1.len() > 0,
    decreases entries.len() - i,
{
    if 0 <= i < entries.len() {
        law_scan_omits_empty_children(root, entries, i + 1);
        let rest = spec_scan(root, entries, i + 1);
        match entries[i] {
            FsNode::Dir { name, children } => {
                let exes = spec_find_exes(spec_join(root, name@), children@, 0, 0);
                if exes.len() > 0 {
                    assert(forall|k: int|
                        1 <= k < spec_scan(root, entries, i).len() ==> spec_scan(
                            root,
                            entries,
                            i,
                        )[k] == rest[k - 1]);
                }
            },
            FsNode::File { .. } => {},
        }
    }
}

} // verus!
