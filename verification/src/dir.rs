//! A directory: an interior tree node holding an ordered run of entries.

use vstd::prelude::*;

verus! {

use vstd::string::StringSliceAdditionalSpecFns;
use crate::compress::Compression;
use crate::dir_entry::DirEntry;
use crate::file::File;

/// A directory of the tree: its logical path and its child entries, both
/// fixed at construction.  The entry order is the construction order; it is
/// the iteration and search order, not a sort order.
pub struct Dir<C: Compression> {
    path: String,
    entries: Vec<DirEntry<C>>,
}

/// The entry that a depth-first search of `s` finds for the full path `p`:
/// the first entry in stored order whose own path equals `p` exactly or,
/// before moving on past a directory, the first such hit anywhere inside
/// it.  `None` where no entry of the subtree has path `p`.
pub open spec fn find_in<C: Compression>(s: Seq<DirEntry<C>>, p: Seq<char>) -> Option<
    DirEntry<C>,
>
    decreases s,
{
    if s.len() == 0 {
        None
    } else if s[0].spec_path() == p {
        Some(s[0])
    } else {
        let deeper = find_under(s[0], p);
        if deeper is Some {
            deeper
        } else {
            find_in(s.subrange(1, s.len() as int), p)
        }
    }
}

/// The entry found for `p` strictly inside `e`: inside its entries where
/// `e` is a directory, and nowhere for a file.
pub open spec fn find_under<C: Compression>(e: DirEntry<C>, p: Seq<char>) -> Option<DirEntry<C>>
    decreases e,
{
    if e is Dir {
        find_in(e->Dir_0.spec_entries(), p)
    } else {
        None
    }
}

/// Every full path stored in the subtree rooted at the entries `s`.
pub open spec fn paths_in<C: Compression>(s: Seq<DirEntry<C>>) -> Set<Seq<char>>
    decreases s,
{
    if s.len() == 0 {
        Set::empty()
    } else {
        paths_under(s[0]).insert(s[0].spec_path()).union(paths_in(s.subrange(1, s.len() as int)))
    }
}

/// Every full path stored strictly inside `e`.
pub open spec fn paths_under<C: Compression>(e: DirEntry<C>) -> Set<Seq<char>>
    decreases e,
{
    if e is Dir {
        paths_in(e->Dir_0.spec_entries())
    } else {
        Set::empty()
    }
}

/// Lookup is total over the stored paths: a depth-first search of `s` finds
/// an entry for `p` exactly when some entry of the subtree has path `p`,
/// and what it finds has path `p`.
pub proof fn lemma_find_in_paths<C: Compression>(s: Seq<DirEntry<C>>, p: Seq<char>)
    ensures
        find_in(s, p) is Some <==> paths_in(s).contains(p),
        find_in(s, p) matches Some(e) ==> e.spec_path() == p,
    decreases s,
{
    if s.len() > 0 {
        lemma_find_under_paths(s[0], p);
        lemma_find_in_paths(s.subrange(1, s.len() as int), p);
    }
}

/// The part of [`lemma_find_in_paths`] for the subtree strictly inside one
/// entry.
pub proof fn lemma_find_under_paths<C: Compression>(e: DirEntry<C>, p: Seq<char>)
    ensures
        find_under(e, p) is Some <==> paths_under(e).contains(p),
        find_under(e, p) matches Some(x) ==> x.spec_path() == p,
    decreases e,
{
    if e is Dir {
        lemma_find_in_paths(e->Dir_0.spec_entries(), p);
    }
}

/// One step of a search along `s`: what the search of the suffix from `i`
/// finds, written in terms of the entry at `i` and the suffix from `i + 1`.
proof fn lemma_find_in_shift<C: Compression>(s: Seq<DirEntry<C>>, p: Seq<char>, i: int)
    requires
        0 <= i < s.len(),
    ensures
        find_in(s.subrange(i, s.len() as int), p) == (if s[i].spec_path() == p {
            Some(s[i])
        } else if find_under(s[i], p) is Some {
            find_under(s[i], p)
        } else {
            find_in(s.subrange(i + 1, s.len() as int), p)
        }),
{
    let t = s.subrange(i, s.len() as int);
    assert(t[0] == s[i]);
    assert(t.subrange(1, t.len() as int) =~= s.subrange(i + 1, s.len() as int));
}

impl<C: Compression> Dir<C> {
    /// The directory's full logical path, relative to the tree root.
    pub closed spec fn spec_path(self) -> Seq<char> {
        self.path@
    }

    /// The directory's child entries, in stored order.
    pub closed spec fn spec_entries(self) -> Seq<DirEntry<C>> {
        self.entries@
    }

    /// What a search of this directory finds for the full path `p`.
    pub open spec fn spec_find(self, p: Seq<char>) -> Option<DirEntry<C>> {
        find_in(self.spec_entries(), p)
    }

    /// Every full path stored in this directory's subtree.
    pub open spec fn spec_paths(self) -> Set<Seq<char>> {
        paths_in(self.spec_entries())
    }

    /// Create a new [`Dir`] from its logical path and its child entries.
    pub fn new(path: String, entries: Vec<DirEntry<C>>) -> (r: Dir<C>)
        ensures
            r.spec_path() == path@,
            r.spec_entries() == entries@,
    {
        Dir { path, entries }
    }

    /// The full path for this [`Dir`], relative to the tree root.
    pub fn path(&self) -> (r: &str)
        ensures
            r@ == self.spec_path(),
    {
        self.path.as_str()
    }

    /// The entries within this [`Dir`], in stored order.
    pub fn entries(&self) -> (r: &[DirEntry<C>])
        ensures
            r@ == self.spec_entries(),
    {
        self.entries.as_slice()
    }

    /// Recursively search this directory for the entry whose full path is
    /// exactly `path`: each entry in stored order is tried first, then the
    /// inside of each sub-directory, and the first hit wins.
    pub fn get_entry(&self, path: &str) -> (r: Option<&DirEntry<C>>)
        ensures
            match r {
                Some(e) => self.spec_find(path@) == Some(*e),
                None => self.spec_find(path@) is None,
            },
            r is Some <==> self.spec_paths().contains(path@),
            r matches Some(e) ==> e.spec_path() == path@,
        decreases self,
    {
        let n = self.entries.len();
        proof {
            lemma_find_in_paths(self.entries@, path@);
            assert(self.entries@.subrange(0, n as int) =~= self.entries@);
        }
        let mut i: usize = 0;
        while i < n
            invariant
                n == self.entries@.len(),
                i <= n,
                find_in(self.entries@, path@) == find_in(
                    self.entries@.subrange(i as int, n as int),
                    path@,
                ),
            decreases n - i,
        {
            proof {
                lemma_find_in_paths(self.entries@, path@);
                lemma_find_in_shift(self.entries@, path@, i as int);
            }
            let entry = &self.entries[i];
            if str_eq(entry.path(), path) {
                return Some(entry);
            }
            if let DirEntry::Dir(d) = entry {
                proof {
                    assert(decreases_to!(self.entries@ => self.entries@[i as int]));
                }
                if let Some(nested) = d.get_entry(path) {
                    return Some(nested);
                }
            }
            i += 1;
        }
        None
    }

    /// Look up a file by its full path: present exactly when the entry
    /// stored at `path` exists and is a file.
    pub fn get_file(&self, path: &str) -> (r: Option<&File<C>>)
        ensures
            match r {
                Some(f) => self.spec_find(path@) == Some(DirEntry::File(*f)),
                None => !(self.spec_find(path@) matches Some(e) && e is File),
            },
    {
        match self.get_entry(path) {
            Some(e) => e.as_file(),
            None => None,
        }
    }

    /// Look up a sub-directory by its full path: present exactly when the
    /// entry stored at `path` exists and is a directory.
    pub fn get_dir(&self, path: &str) -> (r: Option<&Dir<C>>)
        ensures
            match r {
                Some(d) => self.spec_find(path@) == Some(DirEntry::Dir(*d)),
                None => !(self.spec_find(path@) matches Some(e) && e is Dir),
            },
    {
        match self.get_entry(path) {
            Some(e) => e.as_dir(),
            None => None,
        }
    }

    /// Does this directory's subtree store an entry with full path `path`?
    pub fn contains(&self, path: &str) -> (r: bool)
        ensures
            r == (self.spec_find(path@) is Some),
            r == self.spec_paths().contains(path@),
    {
        proof {
            lemma_find_in_paths(self.entries@, path@);
        }
        match self.get_entry(path) {
            Some(_) => true,
            None => false,
        }
    }
}

/// The files among the entries `s`, in stored order.
pub open spec fn files_of<C: Compression>(s: Seq<DirEntry<C>>) -> Seq<File<C>>
    decreases s,
{
    if s.len() == 0 {
        Seq::empty()
    } else {
        files_of(s.subrange(0, s.len() - 1)) + (if s.last() is File {
            seq![s.last()->File_0]
        } else {
            Seq::empty()
        })
    }
}

/// The directories among the entries `s`, in stored order.
pub open spec fn dirs_of<C: Compression>(s: Seq<DirEntry<C>>) -> Seq<Dir<C>>
    decreases s,
{
    if s.len() == 0 {
        Seq::empty()
    } else {
        dirs_of(s.subrange(0, s.len() - 1)) + (if s.last() is Dir {
            seq![s.last()->Dir_0]
        } else {
            Seq::empty()
        })
    }
}

/// One step of the filtered runs along `s`: extending the prefix through
/// `i` by one entry.
proof fn lemma_filtered_extend<C: Compression>(s: Seq<DirEntry<C>>, i: int)
    requires
        0 <= i < s.len(),
    ensures
        files_of(s.subrange(0, i + 1)) == files_of(s.subrange(0, i)) + (if s[i] is File {
            seq![s[i]->File_0]
        } else {
            Seq::empty()
        }),
        dirs_of(s.subrange(0, i + 1)) == dirs_of(s.subrange(0, i)) + (if s[i] is Dir {
            seq![s[i]->Dir_0]
        } else {
            Seq::empty()
        }),
{
    let t = s.subrange(0, i + 1);
    assert(t.subrange(0, i) =~= s.subrange(0, i));
    assert(t.last() == s[i]);
}

impl<C: Compression> Dir<C> {
    /// The files directly in this directory, in stored entry order: a fresh
    /// list of views over the existing entries.
    pub fn files<'a>(&'a self) -> (r: Vec<&'a File<C>>)
        ensures
            r@.map_values(|f: &File<C>| *f) == files_of(self.spec_entries()),
    {
        let mut r: Vec<&'a File<C>> = Vec::new();
        let n = self.entries.len();
        proof {
            assert(r@.map_values(|f: &File<C>| *f) =~= files_of(
                self.entries@.subrange(0, 0),
            ));
        }
        let mut i: usize = 0;
        while i < n
            invariant
                n == self.entries@.len(),
                i <= n,
                r@.map_values(|f: &File<C>| *f) == files_of(self.entries@.subrange(0, i as int)),
            decreases n - i,
        {
            proof {
                lemma_filtered_extend(self.entries@, i as int);
            }
            match &self.entries[i] {
                DirEntry::File(f) => {
                    r.push(f);
                    proof {
                        assert(r@.map_values(|f: &File<C>| *f) =~= files_of(
                            self.entries@.subrange(0, i + 1),
                        ));
                    }
                },
                DirEntry::Dir(_) => {
                    proof {
                        assert(r@.map_values(|f: &File<C>| *f) =~= files_of(
                            self.entries@.subrange(0, i + 1),
                        ));
                    }
                },
            }
            i += 1;
        }
        proof {
            assert(self.entries@.subrange(0, n as int) =~= self.entries@);
        }
        r
    }

    /// The sub-directories directly in this directory, in stored entry
    /// order: a fresh list of views over the existing entries.
    pub fn dirs<'a>(&'a self) -> (r: Vec<&'a Dir<C>>)
        ensures
            r@.map_values(|d: &Dir<C>| *d) == dirs_of(self.spec_entries()),
    {
        let mut r: Vec<&'a Dir<C>> = Vec::new();
        let n = self.entries.len();
        proof {
            assert(r@.map_values(|d: &Dir<C>| *d) =~= dirs_of(self.entries@.subrange(0, 0)));
        }
        let mut i: usize = 0;
        while i < n
            invariant
                n == self.entries@.len(),
                i <= n,
                r@.map_values(|d: &Dir<C>| *d) == dirs_of(self.entries@.subrange(0, i as int)),
            decreases n - i,
        {
            proof {
                lemma_filtered_extend(self.entries@, i as int);
            }
            match &self.entries[i] {
                DirEntry::Dir(d) => {
                    r.push(d);
                    proof {
                        assert(r@.map_values(|d: &Dir<C>| *d) =~= dirs_of(
                            self.entries@.subrange(0, i + 1),
                        ));
                    }
                },
                DirEntry::File(_) => {
                    proof {
                        assert(r@.map_values(|d: &Dir<C>| *d) =~= dirs_of(
                            self.entries@.subrange(0, i + 1),
                        ));
                    }
                },
            }
            i += 1;
        }
        proof {
            assert(self.entries@.subrange(0, n as int) =~= self.entries@);
        }
        r
    }
}

/// One filesystem action of an extraction plan.  Paths are the entries'
/// logical paths; an extractor resolves every one of them against its
/// extraction root, never against the directory it is currently walking.
pub enum FsOp {
    /// Create this directory, with any missing ancestors.
    MakeDir { path: String },
    /// Write these bytes to this file.
    WriteFile { path: String, contents: Vec<u8> },
}

/// The ghost form of one filesystem action.
pub enum FsAction {
    /// Create this directory, with any missing ancestors.
    MakeDir { path: Seq<char> },
    /// Write these bytes to this file.
    WriteFile { path: Seq<char>, contents: Seq<u8> },
}

impl View for FsOp {
    type V = FsAction;

    open spec fn view(&self) -> FsAction {
        match self {
            FsOp::MakeDir { path } => FsAction::MakeDir { path: path@ },
            FsOp::WriteFile { path, contents } => FsAction::WriteFile {
                path: path@,
                contents: contents@,
            },
        }
    }
}

/// Concatenation of two optional runs of actions, failing if either fails.
pub open spec fn opt_cat(a: Option<Seq<FsAction>>, b: Option<Seq<FsAction>>) -> Option<
    Seq<FsAction>,
> {
    match (a, b) {
        (Some(x), Some(y)) => Some(x + y),
        _ => None,
    }
}

/// The actions, in order, that extract the entries `s`: depth-first in
/// stored order, each directory's creation before the actions for its own
/// entries.  `None` where some file's stored bytes do not decode.
pub open spec fn plan_for<C: Compression>(s: Seq<DirEntry<C>>) -> Option<Seq<FsAction>>
    decreases s,
{
    if s.len() == 0 {
        Some(Seq::empty())
    } else {
        opt_cat(plan_for(s.subrange(0, s.len() - 1)), plan_under(s.last()))
    }
}

/// The actions that extract the single entry `e`.
pub open spec fn plan_under<C: Compression>(e: DirEntry<C>) -> Option<Seq<FsAction>>
    decreases e,
{
    if e is Dir {
        let d = e->Dir_0;
        opt_cat(
            Some(seq![FsAction::MakeDir { path: d.spec_path() }]),
            plan_for(d.spec_entries()),
        )
    } else {
        let f = e->File_0;
        match f.spec_contents() {
            Some(b) => Some(seq![FsAction::WriteFile { path: f.spec_path(), contents: b }]),
            None => None,
        }
    }
}

/// One step of a plan along `s`: the plan of the prefix through `i + 1`,
/// written in terms of the prefix through `i` and the entry at `i`.
proof fn lemma_plan_for_extend<C: Compression>(s: Seq<DirEntry<C>>, i: int)
    requires
        0 <= i < s.len(),
    ensures
        plan_for(s.subrange(0, i + 1)) == opt_cat(plan_for(s.subrange(0, i)), plan_under(s[i])),
{
    let t = s.subrange(0, i + 1);
    assert(t.subrange(0, i) =~= s.subrange(0, i));
    assert(t.last() == s[i]);
}

/// A failing prefix fails the whole plan.
proof fn lemma_plan_for_none<C: Compression>(s: Seq<DirEntry<C>>, i: int)
    requires
        0 <= i <= s.len(),
        plan_for(s.subrange(0, i)) is None,
    ensures
        plan_for(s) is None,
    decreases s.len() - i,
{
    if i < s.len() {
        lemma_plan_for_extend(s, i);
        lemma_plan_for_none(s, i + 1);
    } else {
        assert(s.subrange(0, i) =~= s);
    }
}

impl<C: Compression> Dir<C> {
    /// The sequence of filesystem actions that extracts this directory's
    /// entries under an extraction root: depth-first in stored order, every
    /// directory created before anything inside it is written.  `None`
    /// where some file's stored bytes do not decode, in which case nothing
    /// should be written at all.
    ///
    /// An extractor that performs these actions in order, resolving each
    /// path against one root, materialises the subtree; if an action fails
    /// it should stop at once, leaving whatever is already on disk.
    pub fn extract_plan(&self) -> (r: Option<Vec<FsOp>>)
        ensures
            match r {
                Some(ops) => plan_for(self.spec_entries()) == Some(
                    ops@.map_values(|op: FsOp| op@),
                ),
                None => plan_for(self.spec_entries()) is None,
            },
    {
        let mut ops: Vec<FsOp> = Vec::new();
        if self.push_plan(&mut ops) {
            proof {
                let acts = plan_for(self.spec_entries())->Some_0;
                assert(ops@.map_values(|op: FsOp| op@) =~= Seq::<FsOp>::empty().map_values(
                    |op: FsOp| op@,
                ) + acts);
                assert(Seq::<FsOp>::empty().map_values(|op: FsOp| op@) + acts =~= acts);
            }
            Some(ops)
        } else {
            None
        }
    }

    /// Append to `ops` the actions that extract this directory's entries,
    /// reporting failure where some file's stored bytes do not decode; on
    /// failure `ops` may hold part of the appended run.
    fn push_plan(&self, ops: &mut Vec<FsOp>) -> (ok: bool)
        ensures
            ok ==> (plan_for(self.spec_entries()) matches Some(acts)
                && final(ops)@.map_values(|op: FsOp| op@) == old(ops)@.map_values(|op: FsOp| op@)
                + acts),
            !ok ==> plan_for(self.spec_entries()) is None,
        decreases self,
    {
        let ghost base = ops@.map_values(|op: FsOp| op@);
        let n = self.entries.len();
        proof {
            assert(plan_for(self.entries@.subrange(0, 0)) == Some(Seq::<FsAction>::empty()));
            assert(base + Seq::<FsAction>::empty() =~= base);
        }
        let mut i: usize = 0;
        while i < n
            invariant
                n == self.entries@.len(),
                i <= n,
                plan_for(self.entries@.subrange(0, i as int)) matches Some(acts) && ops@.map_values(
                    |op: FsOp| op@,
                ) == base + acts,
            decreases n - i,
        {
            proof {
                lemma_plan_for_extend(self.entries@, i as int);
            }
            let ghost acts = plan_for(self.entries@.subrange(0, i as int))->Some_0;
            match &self.entries[i] {
                DirEntry::Dir(d) => {
                    ops.push(FsOp::MakeDir { path: d.path().to_owned() });
                    proof {
                        assert(ops@.map_values(|op: FsOp| op@) =~= (base + acts) + seq![
                            FsAction::MakeDir { path: d.spec_path() },
                        ]);
                        assert(decreases_to!(self.entries@ => self.entries@[i as int]));
                    }
                    if !d.push_plan(ops) {
                        proof {
                            lemma_plan_for_none(self.entries@, i + 1);
                        }
                        return false;
                    }
                    proof {
                        let sub = plan_for(d.spec_entries())->Some_0;
                        assert(plan_under(self.entries@[i as int]) == Some(
                            seq![FsAction::MakeDir { path: d.spec_path() }] + sub,
                        ));
                        assert(ops@.map_values(|op: FsOp| op@) =~= base + (acts + (seq![
                            FsAction::MakeDir { path: d.spec_path() },
                        ] + sub)));
                    }
                },
                DirEntry::File(f) => {
                    match f.contents() {
                        Some(b) => {
                            ops.push(
                                FsOp::WriteFile {
                                    path: f.path().to_owned(),
                                    contents: vstd::slice::slice_to_vec(b),
                                },
                            );
                            proof {
                                assert(f.spec_contents() == Some(b@));
                                let act = FsAction::WriteFile {
                                    path: f.spec_path(),
                                    contents: f.spec_contents()->Some_0,
                                };
                                assert(ops@.last()@ == act);
                                assert(ops@.map_values(|op: FsOp| op@) =~= (base + acts) + seq![
                                    act,
                                ]);
                                assert((base + acts) + seq![act] =~= base + (acts + seq![act]));
                            }
                        },
                        None => {
                            proof {
                                lemma_plan_for_none(self.entries@, i + 1);
                            }
                            return false;
                        },
                    }
                },
            }
            i += 1;
        }
        proof {
            assert(self.entries@.subrange(0, n as int) =~= self.entries@);
        }
        true
    }
}

/// String equality, decided byte for byte on the UTF-8 encodings.
fn str_eq(a: &str, b: &str) -> (r: bool)
    ensures
        r == (a@ == b@),
{
    proof {
        vstd::utf8::encode_utf8_decode_utf8(a@);
        vstd::utf8::encode_utf8_decode_utf8(b@);
    }
    let ab = a.as_bytes();
    let bb = b.as_bytes();
    if ab.len() != bb.len() {
        return false;
    }
    let n = ab.len();
    let mut i: usize = 0;
    while i < n
        invariant
            n == ab@.len() == bb@.len(),
            i <= n,
            forall|k: int| 0 <= k < i ==> ab@[k] == bb@[k],
            ab@ == a.spec_bytes() && bb@ == b.spec_bytes(),
        decreases n - i,
    {
        if ab[i] != bb[i] {
            proof {
                assert(a.spec_bytes()[i as int] != b.spec_bytes()[i as int]);
            }
            return false;
        }
        i += 1;
    }
    proof {
        assert(ab@ =~= bb@);
    }
    true
}

} // verus!
