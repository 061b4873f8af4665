//! Keeping the input registries up to date while serving: a changed file
//! replaces the registry entry with the same path (or is added), a removed
//! file's entry is dropped.

use vstd::prelude::*;
use crate::db::{
    DataFile, DataRegistry, SassFile, SassRegistry, SourceFile, SourceRegistry, StaticFile,
    StaticRegistry, TemplateFile, TemplateRegistry,
};
use crate::text::{eq_chars, str_chars};

verus! {

/// An input file, known by its path relative to its directory.
pub trait PathKeyed: Sized {
    spec fn path_view(&self) -> Seq<char>;

    fn path_text(&self) -> (r: &str)
        ensures
            r@ == self.path_view(),
    ;
}

impl PathKeyed for SourceFile {
    open spec fn path_view(&self) -> Seq<char> {
        self.path.0@
    }

    fn path_text(&self) -> (r: &str) {
        self.path.0.as_str()
    }
}

impl PathKeyed for TemplateFile {
    open spec fn path_view(&self) -> Seq<char> {
        self.path.0@
    }

    fn path_text(&self) -> (r: &str) {
        self.path.0.as_str()
    }
}

impl PathKeyed for SassFile {
    open spec fn path_view(&self) -> Seq<char> {
        self.path.0@
    }

    fn path_text(&self) -> (r: &str) {
        self.path.0.as_str()
    }
}

impl PathKeyed for StaticFile {
    open spec fn path_view(&self) -> Seq<char> {
        self.path.0@
    }

    fn path_text(&self) -> (r: &str) {
        self.path.0.as_str()
    }
}

impl PathKeyed for DataFile {
    open spec fn path_view(&self) -> Seq<char> {
        self.path.0@
    }

    fn path_text(&self) -> (r: &str) {
        self.path.0.as_str()
    }
}

/// Index of the first entry with path `p`, if any.
pub open spec fn position_of<T: PathKeyed>(s: Seq<T>, p: Seq<char>) -> Option<int> {
    if exists|i: int| 0 <= i < s.len() && s[i].path_view() == p {
        Some(
            choose|i: int|
                0 <= i < s.len() && s[i].path_view() == p && forall|j: int|
                    0 <= j < i ==> s[j].path_view() != p,
        )
    } else {
        None
    }
}

proof fn lemma_position_found<T: PathKeyed>(s: Seq<T>, p: Seq<char>, i: int)
    requires
        0 <= i < s.len(),
        s[i].path_view() == p,
        forall|j: int| 0 <= j < i ==> s[j].path_view() != p,
    ensures
        position_of(s, p) == Some(i),
{
    let k = choose|k: int|
        0 <= k < s.len() && s[k].path_view() == p && forall|j: int|
            0 <= j < k ==> s[j].path_view() != p;
    assert(0 <= i < s.len() && s[i].path_view() == p && forall|j: int|
        0 <= j < i ==> s[j].path_view() != p);
    if k < i {
        assert(s[k].path_view() != p);
    } else if i < k {
        assert(s[i].path_view() != p);
    }
}

/// Finds the first entry with path `p`.
fn find_path<T: PathKeyed>(files: &Vec<T>, p: &str) -> (r: Option<usize>)
    ensures
        match r {
            Some(i) => position_of(files@, p@) == Some(i as int) && i < files@.len(),
            None => position_of(files@, p@) is None,
        },
{
    let key = str_chars(p);
    let mut i: usize = 0;
    while i < files.len()
        invariant
            i <= files.len(),
            key@ == p@,
            forall|j: int| 0 <= j < i ==> files@[j].path_view() != p@,
        decreases files.len() - i,
    {
        let k = str_chars(files[i].path_text());
        if eq_chars(&k, &key) {
            proof {
                lemma_position_found(files@, p@, i as int);
            }
            return Some(i);
        }
        i += 1;
    }
    None
}

/// The entries after `file` is stored: it replaces the first entry with
/// its path, or is added at the end.
pub open spec fn after_upsert<T: PathKeyed>(s: Seq<T>, file: T) -> Seq<T> {
    match position_of(s, file.path_view()) {
        Some(i) => s.update(i, file),
        None => s.push(file),
    }
}

/// The entries after the file at `p` is removed: the first entry with that
/// path is dropped, if there is one.
pub open spec fn after_remove<T: PathKeyed>(s: Seq<T>, p: Seq<char>) -> Seq<T> {
    match position_of(s, p) {
        Some(i) => s.remove(i),
        None => s,
    }
}

/// Stores `file`: replaces the entry with the same path, or adds it.
/// Returns whether it was added.
pub fn upsert_by_path<T: PathKeyed>(files: &mut Vec<T>, file: T) -> (added: bool)
    ensures
        final(files)@ == after_upsert(old(files)@, file),
        added == position_of(old(files)@, file.path_view()) is None,
{
    let pos = find_path(files, file.path_text());
    match pos {
        Some(i) => {
            files.set(i, file);
            false
        },
        None => {
            files.push(file);
            true
        },
    }
}

/// Removes the entry with path `p`. Returns whether there was one.
pub fn remove_by_path<T: PathKeyed>(files: &mut Vec<T>, p: &str) -> (removed: bool)
    ensures
        final(files)@ == after_remove(old(files)@, p@),
        removed == position_of(old(files)@, p@) is Some,
{
    match find_path(files, p) {
        Some(i) => {
            files.remove(i);
            true
        },
        None => false,
    }
}

proof fn lemma_position_props<T: PathKeyed>(s: Seq<T>, p: Seq<char>)
    ensures
        match position_of(s, p) {
            Some(i) => 0 <= i < s.len() && s[i].path_view() == p && forall|j: int|
                0 <= j < i ==> s[j].path_view() != p,
            None => forall|j: int| 0 <= j < s.len() ==> s[j].path_view() != p,
        },
{
    if exists|i: int| 0 <= i < s.len() && s[i].path_view() == p {
        let w = choose|i: int| 0 <= i < s.len() && s[i].path_view() == p;
        lemma_first_position(s, p, w);
    }
}

proof fn lemma_first_position<T: PathKeyed>(s: Seq<T>, p: Seq<char>, w: int)
    requires
        0 <= w < s.len(),
        s[w].path_view() == p,
    ensures
        exists|k: int|
            0 <= k < s.len() && s[k].path_view() == p && forall|j: int|
                0 <= j < k ==> s[j].path_view() != p,
    decreases w,
{
    if exists|j: int| 0 <= j < w && s[j].path_view() == p {
        let j = choose|j: int| 0 <= j < w && s[j].path_view() == p;
        lemma_first_position(s, p, j);
    } else {
        assert(0 <= w < s.len() && s[w].path_view() == p && forall|j: int|
            0 <= j < w ==> s[j].path_view() != p);
    }
}

/// After a file is stored, looking up its path finds exactly that file.
pub proof fn lemma_upsert_then_lookup<T: PathKeyed>(s: Seq<T>, file: T)
    ensures
        position_of(after_upsert(s, file), file.path_view()) is Some,
        after_upsert(s, file)[position_of(after_upsert(s, file), file.path_view()).unwrap()]
            == file,
{
    let p = file.path_view();
    lemma_position_props(s, p);
    match position_of(s, p) {
        Some(i) => {
            let t = s.update(i, file);
            assert forall|j: int| 0 <= j < i implies t[j].path_view() != p by {
                assert(t[j] == s[j]);
            }
            lemma_position_found(t, p, i);
        },
        None => {
            let t = s.push(file);
            assert forall|j: int| 0 <= j < s.len() implies t[j].path_view() != p by {
                assert(t[j] == s[j]);
            }
            lemma_position_found(t, p, s.len() as int);
        },
    }
}

/// Adding a file for a new path and removing it again leaves the entries
/// as they were.
pub proof fn lemma_add_then_remove<T: PathKeyed>(s: Seq<T>, file: T)
    requires
        position_of(s, file.path_view()) is None,
    ensures
        after_remove(after_upsert(s, file), file.path_view()) == s,
{
    let p = file.path_view();
    lemma_position_props(s, p);
    let t = s.push(file);
    assert forall|j: int| 0 <= j < s.len() implies t[j].path_view() != p by {
        assert(t[j] == s[j]);
    }
    lemma_position_found(t, p, s.len() as int);
    assert(t.remove(s.len() as int) =~= s);
}

impl SourceRegistry {
    /// Stores a changed content file; returns whether it is new.
    pub fn upsert(&mut self, file: SourceFile) -> (added: bool)
        ensures
            final(self).sources@ == after_upsert(old(self).sources@, file),
            added == position_of(old(self).sources@, file.path_view()) is None,
    {
        upsert_by_path(&mut self.sources, file)
    }

    /// Drops a removed content file; returns whether it was there.
    pub fn remove(&mut self, path: &str) -> (removed: bool)
        ensures
            final(self).sources@ == after_remove(old(self).sources@, path@),
            removed == position_of(old(self).sources@, path@) is Some,
    {
        remove_by_path(&mut self.sources, path)
    }
}

impl TemplateRegistry {
    /// Stores a changed template; returns whether it is new.
    pub fn upsert(&mut self, file: TemplateFile) -> (added: bool)
        ensures
            final(self).templates@ == after_upsert(old(self).templates@, file),
            added == position_of(old(self).templates@, file.path_view()) is None,
    {
        upsert_by_path(&mut self.templates, file)
    }

    /// Drops a removed template; returns whether it was there.
    pub fn remove(&mut self, path: &str) -> (removed: bool)
        ensures
            final(self).templates@ == after_remove(old(self).templates@, path@),
            removed == position_of(old(self).templates@, path@) is Some,
    {
        remove_by_path(&mut self.templates, path)
    }
}

impl SassRegistry {
    /// Stores a changed stylesheet; returns whether it is new.
    pub fn upsert(&mut self, file: SassFile) -> (added: bool)
        ensures
            final(self).files@ == after_upsert(old(self).files@, file),
            added == position_of(old(self).files@, file.path_view()) is None,
    {
        upsert_by_path(&mut self.files, file)
    }

    /// Drops a removed stylesheet; returns whether it was there.
    pub fn remove(&mut self, path: &str) -> (removed: bool)
        ensures
            final(self).files@ == after_remove(old(self).files@, path@),
            removed == position_of(old(self).files@, path@) is Some,
    {
        remove_by_path(&mut self.files, path)
    }
}

impl StaticRegistry {
    /// Stores a changed static file; returns whether it is new. An empty
    /// file (a transient state during version control operations) is left
    /// out and nothing changes.
    pub fn upsert(&mut self, file: StaticFile) -> (added: bool)
        ensures
            file.content@.len() == 0 ==> final(self).files@ == old(self).files@ && !added,
            file.content@.len() > 0 ==> final(self).files@ == after_upsert(old(self).files@, file)
                && added == position_of(old(self).files@, file.path_view()) is None,
    {
        if file.content.len() == 0 {
            return false;
        }
        upsert_by_path(&mut self.files, file)
    }

    /// Drops a removed static file; returns whether it was there.
    pub fn remove(&mut self, path: &str) -> (removed: bool)
        ensures
            final(self).files@ == after_remove(old(self).files@, path@),
            removed == position_of(old(self).files@, path@) is Some,
    {
        remove_by_path(&mut self.files, path)
    }
}

impl DataRegistry {
    /// Stores a changed data file; returns whether it is new.
    pub fn upsert(&mut self, file: DataFile) -> (added: bool)
        ensures
            final(self).files@ == after_upsert(old(self).files@, file),
            added == position_of(old(self).files@, file.path_view()) is None,
    {
        upsert_by_path(&mut self.files, file)
    }

    /// Drops a removed data file; returns whether it was there.
    pub fn remove(&mut self, path: &str) -> (removed: bool)
        ensures
            final(self).files@ == after_remove(old(self).files@, path@),
            removed == position_of(old(self).files@, path@) is Some,
    {
        remove_by_path(&mut self.files, path)
    }
}

} // verus!
