//! Plain-data models of the two stores the tool moves bytes between: a
//! filesystem fragment (paths to file contents and modification times) and a
//! commit snapshot (names to file contents, as version control records them).
//!
//! Both are association lists with unique keys, viewed as maps.

use vstd::prelude::*;

verus! {

/// One file's modelled state: its bytes and its modification time, in
/// seconds since some fixed epoch.
#[derive(Clone, Debug)]
pub struct FileData {
    pub content: Vec<u8>,
    pub mtime: u64,
}

/// Mathematical value of a `FileData`.
pub struct FileDataView {
    pub content: Seq<u8>,
    pub mtime: u64,
}

impl View for FileData {
    type V = FileDataView;

    open spec fn view(&self) -> FileDataView {
        FileDataView { content: self.content@, mtime: self.mtime }
    }
}

/// One named file of a filesystem fragment.
#[derive(Clone, Debug)]
pub struct FsEntry {
    pub path: String,
    pub data: FileData,
}

/// A fragment of the filesystem: the files the tool reads and writes, keyed
/// by path. Paths are unique; the view is a map from path to file state.
#[derive(Clone, Debug)]
pub struct FileSystem {
    pub entries: Vec<FsEntry>,
}

/// Map denoted by a sequence of filesystem entries; later entries win.
pub open spec fn fs_map(s: Seq<FsEntry>) -> Map<Seq<char>, FileDataView>
    decreases s.len(),
{
    if s.len() == 0 {
        Map::empty()
    } else {
        fs_map(s.drop_last()).insert(s.last().path@, s.last().data@)
    }
}

/// No two entries share a path.
pub open spec fn fs_paths_unique(s: Seq<FsEntry>) -> bool {
    forall|i: int, j: int| 0 <= i < j < s.len() ==> s[i].path@ != s[j].path@
}

impl View for FileSystem {
    type V = Map<Seq<char>, FileDataView>;

    open spec fn view(&self) -> Map<Seq<char>, FileDataView> {
        fs_map(self.entries@)
    }
}

pub proof fn lemma_fs_map_dom(s: Seq<FsEntry>, k: Seq<char>)
    ensures
        fs_map(s).contains_key(k) <==> exists|i: int| 0 <= i < s.len() && s[i].path@ == k,
    decreases s.len(),
{
    if s.len() > 0 {
        lemma_fs_map_dom(s.drop_last(), k);
        if s.last().path@ == k {
            assert(s[s.len() - 1].path@ == k);
        } else if exists|i: int| 0 <= i < s.len() - 1 && s.drop_last()[i].path@ == k {
            let i = choose|i: int| 0 <= i < s.len() - 1 && s.drop_last()[i].path@ == k;
            assert(s[i].path@ == k);
        } else if exists|i: int| 0 <= i < s.len() && s[i].path@ == k {
            let i = choose|i: int| 0 <= i < s.len() && s[i].path@ == k;
            if i < s.len() - 1 {
                assert(s.drop_last()[i].path@ == k);
            }
        }
    }
}

pub proof fn lemma_fs_map_index(s: Seq<FsEntry>, i: int)
    requires
        fs_paths_unique(s),
        0 <= i < s.len(),
    ensures
        fs_map(s).contains_key(s[i].path@),
        fs_map(s)[s[i].path@] == s[i].data@,
    decreases s.len(),
{
    if i == s.len() - 1 {
        lemma_fs_map_dom(s, s[i].path@);
    } else {
        assert(fs_paths_unique(s.drop_last()));
        assert(s.drop_last()[i] == s[i]);
        lemma_fs_map_index(s.drop_last(), i);
        assert(s[i].path@ != s.last().path@);
    }
}

pub proof fn lemma_fs_map_update(s: Seq<FsEntry>, i: int, e: FsEntry)
    requires
        fs_paths_unique(s),
        0 <= i < s.len(),
        e.path@ == s[i].path@,
    ensures
        fs_paths_unique(s.update(i, e)),
        fs_map(s.update(i, e)) == fs_map(s).insert(e.path@, e.data@),
    decreases s.len(),
{
    let su = s.update(i, e);
    assert(fs_paths_unique(su));
    if i == s.len() - 1 {
        assert(su.drop_last() =~= s.drop_last());
        assert(fs_map(su) =~= fs_map(s).insert(e.path@, e.data@));
    } else {
        assert(su.drop_last() =~= s.drop_last().update(i, e));
        assert(fs_paths_unique(s.drop_last()));
        assert(s.drop_last()[i] == s[i]);
        lemma_fs_map_update(s.drop_last(), i, e);
        assert(su.last() == s.last());
        assert(e.path@ != s.last().path@);
        assert(fs_map(su) =~= fs_map(s).insert(e.path@, e.data@));
    }
}

pub proof fn lemma_fs_map_push(s: Seq<FsEntry>, e: FsEntry)
    requires
        fs_paths_unique(s),
        !fs_map(s).contains_key(e.path@),
    ensures
        fs_paths_unique(s.push(e)),
        fs_map(s.push(e)) == fs_map(s).insert(e.path@, e.data@),
{
    lemma_fs_map_dom(s, e.path@);
    assert forall|i: int, j: int| 0 <= i < j < s.push(e).len() implies s.push(e)[i].path@ != s.push(
        e,
    )[j].path@ by {
        if j == s.len() {
            assert(s.push(e)[i] == s[i]);
        }
    }
    assert(s.push(e).drop_last() =~= s);
    assert(fs_map(s.push(e)) =~= fs_map(s).insert(e.path@, e.data@));
}

/// Restriction of a sequence of entries to its first `n`: the map grows one
/// insertion at a time.
pub proof fn lemma_fs_map_take_step(s: Seq<FsEntry>, n: int)
    requires
        0 <= n < s.len(),
    ensures
        fs_map(s.take(n + 1)) == fs_map(s.take(n)).insert(s[n].path@, s[n].data@),
{
    assert(s.take(n + 1).drop_last() =~= s.take(n));
    assert(s.take(n + 1).last() == s[n]);
}

impl FileSystem {
    /// All entry paths are distinct, so the entry list and the map agree.
    pub open spec fn wf(&self) -> bool {
        fs_paths_unique(self.entries@)
    }

    /// An empty fragment.
    pub fn new() -> (r: FileSystem)
        ensures
            r.wf(),
            r@ == Map::<Seq<char>, FileDataView>::empty(),
    {
        FileSystem { entries: Vec::new() }
    }

    /// Look a file up by path.
    pub fn lookup(&self, path: &String) -> (r: Option<&FileData>)
        requires
            self.wf(),
        ensures
            match r {
                Some(d) => self@.contains_key(path@) && d@ == self@[path@],
                None => !self@.contains_key(path@),
            },
    {
        let n = self.entries.len();
        let mut i: usize = 0;
        while i < n
            invariant
                n == self.entries.len(),
                i <= n,
                self.wf(),
                forall|j: int| 0 <= j < i ==> self.entries@[j].path@ != path@,
            decreases n - i,
        {
            if self.entries[i].path == *path {
                proof {
                    lemma_fs_map_index(self.entries@, i as int);
                }
                return Some(&self.entries[i].data);
            }
            i += 1;
        }
        proof {
            lemma_fs_map_dom(self.entries@, path@);
        }
        None
    }

    /// Create or overwrite the file at `path`.
    pub fn store(&mut self, path: &String, data: FileData)
        requires
            old(self).wf(),
        ensures
            final(self).wf(),
            final(self)@ == old(self)@.insert(path@, data@),
    {
        let n = self.entries.len();
        let mut i: usize = 0;
        while i < n
            invariant
                n == self.entries.len(),
                i <= n,
                self.wf(),
                self == old(self),
                forall|j: int| 0 <= j < i ==> self.entries@[j].path@ != path@,
            decreases n - i,
        {
            if self.entries[i].path == *path {
                let ghost s = self.entries@;
                let e = FsEntry { path: path.clone(), data };
                proof {
                    lemma_fs_map_update(s, i as int, e);
                }
                self.entries[i] = e;
                return ;
            }
            i += 1;
        }
        let ghost s = self.entries@;
        let e = FsEntry { path: path.clone(), data };
        proof {
            lemma_fs_map_dom(s, path@);
            lemma_fs_map_push(s, e);
        }
        self.entries.push(e);
    }
}

/// Byte-for-byte copy of a file's contents.
pub fn clone_bytes(v: &Vec<u8>) -> (r: Vec<u8>)
    ensures
        r@ == v@,
{
    let r = v.clone();
    proof {
        assert(r@ =~= v@);
    }
    r
}

/// Byte-for-byte comparison of two files' contents.
pub fn bytes_eq(a: &Vec<u8>, b: &Vec<u8>) -> (r: bool)
    ensures
        r == (a@ == b@),
{
    if a.len() != b.len() {
        return false;
    }
    let n = a.len();
    let mut i: usize = 0;
    while i < n
        invariant
            n == a.len(),
            a.len() == b.len(),
            i <= n,
            forall|j: int| 0 <= j < i ==> a@[j] == b@[j],
        decreases n - i,
    {
        if a[i] != b[i] {
            return false;
        }
        i += 1;
    }
    proof {
        assert(a@ =~= b@);
    }
    true
}

/// One named file of a commit snapshot.
#[derive(Clone, Debug)]
pub struct TreeEntry {
    pub name: String,
    pub content: Vec<u8>,
}

/// A commit snapshot: file names to contents, as version control records
/// them. Modification times are not part of a snapshot, so two copies of a
/// working tree with equal bytes denote the same snapshot.
#[derive(Clone, Debug)]
pub struct Tree {
    pub entries: Vec<TreeEntry>,
}

/// Map denoted by a sequence of snapshot entries; later entries win.
pub open spec fn tree_map(s: Seq<TreeEntry>) -> Map<Seq<char>, Seq<u8>>
    decreases s.len(),
{
    if s.len() == 0 {
        Map::empty()
    } else {
        tree_map(s.drop_last()).insert(s.last().name@, s.last().content@)
    }
}

/// No two entries share a name.
pub open spec fn tree_names_unique(s: Seq<TreeEntry>) -> bool {
    forall|i: int, j: int| 0 <= i < j < s.len() ==> s[i].name@ != s[j].name@
}

impl View for Tree {
    type V = Map<Seq<char>, Seq<u8>>;

    open spec fn view(&self) -> Map<Seq<char>, Seq<u8>> {
        tree_map(self.entries@)
    }
}

pub proof fn lemma_tree_map_dom(s: Seq<TreeEntry>, k: Seq<char>)
    ensures
        tree_map(s).contains_key(k) <==> exists|i: int| 0 <= i < s.len() && s[i].name@ == k,
    decreases s.len(),
{
    if s.len() > 0 {
        lemma_tree_map_dom(s.drop_last(), k);
        if s.last().name@ == k {
            assert(s[s.len() - 1].name@ == k);
        } else if exists|i: int| 0 <= i < s.len() - 1 && s.drop_last()[i].name@ == k {
            let i = choose|i: int| 0 <= i < s.len() - 1 && s.drop_last()[i].name@ == k;
            assert(s[i].name@ == k);
        } else if exists|i: int| 0 <= i < s.len() && s[i].name@ == k {
            let i = choose|i: int| 0 <= i < s.len() && s[i].name@ == k;
            if i < s.len() - 1 {
                assert(s.drop_last()[i].name@ == k);
            }
        }
    }
}

pub proof fn lemma_tree_map_index(s: Seq<TreeEntry>, i: int)
    requires
        tree_names_unique(s),
        0 <= i < s.len(),
    ensures
        tree_map(s).contains_key(s[i].name@),
        tree_map(s)[s[i].name@] == s[i].content@,
    decreases s.len(),
{
    if i == s.len() - 1 {
        lemma_tree_map_dom(s, s[i].name@);
    } else {
        assert(tree_names_unique(s.drop_last()));
        assert(s.drop_last()[i] == s[i]);
        lemma_tree_map_index(s.drop_last(), i);
        assert(s[i].name@ != s.last().name@);
    }
}

pub proof fn lemma_tree_map_push(s: Seq<TreeEntry>, e: TreeEntry)
    requires
        tree_names_unique(s),
        !tree_map(s).contains_key(e.name@),
    ensures
        tree_names_unique(s.push(e)),
        tree_map(s.push(e)) == tree_map(s).insert(e.name@, e.content@),
{
    lemma_tree_map_dom(s, e.name@);
    assert forall|i: int, j: int| 0 <= i < j < s.push(e).len() implies s.push(e)[i].name@ != s.push(
        e,
    )[j].name@ by {
        if j == s.len() {
            assert(s.push(e)[i] == s[i]);
        }
    }
    assert(s.push(e).drop_last() =~= s);
    assert(tree_map(s.push(e)) =~= tree_map(s).insert(e.name@, e.content@));
}

impl Tree {
    /// All entry names are distinct, so the entry list and the map agree.
    pub open spec fn wf(&self) -> bool {
        tree_names_unique(self.entries@)
    }

    /// An empty snapshot.
    pub fn new() -> (r: Tree)
        ensures
            r.wf(),
            r@ == Map::<Seq<char>, Seq<u8>>::empty(),
    {
        Tree { entries: Vec::new() }
    }

    /// Look a recorded file up by name.
    pub fn lookup(&self, name: &String) -> (r: Option<&Vec<u8>>)
        requires
            self.wf(),
        ensures
            match r {
                Some(c) => self@.contains_key(name@) && c@ == self@[name@],
                None => !self@.contains_key(name@),
            },
    {
        let n = self.entries.len();
        let mut i: usize = 0;
        while i < n
            invariant
                n == self.entries.len(),
                i <= n,
                self.wf(),
                forall|j: int| 0 <= j < i ==> self.entries@[j].name@ != name@,
            decreases n - i,
        {
            if self.entries[i].name == *name {
                proof {
                    lemma_tree_map_index(self.entries@, i as int);
                }
                return Some(&self.entries[i].content);
            }
            i += 1;
        }
        proof {
            lemma_tree_map_dom(self.entries@, name@);
        }
        None
    }
}

/// Copy of a snapshot with the same view.
pub fn clone_tree(t: &Tree) -> (r: Tree)
    ensures
        r@ == t@,
        r.wf() == t.wf(),
        r.entries@.len() == t.entries@.len(),
{
    let n = t.entries.len();
    let mut out: Vec<TreeEntry> = Vec::new();
    let mut i: usize = 0;
    while i < n
        invariant
            n == t.entries.len(),
            i <= n,
            out@.len() == i,
            forall|j: int|
                0 <= j < i ==> out@[j].name@ == t.entries@[j].name@ && out@[j].content@
                    == t.entries@[j].content@,
        decreases n - i,
    {
        out.push(
            TreeEntry {
                name: t.entries[i].name.clone(),
                content: clone_bytes(&t.entries[i].content),
            },
        );
        i += 1;
    }
    let r = Tree { entries: out };
    proof {
        lemma_tree_map_congruent(r.entries@, t.entries@);
    }
    r
}

/// Two entry sequences with pointwise equal names and contents denote the
/// same snapshot.
proof fn lemma_tree_map_congruent(a: Seq<TreeEntry>, b: Seq<TreeEntry>)
    requires
        a.len() == b.len(),
        forall|j: int| 0 <= j < a.len() ==> a[j].name@ == b[j].name@ && a[j].content@ == b[j].content@,
    ensures
        tree_map(a) == tree_map(b),
        tree_names_unique(a) == tree_names_unique(b),
    decreases a.len(),
{
    if a.len() > 0 {
        lemma_tree_map_congruent(a.drop_last(), b.drop_last());
        assert(tree_map(a) =~= tree_map(b));
    }
}

/// The snapshot a filesystem fragment denotes: the same names, contents
/// only, modification times forgotten.
pub open spec fn snapshot_of(m: Map<Seq<char>, FileDataView>) -> Map<Seq<char>, Seq<u8>> {
    m.map_values(|d: FileDataView| d.content)
}

/// Record a working tree as a snapshot (what staging every file captures).
pub fn tree_of(fs: &FileSystem) -> (r: Tree)
    requires
        fs.wf(),
    ensures
        r.wf(),
        r@ == snapshot_of(fs@),
{
    let n = fs.entries.len();
    let mut out: Vec<TreeEntry> = Vec::new();
    let mut i: usize = 0;
    while i < n
        invariant
            n == fs.entries.len(),
            i <= n,
            fs.wf(),
            tree_names_unique(out@),
            tree_map(out@) == snapshot_of(fs_map(fs.entries@.take(i as int))),
            forall|j: int| 0 <= j < i ==> out@[j].name@ == fs.entries@[j].path@,
            out@.len() == i,
        decreases n - i,
    {
        let ghost s = fs.entries@;
        let ghost outs = out@;
        let e = TreeEntry {
            name: fs.entries[i].path.clone(),
            content: clone_bytes(&fs.entries[i].data.content),
        };
        proof {
            lemma_fs_map_dom(s.take(i as int), e.name@);
            lemma_tree_map_dom(outs, e.name@);
            lemma_tree_map_push(outs, e);
            lemma_fs_map_take_step(s, i as int);
            assert(tree_map(outs.push(e)) =~= snapshot_of(fs_map(s.take(i as int + 1))));
        }
        out.push(e);
        i += 1;
    }
    proof {
        assert(fs.entries@.take(n as int) =~= fs.entries@);
    }
    Tree { entries: out }
}

/// Write a snapshot out as a filesystem fragment (what a forced checkout
/// does): exactly the recorded files, every copy stamped `now`.
pub open spec fn checkout_view(t: Map<Seq<char>, Seq<u8>>, now: u64) -> Map<
    Seq<char>,
    FileDataView,
> {
    t.map_values(|c: Seq<u8>| FileDataView { content: c, mtime: now })
}

/// Materialize a snapshot as a filesystem fragment stamped `now`.
pub fn checkout_tree(t: &Tree, now: u64) -> (r: FileSystem)
    requires
        t.wf(),
    ensures
        r.wf(),
        r@ == checkout_view(t@, now),
{
    let n = t.entries.len();
    let mut out: Vec<FsEntry> = Vec::new();
    let mut i: usize = 0;
    while i < n
        invariant
            n == t.entries.len(),
            i <= n,
            t.wf(),
            fs_paths_unique(out@),
            fs_map(out@) == checkout_view(tree_map(t.entries@.take(i as int)), now),
            forall|j: int| 0 <= j < i ==> out@[j].path@ == t.entries@[j].name@,
            out@.len() == i,
        decreases n - i,
    {
        let ghost s = t.entries@;
        let ghost outs = out@;
        let e = FsEntry {
            path: t.entries[i].name.clone(),
            data: FileData { content: clone_bytes(&t.entries[i].content), mtime: now },
        };
        proof {
            lemma_tree_map_dom(s.take(i as int), e.path@);
            lemma_fs_map_dom(outs, e.path@);
            lemma_fs_map_push(outs, e);
            assert(s.take(i as int + 1).drop_last() =~= s.take(i as int));
            assert(fs_map(outs.push(e)) =~= checkout_view(tree_map(s.take(i as int + 1)), now));
        }
        out.push(e);
        i += 1;
    }
    proof {
        assert(t.entries@.take(n as int) =~= t.entries@);
    }
    FileSystem { entries: out }
}

/// Does every file of `a` appear in `b` with the same bytes?
fn tree_covers(a: &Tree, b: &Tree) -> (r: bool)
    requires
        a.wf(),
        b.wf(),
    ensures
        r == a@.submap_of(b@),
{
    let n = a.entries.len();
    let mut i: usize = 0;
    while i < n
        invariant
            n == a.entries.len(),
            i <= n,
            a.wf(),
            b.wf(),
            forall|j: int|
                0 <= j < i ==> b@.contains_key(a.entries@[j].name@) && b@[a.entries@[j].name@]
                    == a.entries@[j].content@,
        decreases n - i,
    {
        let found = b.lookup(&a.entries[i].name);
        match found {
            Some(c) => {
                if !bytes_eq(c, &a.entries[i].content) {
                    proof {
                        lemma_tree_map_index(a.entries@, i as int);
                    }
                    return false;
                }
            },
            None => {
                proof {
                    lemma_tree_map_index(a.entries@, i as int);
                }
                return false;
            },
        }
        proof {
            lemma_tree_map_index(a.entries@, i as int);
        }
        i += 1;
    }
    proof {
        assert forall|k: Seq<char>| #[trigger] a@.dom().contains(k) implies b@.dom().contains(k)
            && a@[k] == b@[k] by {
            lemma_tree_map_dom(a.entries@, k);
            let j = choose|j: int| 0 <= j < a.entries@.len() && a.entries@[j].name@ == k;
            lemma_tree_map_index(a.entries@, j);
        }
        assert(a@.submap_of(b@));
    }
    true
}

/// Do two snapshots record exactly the same files with the same bytes?
pub fn tree_eq(a: &Tree, b: &Tree) -> (r: bool)
    requires
        a.wf(),
        b.wf(),
    ensures
        r == (a@ == b@),
{
    let forward = tree_covers(a, b);
    if !forward {
        return false;
    }
    let backward = tree_covers(b, a);
    proof {
        a@.lemma_submap_eq_iff(b@);
    }
    backward
}

} // verus!
