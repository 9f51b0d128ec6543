use crate::text::{file_name, seq_contains, str_contains, views};
use vstd::prelude::*;

verus! {

/// Which field of a record a query is matched against.
pub enum QueryOpts {
    Name,
    Tags,
    Alias,
    Any,
}

/// Synchronisation state of a working copy.
///
/// `Diverged(ahead, behind)`: `ahead` counts the commits on the local HEAD that
/// `origin/<branch>` lacks, `behind` those on `origin/<branch>` that HEAD lacks,
/// in the order the commit-graph comparison of (local, remote) reports them.
#[derive(Debug, Clone, Copy, PartialEq, Eq, Structural)]
pub enum Status {
    Bare,
    Diverged(usize, usize),
    Clean,
    Dirty,
    Detached,
    Other,
}

pub open spec fn status_label(s: Status) -> Seq<char> {
    match s {
        Status::Bare => "Empty"@,
        Status::Diverged(_, _) => "Diverged"@,
        Status::Clean => "Clean"@,
        Status::Dirty => "Dirty"@,
        Status::Detached => "Detached"@,
        Status::Other => "Other"@,
    }
}

impl Status {
    /// Label shown for the status.
    pub fn display(&self) -> (r: &'static str)
        ensures
            r@ == status_label(*self),
    {
        match self {
            Status::Bare => "Empty",
            Status::Diverged(_, _) => "Diverged",
            Status::Clean => "Clean",
            Status::Dirty => "Dirty",
            Status::Detached => "Detached",
            Status::Other => "Other",
        }
    }
}

/// Outcome of asking the engine which files of the working tree are modified.
#[derive(Debug, Clone, Copy, PartialEq, Eq, Structural)]
pub enum WorkTree {
    /// The engine reported a bare repository.
    Bare,
    /// The engine reported another error.
    Unreadable,
    /// No modified file.
    Clean,
    /// At least one modified file.
    Dirty,
}

/// Status of a working copy from the dirty-file query and, when the remote
/// ref `origin/<branch>` could be compared, the (ahead, behind) counts.
pub open spec fn status_of(tree: WorkTree, upstream: Option<(usize, usize)>) -> Option<Status> {
    match tree {
        WorkTree::Bare => Some(Status::Bare),
        WorkTree::Unreadable => None,
        WorkTree::Dirty => Some(Status::Dirty),
        WorkTree::Clean => match upstream {
            None => None,
            Some((ahead, behind)) => if ahead == 0 && behind == 0 {
                Some(Status::Clean)
            } else {
                Some(Status::Diverged(ahead, behind))
            },
        },
    }
}

/// Classifies a working copy from what the engine reported about it.
///
/// `Detached` is never produced here: a detached HEAD has no
/// `origin/<branch>` to compare with, so its status stays unknown.
pub fn resolve_status(tree: WorkTree, upstream: Option<(usize, usize)>) -> (r: Option<Status>)
    ensures
        r == status_of(tree, upstream),
        tree == WorkTree::Clean && upstream == Some((0usize, 0usize)) ==> r == Some(Status::Clean),
        forall|a: usize, b: usize|
            tree == WorkTree::Clean && upstream == Some((a, b)) && (a != 0 || b != 0) ==> r == Some(
                Status::Diverged(a, b),
            ),
{
    match tree {
        WorkTree::Bare => Some(Status::Bare),
        WorkTree::Unreadable => None,
        WorkTree::Dirty => Some(Status::Dirty),
        WorkTree::Clean => match upstream {
            None => None,
            Some((ahead, behind)) => {
                if ahead == 0 && behind == 0 {
                    Some(Status::Clean)
                } else {
                    Some(Status::Diverged(ahead, behind))
                }
            },
        },
    }
}

pub open spec fn opt_view(o: Option<String>) -> Option<Seq<char>> {
    match o {
        Some(s) => Some(s@),
        None => None,
    }
}

/// What a record holds, as plain sequences.
pub struct RepoV {
    pub path: Seq<char>,
    pub name: Seq<char>,
    pub branch: Seq<char>,
    pub status: Option<Status>,
    pub remotes: Seq<Seq<char>>,
    pub alias: Option<Seq<char>>,
    pub tags: Seq<Seq<char>>,
}

/// One working copy in the index.
#[derive(Debug)]
pub struct Repo {
    /// Path of the working-copy root.
    pub path: String,
    /// Final segment of `path`.
    pub name: String,
    /// Checked-out branch.
    pub branch: String,
    /// `None` when the engine could not be queried.
    pub status: Option<Status>,
    pub remotes: Vec<String>,
    pub alias: Option<String>,
    /// Tags in order of insertion, without duplicates.
    pub tags: Vec<String>,
}

impl View for Repo {
    type V = RepoV;

    open spec fn view(&self) -> RepoV {
        RepoV {
            path: self.path@,
            name: self.name@,
            branch: self.branch@,
            status: self.status,
            remotes: views(self.remotes@),
            alias: opt_view(self.alias),
            tags: views(self.tags@),
        }
    }
}

/// `old` with each tag of `new` appended, in order, unless already there.
pub open spec fn with_tags(old: Seq<Seq<char>>, new: Seq<Seq<char>>) -> Seq<Seq<char>>
    decreases new.len(),
{
    if new.len() == 0 {
        old
    } else {
        let m = with_tags(old, new.drop_last());
        if m.contains(new.last()) {
            m
        } else {
            m.push(new.last())
        }
    }
}

/// Whether the query `q` matches the record under `opts`.
pub open spec fn matches_query(r: RepoV, q: Seq<char>, opts: QueryOpts) -> bool {
    let by_name = seq_contains(r.name, q);
    let by_tag = exists|i: int| 0 <= i < r.tags.len() && seq_contains(#[trigger] r.tags[i], q);
    let by_alias = match r.alias {
        Some(a) => seq_contains(a, q),
        None => false,
    };
    match opts {
        QueryOpts::Name => by_name,
        QueryOpts::Tags => by_tag,
        QueryOpts::Alias => by_alias,
        QueryOpts::Any => by_name || by_tag || by_alias,
    }
}

impl Repo {
    /// Well-formed: no tag appears twice.
    pub open spec fn wf(&self) -> bool {
        self@.tags.no_duplicates()
    }

    pub fn new(
        path: String,
        name: String,
        branch: String,
        status: Option<Status>,
        remotes: Vec<String>,
        alias: Option<String>,
        tags: Vec<String>,
    ) -> (r: Self)
        ensures
            r@ == (RepoV {
                path: path@,
                name: name@,
                branch: branch@,
                status,
                remotes: views(remotes@),
                alias: opt_view(alias),
                tags: views(tags@),
            }),
    {
        Self { path, name, branch, status, remotes, alias, tags }
    }

    /// A freshly discovered record: its name is the final segment of `path`,
    /// its status is classified from the engine's answers, it has no alias and
    /// no tags.
    pub fn discovered(
        path: String,
        branch: String,
        tree: WorkTree,
        upstream: Option<(usize, usize)>,
        remotes: Vec<String>,
    ) -> (r: Self)
        ensures
            r@.path == path@,
            exists|b: int, e: int|
                crate::text::last_segment_at(path@, b, e) && r@.name == path@.subrange(b, e),
            r@.branch == branch@,
            r@.status == status_of(tree, upstream),
            r@.remotes == views(remotes@),
            r@.alias.is_none(),
            r@.tags.len() == 0,
            r.wf(),
    {
        let name = file_name(path.as_str());
        let status = resolve_status(tree, upstream);
        let r = Self { path, name, branch, status, remotes, alias: None, tags: Vec::new() };
        assert(r@.tags =~= Seq::<Seq<char>>::empty());
        r
    }

    /// Appends each tag of `add_tags` not already present; returns whether
    /// any tag was added.
    pub fn add_tags(&mut self, add_tags: &Vec<String>) -> (r: bool)
        ensures
            final(self)@ == (RepoV { tags: with_tags(old(self)@.tags, views(add_tags@)), ..old(self)@ }),
            r == (final(self)@.tags.len() > old(self)@.tags.len()),
            old(self).wf() ==> final(self).wf(),
    {
        let ghost start = self@.tags;
        let before = self.tags.len();
        let mut i: usize = 0;
        while i < add_tags.len()
            invariant
                i <= add_tags@.len(),
                self@ == (RepoV { tags: with_tags(start, views(add_tags@).subrange(0, i as int)), ..old(self)@ }),
                start == old(self)@.tags,
            decreases add_tags@.len() - i,
        {
            let ghost pre = views(add_tags@).subrange(0, i as int);
            assert(views(add_tags@).subrange(0, i + 1).drop_last() =~= pre);
            let mut found = false;
            let mut k: usize = 0;
            while k < self.tags.len()
                invariant
                    i < add_tags@.len(),
                    k <= self.tags@.len(),
                    found == (exists|j: int| 0 <= j < k && self.tags@[j]@ == add_tags@[i as int]@),
                decreases self.tags@.len() - k,
            {
                if self.tags[k] == add_tags[i] {
                    found = true;
                }
                k = k + 1;
            }
            if found {
                proof {
                    let j = choose|j: int| 0 <= j < k && self.tags@[j]@ == add_tags@[i as int]@;
                    assert(self@.tags[j] == add_tags@[i as int]@);
                }
            } else {
                assert(!self@.tags.contains(add_tags@[i as int]@)) by {
                    if self@.tags.contains(add_tags@[i as int]@) {
                        let j = choose|j: int| 0 <= j < self@.tags.len() && self@.tags[j] == add_tags@[i as int]@;
                        assert(self.tags@[j]@ == add_tags@[i as int]@);
                    }
                }
                let t = add_tags[i].clone();
                let ghost old_tags = self.tags@;
                self.tags.push(t);
                assert(views(self.tags@) =~= views(old_tags).push(add_tags@[i as int]@));
            }
            i = i + 1;
        }
        assert(views(add_tags@).subrange(0, add_tags@.len() as int) =~= views(add_tags@));
        proof {
            lemma_with_tags_grows(start, views(add_tags@));
            if old(self).wf() {
                lemma_with_tags_no_duplicates(start, views(add_tags@));
            }
        }
        self.tags.len() > before
    }

    /// Takes branch, status and remotes from what the engine reported;
    /// path, name, alias and tags stay.
    pub fn update(&mut self, res: Resolution)
        ensures
            final(self)@ == refreshed(old(self)@, res),
    {
        let Resolution { branch, tree, upstream, remotes } = res;
        self.branch = branch;
        self.status = resolve_status(tree, upstream);
        self.remotes = remotes;
    }

    /// Sets the alias, replacing any previous one.
    pub fn add_alias(&mut self, alias: String)
        ensures
            final(self)@ == (RepoV { alias: Some(alias@), ..old(self)@ }),
    {
        self.alias = Some(alias)
    }

    /// Whether `query_str` occurs in the field(s) that `opts` names.
    pub fn query(&self, query_str: &str, opts: QueryOpts) -> (r: bool)
        ensures
            r == matches_query(self@, query_str@, opts),
    {
        match opts {
            QueryOpts::Name => str_contains(self.name.as_str(), query_str),
            QueryOpts::Tags => self.query_tags(query_str),
            QueryOpts::Alias => self.query_alias(query_str),
            QueryOpts::Any => {
                str_contains(self.name.as_str(), query_str) || self.query_tags(query_str)
                    || self.query_alias(query_str)
            },
        }
    }

    fn query_tags(&self, q: &str) -> (r: bool)
        ensures
            r == exists|i: int| 0 <= i < self@.tags.len() && seq_contains(#[trigger] self@.tags[i], q@),
    {
        let mut k: usize = 0;
        while k < self.tags.len()
            invariant
                k <= self.tags@.len(),
                forall|j: int| 0 <= j < k ==> !seq_contains(#[trigger] self@.tags[j], q@),
            decreases self.tags@.len() - k,
        {
            if str_contains(self.tags[k].as_str(), q) {
                assert(seq_contains(self@.tags[k as int], q@));
                return true;
            }
            k = k + 1;
        }
        false
    }

    fn query_alias(&self, q: &str) -> (r: bool)
        ensures
            r == match self@.alias {
                Some(a) => seq_contains(a, q@),
                None => false,
            },
    {
        match &self.alias {
            Some(a) => str_contains(a.as_str(), q),
            None => false,
        }
    }
}

proof fn lemma_with_tags_grows(old: Seq<Seq<char>>, new: Seq<Seq<char>>)
    ensures
        with_tags(old, new).len() >= old.len(),
        with_tags(old, new).subrange(0, old.len() as int) == old,
    decreases new.len(),
{
    if new.len() > 0 {
        lemma_with_tags_grows(old, new.drop_last());
        let m = with_tags(old, new.drop_last());
        assert(m.push(new.last()).subrange(0, old.len() as int) =~= m.subrange(0, old.len() as int));
    } else {
        assert(old.subrange(0, old.len() as int) =~= old);
    }
}

/// Adding tags never creates a duplicate, whatever the added list holds.
pub proof fn lemma_with_tags_no_duplicates(old: Seq<Seq<char>>, new: Seq<Seq<char>>)
    requires
        old.no_duplicates(),
    ensures
        with_tags(old, new).no_duplicates(),
        forall|t: Seq<char>| old.contains(t) || new.contains(t) <==> with_tags(old, new).contains(t),
    decreases new.len(),
{
    if new.len() > 0 {
        let prev = new.drop_last();
        lemma_with_tags_no_duplicates(old, prev);
        let m = with_tags(old, prev);
        if !m.contains(new.last()) {
            let m2 = m.push(new.last());
            assert forall|i: int, j: int| 0 <= i < j < m2.len() implies m2[i] != m2[j] by {
                if j == m.len() {
                    assert(m.contains(m2[i]));
                }
            }
            assert forall|t: Seq<char>| m2.contains(t) <==> m.contains(t) || t == new.last() by {
                if m2.contains(t) {
                    let k = choose|k: int| 0 <= k < m2.len() && m2[k] == t;
                    if k < m.len() {
                        assert(m[k] == t);
                    }
                }
                if m.contains(t) {
                    let k = choose|k: int| 0 <= k < m.len() && m[k] == t;
                    assert(m2[k] == t);
                }
                if t == new.last() {
                    assert(m2[m.len() as int] == t);
                }
            }
        }
        assert forall|t: Seq<char>| new.contains(t) <==> prev.contains(t) || t == new.last() by {
            if new.contains(t) {
                let k = choose|k: int| 0 <= k < new.len() && new[k] == t;
                if k < prev.len() {
                    assert(prev[k] == t);
                }
            }
            if prev.contains(t) {
                let k = choose|k: int| 0 <= k < prev.len() && prev[k] == t;
                assert(new[k] == t);
            }
            if t == new.last() {
                assert(new[new.len() - 1] == t);
            }
        }
    } else {
        assert(!exists|t: Seq<char>| new.contains(t));
    }
}

/// What the engine reported for a record on refresh.
pub struct Resolution {
    pub branch: String,
    pub tree: WorkTree,
    pub upstream: Option<(usize, usize)>,
    pub remotes: Vec<String>,
}

/// `r` after a refresh with `x`: branch, status and remotes come from `x`;
/// path, name, alias and tags stay.
pub open spec fn refreshed(r: RepoV, x: Resolution) -> RepoV {
    RepoV {
        branch: x.branch@,
        status: status_of(x.tree, x.upstream),
        remotes: views(x.remotes@),
        ..r
    }
}

/// The records after a refresh: record `i` is refreshed with `xs[i]` when that
/// is present; a record without a result keeps its prior values.
pub open spec fn updated(rs: Seq<RepoV>, xs: Seq<Option<Resolution>>) -> Seq<RepoV> {
    Seq::new(
        rs.len(),
        |i: int|
            if i < xs.len() && xs[i] is Some {
                refreshed(rs[i], xs[i]->Some_0)
            } else {
                rs[i]
            },
    )
}

pub open spec fn repo_views(v: Seq<Repo>) -> Seq<RepoV> {
    v.map_values(|r: Repo| r@)
}

/// Longest name (in characters) among the records.
pub open spec fn longest(rs: Seq<RepoV>) -> nat
    decreases rs.len(),
{
    if rs.len() == 0 {
        0
    } else {
        let m = longest(rs.drop_last());
        if rs.last().name.len() > m {
            rs.last().name.len()
        } else {
            m
        }
    }
}

/// `p` is `d` or lies below the directory `d`.
pub open spec fn is_under(p: Seq<char>, d: Seq<char>) -> bool {
    p == d || (d.len() < p.len() && p.subrange(0, d.len() as int) == d && (p[d.len() as int] == '/'
        || (d.len() > 0 && d.last() == '/')))
}

/// Number of records below `d` whose tags grow when `tags` are added.
pub open spec fn tag_gain(rs: Seq<RepoV>, tags: Seq<Seq<char>>, d: Seq<char>) -> nat
    decreases rs.len(),
{
    if rs.len() == 0 {
        0
    } else {
        let r = rs.last();
        tag_gain(rs.drop_last(), tags, d) + if is_under(r.path, d) && with_tags(r.tags, tags).len()
            > r.tags.len() {
            1nat
        } else {
            0nat
        }
    }
}

/// Size metadata stored beside the records.
#[derive(Debug, Clone, Copy)]
pub struct Meta {
    pub size: usize,
}

/// The index: records in scan order and their count.
#[derive(Debug)]
pub struct Repos {
    pub repos: Vec<Repo>,
    pub meta: Meta,
}

impl View for Repos {
    type V = Seq<RepoV>;

    open spec fn view(&self) -> Seq<RepoV> {
        repo_views(self.repos@)
    }
}

impl Repos {
    /// The count matches the records and every record is well formed.
    pub open spec fn wf(&self) -> bool {
        &&& self.meta.size == self.repos@.len()
        &&& forall|i: int| 0 <= i < self.repos@.len() ==> (#[trigger] self.repos@[i]).wf()
    }

    /// An index over `repos`, with a count that matches.
    pub fn new(repos: Vec<Repo>) -> (r: Self)
        ensures
            r.repos@ == repos@,
            r.meta.size == repos@.len(),
    {
        let size = repos.len();
        Repos { repos, meta: Meta { size } }
    }

    /// Width of the longest record name, in characters.
    pub fn longest_name(&self) -> (r: usize)
        ensures
            r == longest(self@),
    {
        let mut longest_len: usize = 0;
        let mut i: usize = 0;
        while i < self.repos.len()
            invariant
                i <= self.repos@.len(),
                longest_len == longest(self@.subrange(0, i as int)),
            decreases self.repos@.len() - i,
        {
            assert(self@.subrange(0, i + 1).drop_last() =~= self@.subrange(0, i as int));
            let n = self.repos[i].name.as_str().unicode_len();
            if n > longest_len {
                longest_len = n;
            }
            i = i + 1;
        }
        assert(self@.subrange(0, self.repos@.len() as int) =~= self@);
        longest_len
    }

    /// Refreshes the records in place, in order: record `i` takes branch,
    /// status and remotes from `results[i]` when that is present, and keeps
    /// path, name, alias and tags.
    pub fn update(&mut self, results: Vec<Option<Resolution>>)
        ensures
            final(self)@ == updated(old(self)@, results@),
            final(self).meta == old(self).meta,
            old(self).wf() ==> final(self).wf(),
    {
        let ghost xs = results@;
        let mut results = results;
        while results.len() > 0
            invariant
                results@ == xs.subrange(0, results@.len() as int),
                results@.len() <= xs.len(),
                self.meta == old(self).meta,
                self.repos@.len() == old(self).repos@.len(),
                forall|k: int| 0 <= k < self.repos@.len() ==> #[trigger] self@[k] == if results@.len() <= k {
                    updated(old(self)@, xs)[k]
                } else {
                    old(self)@[k]
                },
                forall|k: int| 0 <= k < self.repos@.len() ==> (#[trigger] self@[k]).tags == old(self)@[k].tags,
            decreases results@.len(),
        {
            let ghost pre = self@;
            let x = results.pop();
            let i = results.len();
            assert(x == Some(xs[i as int]));
            assert(results@ =~= xs.subrange(0, i as int));
            match x {
                Some(Some(res)) => {
                    if i < self.repos.len() {
                        assert(pre[i as int] == old(self)@[i as int]);
                        let repo = &mut self.repos[i];
                        repo.update(res);
                        assert(self@[i as int] == refreshed(old(self)@[i as int], res));
                        assert forall|k: int| 0 <= k < self.repos@.len() && k != i implies #[trigger] self@[k] == pre[k] by {}
                    }
                },
                _ => {},
            }
        }
        assert(self@ =~= updated(old(self)@, xs));
        proof {
            if old(self).wf() {
                assert forall|i: int| 0 <= i < self.repos@.len() implies (#[trigger] self.repos@[i]).wf() by {
                    assert(old(self).repos@[i].wf());
                    assert(self@[i].tags == old(self)@[i].tags);
                }
            }
        }
    }

    /// Adds `tags` to every record at or below the directory `dir`; returns
    /// how many records gained a tag.
    pub fn tag_under(&mut self, tags: &Vec<String>, dir: &str) -> (r: usize)
        requires
            old(self).wf(),
        ensures
            final(self).wf(),
            final(self).meta == old(self).meta,
            final(self)@.len() == old(self)@.len(),
            forall|i: int| 0 <= i < old(self)@.len() ==> #[trigger] final(self)@[i] == if is_under(old(self)@[i].path, dir@) {
                RepoV { tags: with_tags(old(self)@[i].tags, views(tags@)), ..old(self)@[i] }
            } else {
                old(self)@[i]
            },
            r == tag_gain(old(self)@, views(tags@), dir@),
    {
        let mut applied: usize = 0;
        let mut i: usize = 0;
        while i < self.repos.len()
            invariant
                i <= self.repos@.len(),
                self.wf(),
                self.meta == old(self).meta,
                self.repos@.len() == old(self).repos@.len(),
                applied == tag_gain(old(self)@.subrange(0, i as int), views(tags@), dir@),
                applied <= i,
                forall|k: int| 0 <= k < self.repos@.len() ==> #[trigger] self@[k] == if k < i && is_under(old(self)@[k].path, dir@) {
                    RepoV { tags: with_tags(old(self)@[k].tags, views(tags@)), ..old(self)@[k] }
                } else {
                    old(self)@[k]
                },
            decreases self.repos@.len() - i,
        {
            assert(old(self)@.subrange(0, i + 1).drop_last() =~= old(self)@.subrange(0, i as int));
            assert(old(self)@.subrange(0, i + 1).last() == old(self)@[i as int]);
            assert(self@[i as int] == old(self)@[i as int]);
            if path_is_under(self.repos[i].path.as_str(), dir) {
                let ghost before = self.repos@;
                let ghost pre = self@;
                assert(self.repos@[i as int].wf());
                let repo = &mut self.repos[i];
                let grew = repo.add_tags(tags);
                assert forall|k: int| 0 <= k < self.repos@.len() && k != i implies #[trigger] self@[k] == pre[k] by {}
                if grew {
                    applied = applied + 1;
                }
                assert forall|k: int| 0 <= k < self.repos@.len() implies (#[trigger] self.repos@[k]).wf() by {
                    if k != i {
                        assert(before[k].wf());
                    }
                }
            }
            i = i + 1;
        }
        assert(old(self)@.subrange(0, i as int) =~= old(self)@);
        applied
    }

    /// Sets `alias` on the first record whose path is `path`; returns whether
    /// there was one.
    pub fn alias_at(&mut self, alias: String, path: &str) -> (r: bool)
        ensures
            final(self).meta == old(self).meta,
            final(self)@.len() == old(self)@.len(),
            r == exists|i: int| 0 <= i < old(self)@.len() && #[trigger] old(self)@[i].path == path@,
            forall|i: int| 0 <= i < old(self)@.len() ==> #[trigger] final(self)@[i] == if old(self)@[i].path == path@ && forall|j: int| 0 <= j < i ==> #[trigger] old(self)@[j].path != path@ {
                RepoV { alias: Some(alias@), ..old(self)@[i] }
            } else {
                old(self)@[i]
            },
            old(self).wf() ==> final(self).wf(),
    {
        let mut i: usize = 0;
        while i < self.repos.len()
            invariant
                i <= self.repos@.len(),
                self == old(self),
                forall|j: int| 0 <= j < i ==> #[trigger] old(self)@[j].path != path@,
            decreases self.repos@.len() - i,
        {
            if self.repos[i].path.as_str().unicode_len() == path.unicode_len() && path_is_under(self.repos[i].path.as_str(), path) {
                let ghost before = self.repos@;
                let repo = &mut self.repos[i];
                repo.add_alias(alias);
                assert(old(self)@[i as int].path == path@);
                proof {
                    if old(self).wf() {
                        assert forall|k: int| 0 <= k < self.repos@.len() implies (#[trigger] self.repos@[k]).wf() by {
                            assert(before[k].wf());
                            assert(self@[k].tags == old(self)@[k].tags);
                        }
                    }
                }
                return true;
            }
            i = i + 1;
        }
        false
    }
}

/// Refreshing twice in a row with the same engine answers gives the records
/// that one refresh gives: every record has the same status both times.
pub proof fn lemma_update_idempotent(rs: Seq<RepoV>, xs: Seq<Option<Resolution>>)
    ensures
        updated(updated(rs, xs), xs) == updated(rs, xs),
        forall|i: int| 0 <= i < rs.len() ==> (#[trigger] updated(updated(rs, xs), xs)[i]).status == updated(rs, xs)[i].status,
{
    assert(updated(updated(rs, xs), xs) =~= updated(rs, xs));
}

/// Whether the path `p` is `d` or lies below the directory `d`.
pub fn path_is_under(p: &str, d: &str) -> (r: bool)
    ensures
        r == is_under(p@, d@),
{
    let n = p.unicode_len();
    let m = d.unicode_len();
    if m > n {
        return false;
    }
    let mut k: usize = 0;
    while k < m
        invariant
            n == p@.len(),
            m == d@.len(),
            m <= n,
            k <= m,
            forall|j: int| 0 <= j < k ==> p@[j] == d@[j],
        decreases m - k,
    {
        if p.get_char(k) != d.get_char(k) {
            assert(p@.subrange(0, m as int)[k as int] != d@[k as int]);
            assert(p@ != d@);
            return false;
        }
        k = k + 1;
    }
    assert(p@.subrange(0, m as int) =~= d@);
    if m == n {
        assert(p@ =~= d@);
        return true;
    }
    p.get_char(m) == '/' || (m > 0 && d.get_char(m - 1) == '/')
}

} // verus!
