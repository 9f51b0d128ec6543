use crate::input::{Input, InputStatus};
use crate::repo::{longest, repo_views, with_tags, QueryOpts, Repo, RepoV, Repos};
use crate::text::{join, joined, seq_contains, views};
use crate::utils::{set_item_in_vec, toggle_item_in_vec, vec_contains};
use vstd::prelude::*;
use vstd::string::*;

verus! {

/// The navigation state as plain values.
pub struct RepoViewV {
    pub items: Seq<RepoV>,
    /// Index of the record under the cursor, in the unfiltered sequence.
    pub focus: Option<usize>,
    /// Selected indices, in order of selection.
    pub selected: Seq<usize>,
    /// Indices whose detail lines are shown.
    pub expanded: Seq<usize>,
    /// Indices that the last filter hid.
    pub hidden: Seq<usize>,
    pub select_mode: bool,
    /// Column width for names.
    pub width: usize,
}

/// Cursor, selection, expansion and filter over the records of an index.
pub struct RepoView {
    items: Vec<Repo>,
    expanded: Vec<usize>,
    column_widths: Vec<usize>,
    focus: Option<usize>,
    select_mode: bool,
    selected: Vec<usize>,
    filter: Vec<usize>,
}

/// Index `i` is shown under the filter `hidden`.
pub open spec fn visible(hidden: Seq<usize>, i: int) -> bool {
    !hidden.contains(i as usize)
}

/// `g` is where the cursor goes from `f` on "down": the first shown index
/// after `f`, or `f` itself when there is none.
pub open spec fn next_focus(v: RepoViewV, f: usize, g: usize) -> bool {
    ||| (f < g < v.items.len() && visible(v.hidden, g as int) && forall|k: int|
        f < k < g ==> !visible(v.hidden, k))
    ||| (g == f && forall|k: int| f < k < v.items.len() ==> !visible(v.hidden, k))
}

/// `g` is where the cursor goes from `f` on "up": the last shown index
/// before `f`, or `f` itself when there is none.
pub open spec fn prev_focus(v: RepoViewV, f: usize, g: usize) -> bool {
    ||| (g < f && visible(v.hidden, g as int) && forall|k: int| g < k < f ==> !visible(v.hidden, k))
    ||| (g == f && forall|k: int| 0 <= k < f ==> !visible(v.hidden, k))
}

/// The cursor after the filter `hidden` on `n` records: `f` when it is still
/// shown, else the first shown index, else none.
pub open spec fn refocused(hidden: Seq<usize>, n: nat, f: Option<usize>, g: Option<usize>) -> bool {
    match f {
        Some(f0) if f0 < n && visible(hidden, f0 as int) => g == Some(f0),
        _ => match g {
            Some(g0) => g0 < n && visible(hidden, g0 as int) && forall|k: int|
                0 <= k < g0 ==> !visible(hidden, k),
            None => forall|k: int| 0 <= k < n ==> !visible(hidden, k),
        },
    }
}

/// The records after tagging the selected ones with `tags`.
pub open spec fn tagged(v: RepoViewV, tags: Seq<Seq<char>>) -> Seq<RepoV> {
    Seq::new(
        v.items.len(),
        |k: int|
            if v.selected.contains(k as usize) {
                RepoV { tags: with_tags(v.items[k].tags, tags), ..v.items[k] }
            } else {
                v.items[k]
            },
    )
}


/// The view after adding the record under the cursor to the selection.
pub open spec fn focus_selected(v: RepoViewV) -> RepoViewV {
    RepoViewV {
        selected: match v.focus {
            Some(f) => if v.selected.contains(f) {
                v.selected
            } else {
                v.selected.push(f)
            },
            None => v.selected,
        },
        ..v
    }
}

/// The view after showing or hiding the details of the record under the cursor.
pub open spec fn focus_toggled(v: RepoViewV) -> RepoViewV {
    RepoViewV {
        expanded: match v.focus {
            Some(f) => if v.expanded.contains(f) {
                v.expanded.filter(|x: usize| x != f)
            } else {
                v.expanded.push(f)
            },
            None => v.expanded,
        },
        ..v
    }
}

/// `n` is `o` after the cursor moved down.
pub open spec fn moved_down(o: RepoViewV, n: RepoViewV) -> bool {
    &&& n == (RepoViewV { focus: n.focus, ..o })
    &&& match o.focus {
        Some(f) => n.focus is Some && next_focus(o, f, n.focus->Some_0),
        None => n.focus is None,
    }
}

/// `n` is `o` after the cursor moved up.
pub open spec fn moved_up(o: RepoViewV, n: RepoViewV) -> bool {
    &&& n == (RepoViewV { focus: n.focus, ..o })
    &&& match o.focus {
        Some(f) => n.focus is Some && prev_focus(o, f, n.focus->Some_0),
        None => n.focus is None,
    }
}

/// `n` is `o` after filtering on the query `q`: exactly the records whose
/// name lacks `q` are hidden, the cursor is refocused, nothing else changes.
pub open spec fn filtered(o: RepoViewV, n: RepoViewV, q: Seq<char>) -> bool {
    &&& n == (RepoViewV { hidden: n.hidden, focus: n.focus, ..o })
    &&& forall|i: int| 0 <= i < o.items.len() ==> (!visible(n.hidden, i) <==> !seq_contains(o.items[i].name, q))
    &&& forall|k: int| 0 <= k < n.hidden.len() ==> #[trigger] n.hidden[k] < o.items.len()
    &&& refocused(n.hidden, o.items.len(), o.focus, n.focus)
}

/// `n` is `o` after the alias command with alias `a` (when exactly one
/// record is selected; else nothing changes).
pub open spec fn aliased(o: RepoViewV, n: RepoViewV, a: Seq<char>) -> bool {
    if o.selected.len() == 1 {
        n == (RepoViewV {
            items: o.items.update(o.selected[0] as int, RepoV { alias: Some(a), ..o.items[o.selected[0] as int] }),
            ..o
        })
    } else {
        n == o
    }
}

/// A filter command with no words hides nothing: every record is shown
/// again, and selection and expansion are what they were before any filter.
pub proof fn lemma_empty_filter_shows_all(o: RepoViewV, n: RepoViewV)
    requires
        filtered(o, n, Seq::empty()),
    ensures
        forall|i: int| 0 <= i < n.items.len() ==> visible(n.hidden, i),
        n.selected == o.selected,
        n.expanded == o.expanded,
        n.items == o.items,
{
    assert forall|i: int| 0 <= i < n.items.len() implies visible(n.hidden, i) by {
        let name = o.items[i].name;
        assert(name.subrange(0, 0) =~= Seq::<char>::empty());
        assert(crate::text::contains_at(name, Seq::empty(), 0));
    }
}

impl View for RepoView {
    type V = RepoViewV;

    closed spec fn view(&self) -> RepoViewV {
        RepoViewV {
            items: repo_views(self.items@),
            focus: self.focus,
            selected: self.selected@,
            expanded: self.expanded@,
            hidden: self.filter@,
            select_mode: self.select_mode,
            width: self.column_widths@[0],
        }
    }
}

impl RepoView {
    /// The cursor is on a shown record whenever one is shown; selected
    /// indices are records, each selected once; records are well formed.
    pub closed spec fn wf(&self) -> bool {
        &&& self.column_widths@.len() == 1
        &&& match self.focus {
            Some(f) => f < self.items@.len() && visible(self.filter@, f as int),
            None => forall|k: int| 0 <= k < self.items@.len() ==> !visible(self.filter@, k),
        }
        &&& forall|k: int| 0 <= k < self.selected@.len() ==> #[trigger] self.selected@[k] < self.items@.len()
        &&& self.selected@.no_duplicates()
        &&& forall|k: int| 0 <= k < self.items@.len() ==> (#[trigger] self.items@[k]).wf()
    }

    /// A view over the records of `repos`, nothing selected, expanded or
    /// hidden, the cursor on the first record.
    pub fn new(repos: Repos) -> (r: Self)
        requires
            repos.wf(),
        ensures
            r.wf(),
            r@.items == repos@,
            r@.focus == if repos@.len() > 0 {
                Some(0usize)
            } else {
                None
            },
            r@.selected.len() == 0,
            r@.expanded.len() == 0,
            r@.hidden.len() == 0,
            !r@.select_mode,
            r@.width == longest(repos@),
    {
        let longest_len = repos.longest_name();
        let n = repos.repos.len();
        let mut column_widths: Vec<usize> = Vec::new();
        column_widths.push(longest_len);
        let r = Self {
            items: repos.repos,
            expanded: Vec::new(),
            column_widths,
            focus: if n > 0 {
                Some(0)
            } else {
                None
            },
            select_mode: false,
            selected: Vec::new(),
            filter: Vec::new(),
        };
        assert(r.selected@.no_duplicates());
        r
    }

    /// The records, for saving.
    pub fn into_repos(self) -> (r: Repos)
        ensures
            r@ == self@.items,
            r.meta.size == self@.items.len(),
    {
        Repos::new(self.items)
    }

    pub fn items(&self) -> (r: &Vec<Repo>)
        ensures
            repo_views(r@) == self@.items,
    {
        &self.items
    }

    pub fn focus(&self) -> (r: Option<usize>)
        ensures
            r == self@.focus,
    {
        self.focus
    }

    /// Whether range selection is on.
    pub fn select_mode(&self) -> (r: bool)
        ensures
            r == self@.select_mode,
    {
        self.select_mode
    }

    pub fn selected(&self) -> (r: &Vec<usize>)
        ensures
            r@ == self@.selected,
    {
        &self.selected
    }

    /// Column width for names.
    pub fn name_width(&self) -> (r: usize)
        requires
            self.wf(),
        ensures
            r == self@.width,
    {
        self.column_widths[0]
    }

    pub fn is_selected(&self, i: usize) -> (r: bool)
        ensures
            r == self@.selected.contains(i),
    {
        vec_contains(&self.selected, i)
    }

    pub fn is_expanded(&self, i: usize) -> (r: bool)
        ensures
            r == self@.expanded.contains(i),
    {
        vec_contains(&self.expanded, i)
    }

    pub fn is_hidden(&self, i: usize) -> (r: bool)
        ensures
            r == self@.hidden.contains(i),
    {
        vec_contains(&self.filter, i)
    }

    /// The record under the cursor.
    pub fn curr(&self) -> (r: Option<&Repo>)
        requires
            self.wf(),
        ensures
            match self@.focus {
                Some(f) => r.is_some() && r.unwrap()@ == self@.items[f as int],
                None => r.is_none(),
            },
    {
        match self.focus {
            Some(f) => Some(&self.items[f]),
            None => None,
        }
    }

    /// Moves the cursor to the next shown record; stays at the last one.
    pub fn next(&mut self)
        requires
            old(self).wf(),
        ensures
            final(self).wf(),
            moved_down(old(self)@, final(self)@),
    {
        if let Some(f) = self.focus {
            let n = self.items.len();
            let mut j: usize = f + 1;
            while j < n && vec_contains(&self.filter, j)
                invariant
                    f < n == self.items@.len(),
                    f < j <= n,
                    self@ == old(self)@,
                    forall|k: int| f < k < j ==> !visible(self.filter@, k),
                decreases n - j,
            {
                j = j + 1;
            }
            if j < n {
                self.focus = Some(j);
            }
        }
    }

    /// Moves the cursor to the previous shown record; stays at the first one.
    pub fn previous(&mut self)
        requires
            old(self).wf(),
        ensures
            final(self).wf(),
            moved_up(old(self)@, final(self)@),
    {
        if let Some(f) = self.focus {
            let mut j: usize = f;
            let mut found = false;
            while j > 0 && !found
                invariant
                    f < self.items@.len(),
                    j <= f,
                    self@ == old(self)@,
                    found ==> j < f && visible(self.filter@, j as int),
                    forall|k: int| j < k < f ==> !visible(self.filter@, k),
                    !found ==> forall|k: int| j <= k < f ==> !visible(self.filter@, k),
                decreases j + if found { 0int } else { 1int },
            {
                if !vec_contains(&self.filter, j - 1) {
                    found = true;
                }
                j = j - 1;
            }
            if found {
                self.focus = Some(j);
            }
        }
    }

    /// Adds the record under the cursor to the selection.
    pub fn select_current(&mut self)
        requires
            old(self).wf(),
        ensures
            final(self).wf(),
            final(self)@ == focus_selected(old(self)@),
    {
        if let Some(f) = self.focus {
            set_item_in_vec(&mut self.selected, f);
            proof {
                let s = self.selected@;
                assert forall|i: int, j: int| 0 <= i < j < s.len() implies s[i] != s[j] by {
                    if j == s.len() - 1 && !old(self).selected@.contains(f) {
                        assert(old(self).selected@[i] == s[i]);
                    }
                }
            }
        }
    }

    /// Starts range selection: from now on every move adds the record it
    /// leaves to the selection. The record under the cursor is selected.
    pub fn select_range(&mut self)
        requires
            old(self).wf(),
        ensures
            final(self).wf(),
            final(self)@ == focus_selected(RepoViewV { select_mode: true, ..old(self)@ }),
    {
        self.select_mode = true;
        self.select_current();
    }

    /// Shows or hides the detail lines of the record under the cursor.
    pub fn toggle_expanded(&mut self)
        requires
            old(self).wf(),
        ensures
            final(self).wf(),
            final(self)@ == focus_toggled(old(self)@),
    {
        if let Some(f) = self.focus {
            toggle_item_in_vec(&mut self.expanded, f);
        }
    }

    /// Indices of the shown records, in order.
    pub fn visible(&self) -> (r: Vec<usize>)
        ensures
            forall|k: int| 0 <= k < r@.len() ==> #[trigger] r@[k] < self@.items.len() && visible(self@.hidden, r@[k] as int),
            forall|i: int, j: int| 0 <= i < j < r@.len() ==> r@[i] < r@[j],
            forall|k: int| 0 <= k < self@.items.len() && visible(self@.hidden, k) ==> r@.contains(k as usize),
    {
        let mut r: Vec<usize> = Vec::new();
        let mut i: usize = 0;
        while i < self.items.len()
            invariant
                i <= self.items@.len(),
                forall|k: int| 0 <= k < r@.len() ==> #[trigger] r@[k] < i && visible(self@.hidden, r@[k] as int),
                forall|a: int, b: int| 0 <= a < b < r@.len() ==> r@[a] < r@[b],
                forall|k: int| 0 <= k < i && visible(self@.hidden, k) ==> r@.contains(k as usize),
            decreases self.items@.len() - i,
        {
            if !vec_contains(&self.filter, i) {
                let ghost pre = r@;
                r.push(i);
                assert forall|k: int| 0 <= k < i + 1 && visible(self@.hidden, k) implies r@.contains(k as usize) by {
                    if k < i {
                        let m = choose|m: int| 0 <= m < pre.len() && pre[m] == k as usize;
                        assert(r@[m] == k as usize);
                    } else {
                        assert(r@[r@.len() - 1] == i);
                    }
                }
            }
            i = i + 1;
        }
        r
    }

    /// Adds each word of `cmd` as a tag to every selected record. Nothing
    /// selected is no error.
    pub fn tag_command(&mut self, cmd: &Vec<String>) -> (r: Option<Input>)
        requires
            old(self).wf(),
        ensures
            final(self).wf(),
            final(self)@ == (RepoViewV { items: tagged(old(self)@, views(cmd@)), ..old(self)@ }),
            r.is_none(),
    {
        let ghost old_items = self@.items;
        let mut i: usize = 0;
        while i < self.selected.len()
            invariant
                self.wf(),
                i <= self.selected@.len(),
                self@ == (RepoViewV { items: self@.items, ..old(self)@ }),
                self@.items.len() == old_items.len(),
                old_items == old(self)@.items,
                forall|k: int| 0 <= k < old_items.len() ==> #[trigger] self@.items[k] == if self@.selected.subrange(0, i as int).contains(k as usize) {
                    RepoV { tags: with_tags(old_items[k].tags, views(cmd@)), ..old_items[k] }
                } else {
                    old_items[k]
                },
            decreases self.selected@.len() - i,
        {
            let idx = self.selected[i];
            let ghost sel = self.selected@;
            let ghost pre = self@.items;
            let ghost before = self.items@;
            assert(self.items@[idx as int].wf());
            assert(!sel.subrange(0, i as int).contains(idx)) by {
                let s0 = sel.subrange(0, i as int);
                if s0.contains(idx) {
                    let m = choose|m: int| 0 <= m < s0.len() && #[trigger] s0[m] == idx;
                    assert(sel[m] == sel[i as int]);
                }
            }
            let count = self.items.len();
            assert(count == old_items.len());
            let repo = &mut self.items[idx];
            repo.add_tags(cmd);
            let ghost s0 = sel.subrange(0, i as int);
            let ghost s1 = sel.subrange(0, i + 1);
            assert forall|k: int| 0 <= k < old_items.len() implies #[trigger] self@.items[k] == if sel.subrange(0, i + 1).contains(k as usize) {
                RepoV { tags: with_tags(old_items[k].tags, views(cmd@)), ..old_items[k] }
            } else {
                old_items[k]
            } by {
                if k != idx {
                    assert(self@.items[k] == pre[k]);
                    if s1.contains(k as usize) {
                        let m = choose|m: int| 0 <= m < s1.len() && #[trigger] s1[m] == k as usize;
                        assert(s1[i as int] == idx);
                        assert(k < count);
                        assert(k as usize == k);
                        assert(m != i);
                        assert(s0[m] == k as usize);
                    }
                    if s0.contains(k as usize) {
                        let m = choose|m: int| 0 <= m < s0.len() && #[trigger] s0[m] == k as usize;
                        assert(s1[m] == k as usize);
                    }
                } else {
                    assert(s1[i as int] == idx);
                    assert(s1.contains(idx));
                    assert(pre[idx as int] == old_items[idx as int]);
                }
            }
            assert forall|k: int| 0 <= k < self.items@.len() implies (#[trigger] self.items@[k]).wf() by {
                if k != idx {
                    assert(before[k].wf());
                }
            }
            i = i + 1;
        }
        assert(self@.selected.subrange(0, i as int) =~= self@.selected);
        assert(self@.items =~= tagged(old(self)@, views(cmd@)));
        None
    }

    /// Sets the words of `cmd`, joined with `-`, as the alias of the one
    /// selected record. With no record or several selected, nothing changes
    /// and a warning is returned.
    pub fn alias_command(&mut self, cmd: &Vec<String>) -> (r: Option<Input>)
        requires
            old(self).wf(),
        ensures
            final(self).wf(),
            aliased(old(self)@, final(self)@, joined(views(cmd@), "-"@)),
            old(self)@.selected.len() == 1 <==> r.is_none(),
            r.is_some() ==> r.unwrap().status == InputStatus::Warning && !r.unwrap().editing
                && r.unwrap().text@.len() > 0,
    {
        proof {
            reveal_strlit("Not applying alias to multiple selected repos");
            reveal_strlit("No repo selected for alias");
        }
        if self.selected.len() > 1 {
            return Some(Input::warning(String::from_str("Not applying alias to multiple selected repos")));
        }
        if self.selected.len() == 0 {
            return Some(Input::warning(String::from_str("No repo selected for alias")));
        }
        let alias = join(cmd, "-");
        let idx = self.selected[0];
        let ghost before = self.items@;
        let ghost pre = self@.items;
        let repo = &mut self.items[idx];
        repo.add_alias(alias);
        assert(self@.items =~= pre.update(idx as int, RepoV { alias: Some(joined(views(cmd@), "-"@)), ..pre[idx as int] }));
        assert forall|k: int| 0 <= k < self.items@.len() implies (#[trigger] self.items@[k]).wf() by {
            assert(before[k].wf());
            assert(self@.items[k].tags == pre[k].tags);
        }
        None
    }

    /// Hides every record whose name does not contain the words of `cmd`
    /// joined with `-`, replacing the previous filter. Selection and
    /// expansion are kept. No words shows every record again. The cursor
    /// stays if its record is still shown, else goes to the first shown one.
    pub fn filter_command(&mut self, cmd: &Vec<String>) -> (r: Option<Input>)
        requires
            old(self).wf(),
        ensures
            final(self).wf(),
            r.is_none(),
            filtered(old(self)@, final(self)@, joined(views(cmd@), "-"@)),
    {
        let search = join(cmd, "-");
        let ghost q = joined(views(cmd@), "-"@);
        let n = self.items.len();
        let mut hidden: Vec<usize> = Vec::new();
        let mut i: usize = 0;
        while i < n
            invariant
                n == self.items@.len(),
                self@ == old(self)@,
                search@ == q,
                i <= n,
                forall|k: int| 0 <= k < hidden@.len() ==> #[trigger] hidden@[k] < i,
                forall|k: int| 0 <= k < i ==> (hidden@.contains(k as usize) <==> !seq_contains(self@.items[k].name, q)),
            decreases n - i,
        {
            let matched = self.items[i].query(search.as_str(), QueryOpts::Name);
            let ghost pre = hidden@;
            if !matched {
                hidden.push(i);
            }
            assert forall|k: int| 0 <= k < i + 1 implies (hidden@.contains(k as usize) <==> !seq_contains(self@.items[k].name, q)) by {
                if k < i {
                    if hidden@.contains(k as usize) {
                        let m = choose|m: int| 0 <= m < hidden@.len() && hidden@[m] == k as usize;
                        if m < pre.len() {
                            assert(pre[m] == k as usize);
                        }
                    }
                    if pre.contains(k as usize) {
                        let m = choose|m: int| 0 <= m < pre.len() && pre[m] == k as usize;
                        assert(hidden@[m] == k as usize);
                    }
                } else {
                    if !matched {
                        assert(hidden@[hidden@.len() - 1] == i);
                    } else {
                        assert(hidden@ == pre);
                    }
                }
            }
            i = i + 1;
        }
        self.filter = hidden;
        let keep = match self.focus {
            Some(f) => f < n && !vec_contains(&self.filter, f),
            None => false,
        };
        if !keep {
            let mut j: usize = 0;
            while j < n && vec_contains(&self.filter, j)
                invariant
                    n == self.items@.len(),
                    j <= n,
                    forall|k: int| 0 <= k < j ==> !visible(self.filter@, k),
                decreases n - j,
            {
                j = j + 1;
            }
            if j < n {
                self.focus = Some(j);
            } else {
                self.focus = None;
            }
        }
        None
    }

    /// Empties the selection.
    pub fn reset_selected(&mut self)
        requires
            old(self).wf(),
        ensures
            final(self).wf(),
            final(self)@ == (RepoViewV { selected: Seq::empty(), ..old(self)@ }),
    {
        self.selected = Vec::new();
        assert(self.selected@ =~= Seq::<usize>::empty());
    }
}

} // verus!
