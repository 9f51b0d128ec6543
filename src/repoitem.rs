use crate::repo::{Repo, RepoV};
use vstd::prelude::*;
use vstd::string::*;

verus! {

/// Marker in front of a row whose details are hidden.
pub open spec fn collapsed_marker() -> Seq<char> {
    "▶ "@
}

/// Marker in front of a row whose details are shown.
pub open spec fn expanded_marker() -> Seq<char> {
    "▼ "@
}

/// One row of the list: a record and how it is laid out.
pub struct RepoItem<'a> {
    pub repo: &'a Repo,
    pub longest_name: usize,
    pub indent: u8,
    pub expanded: bool,
    pub selected: bool,
    pub status_start: u8,
}

impl<'a> RepoItem<'a> {
    pub fn new(
        repo: &'a Repo,
        longest_name: usize,
        indent: u8,
        expanded: bool,
        selected: bool,
        status_start: u8,
    ) -> (r: Self)
        ensures
            r.repo@ == repo@,
            r.longest_name == longest_name,
            r.indent == indent,
            r.expanded == expanded,
            r.selected == selected,
            r.status_start == status_start,
    {
        Self { repo, longest_name, indent, expanded, selected, status_start }
    }

    /// Marker in front of the name.
    pub fn prefix(&self) -> (r: &'static str)
        ensures
            r@ == if self.expanded {
                expanded_marker()
            } else {
                collapsed_marker()
            },
    {
        if self.expanded {
            "▼ "
        } else {
            "▶ "
        }
    }

    /// Spaces after the name so that the columns after it line up.
    pub fn padding(&self) -> (r: usize)
        requires
            self.repo@.name.len() <= self.longest_name,
            self.longest_name + 3 <= usize::MAX,
        ensures
            r == self.longest_name - self.repo@.name.len() + 3,
    {
        self.longest_name - self.repo.name.as_str().unicode_len() + 3
    }
}

/// A record as printed straight to the terminal, with its marks.
pub struct FlatPrinter {
    repo: Repo,
    width: usize,
    height: usize,
    focused: bool,
    selected: bool,
    expanded: bool,
}

/// Plain values of a printer.
pub struct FlatPrinterV {
    pub repo: RepoV,
    pub width: usize,
    pub height: usize,
    pub focused: bool,
    pub selected: bool,
    pub expanded: bool,
}

impl View for FlatPrinter {
    type V = FlatPrinterV;

    closed spec fn view(&self) -> FlatPrinterV {
        FlatPrinterV {
            repo: self.repo@,
            width: self.width,
            height: self.height,
            focused: self.focused,
            selected: self.selected,
            expanded: self.expanded,
        }
    }
}

/// Lines a record takes: its main line, and four detail lines when expanded.
pub open spec fn printed_lines(expanded: bool) -> usize {
    if expanded {
        5
    } else {
        1
    }
}

impl FlatPrinter {
    /// A collapsed, unmarked printer one line high.
    pub fn new(repo: Repo, width: usize) -> (r: Self)
        ensures
            r@ == (FlatPrinterV {
                repo: repo@,
                width,
                height: 1,
                focused: false,
                selected: false,
                expanded: false,
            }),
    {
        Self { repo, width, height: 1, focused: false, selected: false, expanded: false }
    }

    pub fn height(&self) -> (r: usize)
        ensures
            r == self@.height,
    {
        self.height
    }

    pub fn width(&self) -> (r: usize)
        ensures
            r == self@.width,
    {
        self.width
    }

    pub fn is_focused(&self) -> (r: bool)
        ensures
            r == self@.focused,
    {
        self.focused
    }

    pub fn is_selected(&self) -> (r: bool)
        ensures
            r == self@.selected,
    {
        self.selected
    }

    pub fn is_expanded(&self) -> (r: bool)
        ensures
            r == self@.expanded,
    {
        self.expanded
    }

    pub fn toggle_selected(&mut self)
        ensures
            final(self)@ == (FlatPrinterV { selected: !old(self)@.selected, ..old(self)@ }),
    {
        self.selected = !self.selected
    }

    pub fn toggle_expanded(&mut self)
        ensures
            final(self)@ == (FlatPrinterV { expanded: !old(self)@.expanded, ..old(self)@ }),
    {
        self.expanded = !self.expanded
    }

    pub fn toggle_focused(&mut self)
        ensures
            final(self)@ == (FlatPrinterV { focused: !old(self)@.focused, ..old(self)@ }),
    {
        self.focused = !self.focused
    }

    pub fn get_repo(&self) -> (r: &Repo)
        ensures
            r@ == self@.repo,
    {
        &self.repo
    }

    /// Columns between the name and the status on the main line.
    pub fn name_padding(&self, longest_name: usize) -> (r: usize)
        requires
            self@.repo.name.len() <= longest_name,
            longest_name + 5 <= usize::MAX,
        ensures
            r == 5 + longest_name - self@.repo.name.len(),
    {
        5 + (longest_name - self.repo.name.as_str().unicode_len())
    }

    /// Records that the printer was drawn: its height is the lines it took.
    pub fn printed(&mut self) -> (r: usize)
        ensures
            r == printed_lines(old(self)@.expanded),
            final(self)@ == (FlatPrinterV { height: r, ..old(self)@ }),
    {
        let lines: usize = if self.expanded {
            5
        } else {
            1
        };
        self.height = lines;
        lines
    }
}

} // verus!
