use crate::input::{Input, InputStatus};
use crate::repo::Repos;
use crate::repoview::{
    aliased, filtered, focus_selected, focus_toggled, moved_down, moved_up, tagged, RepoView,
    RepoViewV,
};
use crate::text::{joined, split_words, str_eq, views, words};
use vstd::prelude::*;
use vstd::string::*;

verus! {

/// A key press, as the interaction loop reports it.
#[derive(Debug, Clone, Copy, PartialEq, Eq, Structural)]
pub enum Key {
    Char(char),
    Enter,
    Backspace,
    Up,
    Down,
    Left,
    Right,
    /// Control-C.
    Interrupt,
    Other,
}

/// What the interaction loop does after a key.
#[derive(Debug)]
pub enum Action {
    /// Draw and wait for the next key.
    Continue,
    /// Leave the loop.
    Exit,
    /// Write a script that changes into this path, then leave the loop.
    Jump(String),
}

/// The interactive session: the navigation state and the command line.
pub struct Screen {
    pub repoview: RepoView,
    pub input: Input,
}

/// The words after the command word.
pub open spec fn args_of(ws: Seq<Seq<char>>) -> Seq<Seq<char>> {
    ws.subrange(1, ws.len() as int)
}

/// The command line is back in normal mode with `text`, shown as `status`.
pub open spec fn shows(i: Input, text: Seq<char>, status: InputStatus) -> bool {
    !i.editing && i.text@ == text && i.status == status
}

/// `n_s` is `o_s` after running the command typed into its command line.
pub open spec fn ran_command(o_s: Screen, n_s: Screen) -> bool {
    let ws = words(o_s.input.text@);
    let o = o_s.repoview@;
    let n = n_s.repoview@;
    let args = joined(args_of(ws), "-"@);
    if ws.len() == 0 {
        n == o && shows(n_s.input, "No command"@, InputStatus::Warning)
    } else if ws[0] == ":/"@ || ws[0] == ":f/"@ {
        filtered(o, n, args) && !n_s.input.editing && n_s.input.text@.len() == 0
    } else if ws[0] == ":t"@ {
        n == (RepoViewV { items: tagged(o, args_of(ws)), ..o }) && !n_s.input.editing
            && n_s.input.text@.len() == 0
    } else if ws[0] == ":a"@ {
        aliased(o, n, args) && !n_s.input.editing && (n_s.input.text@.len() == 0
            <==> o.selected.len() == 1) && (o.selected.len() != 1 ==> n_s.input.status
            == InputStatus::Warning)
    } else {
        n == o && !n_s.input.editing && n_s.input.text@ == o_s.input.text@
            && n_s.input.status == o_s.input.status
    }
}

/// `n_s` and action `r` follow from `o_s` and `key` in normal mode.
pub open spec fn normal_step(o_s: Screen, n_s: Screen, key: Key, r: Action) -> bool {
    let o = o_s.repoview@;
    let n = n_s.repoview@;
    let moving = if o.select_mode {
        focus_selected(o)
    } else {
        o
    };
    match key {
        Key::Char(c) => if c == 'q' {
            r is Exit && n == o && n_s.input == o_s.input
        } else if c == 'v' {
            r is Continue && n == focus_selected(o) && n_s.input == o_s.input
        } else if c == 'V' {
            r is Continue && n == focus_selected(RepoViewV { select_mode: true, ..o }) && n_s.input == o_s.input
        } else if c == ':' || c == '/' {
            r is Continue && n == o && n_s.input.editing && n_s.input.text@ == ":"@ && n_s.input.status == o_s.input.status
        } else {
            r is Continue && n == o && n_s.input == o_s.input
        },
        Key::Down => r is Continue && moved_down(moving, n) && n_s.input == o_s.input,
        Key::Up => r is Continue && moved_up(moving, n) && n_s.input == o_s.input,
        Key::Left | Key::Right => r is Continue && n == focus_toggled(o) && n_s.input == o_s.input,
        Key::Enter => n == o && n_s.input == o_s.input && match o.focus {
            Some(f) => r matches Action::Jump(p) && p@ == o.items[f as int].path,
            None => r is Exit,
        },
        Key::Interrupt => r is Exit && n == o && n_s.input == o_s.input,
        _ => r is Continue && n == o && n_s.input == o_s.input,
    }
}

/// `n_s` and action `r` follow from `o_s` and `key` in edit mode.
pub open spec fn editing_step(o_s: Screen, n_s: Screen, key: Key, r: Action) -> bool {
    let o = o_s.repoview@;
    let n = n_s.repoview@;
    match key {
        Key::Interrupt => r is Exit && n == o && n_s.input == o_s.input,
        Key::Char(c) => r is Continue && n == o && n_s.input.editing && n_s.input.text@ == o_s.input.text@.push(c)
            && n_s.input.status == o_s.input.status,
        Key::Backspace => r is Continue && n == o && n_s.input.editing && n_s.input.status == o_s.input.status
            && n_s.input.text@ == if o_s.input.text@.len() > 1 {
            o_s.input.text@.drop_last()
        } else {
            o_s.input.text@
        },
        Key::Enter => r is Continue && ran_command(o_s, n_s),
        _ => r is Continue && n == o && n_s.input == o_s.input,
    }
}

impl Screen {
    pub open spec fn wf(&self) -> bool {
        self.repoview.wf()
    }

    /// A session over `repos`, in normal mode.
    pub fn new(repos: Repos) -> (r: Self)
        requires
            repos.wf(),
        ensures
            r.wf(),
            r.repoview@.items == repos@,
            r.repoview@.focus == if repos@.len() > 0 {
                Some(0usize)
            } else {
                None
            },
            r.repoview@.selected.len() == 0,
            r.repoview@.expanded.len() == 0,
            r.repoview@.hidden.len() == 0,
            !r.repoview@.select_mode,
            !r.input.editing,
            r.input.text@.len() == 0,
    {
        Self { repoview: RepoView::new(repos), input: Input::default() }
    }

    /// Applies one key press: in edit mode it edits or submits the command
    /// line, in normal mode it moves, selects, expands, opens the command
    /// line or ends the session. Control-C always ends it.
    pub fn handle_key(&mut self, key: Key) -> (r: Action)
        requires
            old(self).wf(),
        ensures
            final(self).wf(),
            old(self).input.editing ==> editing_step(*old(self), *final(self), key, r),
            !old(self).input.editing ==> normal_step(*old(self), *final(self), key, r),
    {
        if let Key::Interrupt = key {
            return Action::Exit;
        }
        if self.input.is_editing() {
            match key {
                Key::Char(x) => self.input.push(x),
                Key::Enter => self.parse_command(),
                Key::Backspace => self.input.pop(),
                _ => {},
            }
            return Action::Continue;
        }
        match key {
            Key::Char(c) => {
                if c == 'q' {
                    return Action::Exit;
                } else if c == 'v' {
                    self.repoview.select_current();
                } else if c == 'V' {
                    self.repoview.select_range();
                } else if c == ':' || c == '/' {
                    self.input.editing(true);
                    proof {
                        reveal_strlit(":");
                    }
                }
                Action::Continue
            },
            Key::Down => {
                if self.repoview.select_mode() {
                    self.repoview.select_current();
                }
                self.repoview.next();
                Action::Continue
            },
            Key::Up => {
                if self.repoview.select_mode() {
                    self.repoview.select_current();
                }
                self.repoview.previous();
                Action::Continue
            },
            Key::Left | Key::Right => {
                self.repoview.toggle_expanded();
                Action::Continue
            },
            Key::Enter => match self.repoview.curr() {
                Some(repo) => Action::Jump(repo.path.clone()),
                None => Action::Exit,
            },
            _ => Action::Continue,
        }
    }

    /// Runs the command typed into the command line: `:/` or `:f/` filter,
    /// `:t` tag, `:a` alias. The line then leaves edit mode; it is emptied,
    /// or holds the command's warning. An unknown command only leaves edit
    /// mode; an empty line warns.
    pub fn parse_command(&mut self)
        requires
            old(self).wf(),
        ensures
            final(self).wf(),
            ran_command(*old(self), *final(self)),
    {
        let text = self.input.text();
        let ws = split_words(text.as_str());
        if ws.len() == 0 {
            self.input = Input::warning(String::from_str("No command"));
            proof {
                reveal_strlit("No command");
            }
            return ;
        }
        let mut rest: Vec<String> = Vec::new();
        let mut k: usize = 1;
        while k < ws.len()
            invariant
                1 <= k <= ws@.len(),
                views(rest@) == views(ws@).subrange(1, k as int),
            decreases ws@.len() - k,
        {
            let w = ws[k].clone();
            let ghost pre = rest@;
            rest.push(w);
            assert(views(rest@) =~= views(pre).push(w@));
            assert(views(ws@).subrange(1, k + 1) =~= views(ws@).subrange(1, k as int).push(w@));
            k = k + 1;
        }
        let cmd = ws[0].as_str();
        let res = if str_eq(cmd, ":/") || str_eq(cmd, ":f/") {
            self.repoview.filter_command(&rest)
        } else if str_eq(cmd, ":t") {
            self.repoview.tag_command(&rest)
        } else if str_eq(cmd, ":a") {
            self.repoview.alias_command(&rest)
        } else {
            self.input.editing(false);
            return ;
        };
        self.input.editing(false);
        match res {
            Some(i) => self.input = i,
            None => self.input.clear(),
        }
    }
}

} // verus!
