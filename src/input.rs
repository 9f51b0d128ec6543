use vstd::prelude::*;
use vstd::string::*;

verus! {

/// Relies on `String::push`: appends the character to the string.
#[verifier::external_body]
fn push_char(s: &mut String, c: char)
    ensures
        final(s)@ == old(s)@.push(c),
{
    s.push(c);
}

/// Relies on `String::pop`: removes and returns the last character, if any.
#[verifier::external_body]
fn pop_char(s: &mut String) -> (r: Option<char>)
    ensures
        old(s)@.len() == 0 ==> r.is_none() && final(s)@ == old(s)@,
        old(s)@.len() > 0 ==> r == Some(old(s)@.last()) && final(s)@ == old(s)@.drop_last(),
{
    s.pop()
}

/// How the command line's text is shown.
#[derive(Debug, Clone, Copy, PartialEq, Eq, Structural)]
pub enum InputStatus {
    Error,
    Warning,
    Info,
}

/// The command line: an edit buffer, or a message after a command.
#[derive(Debug, PartialEq, Eq)]
pub struct Input {
    pub editing: bool,
    pub text: String,
    pub status: InputStatus,
}

impl Input {
    /// A message shown as an error.
    pub fn error(msg: String) -> (r: Self)
        ensures
            !r.editing,
            r.text@ == msg@,
            r.status == InputStatus::Error,
    {
        Self { editing: false, text: msg, status: InputStatus::Error }
    }

    /// A message shown as a warning.
    pub fn warning(msg: String) -> (r: Self)
        ensures
            !r.editing,
            r.text@ == msg@,
            r.status == InputStatus::Warning,
    {
        Self { editing: false, text: msg, status: InputStatus::Warning }
    }

    /// Appends a typed character.
    pub fn push(&mut self, v: char)
        ensures
            final(self).text@ == old(self).text@.push(v),
            final(self).editing == old(self).editing,
            final(self).status == old(self).status,
    {
        push_char(&mut self.text, v);
    }

    /// Removes the last character, but never the prompt: a text of one
    /// character or less is left as it is.
    pub fn pop(&mut self)
        ensures
            final(self).text@ == if old(self).text@.len() > 1 {
                old(self).text@.drop_last()
            } else {
                old(self).text@
            },
            final(self).editing == old(self).editing,
            final(self).status == old(self).status,
    {
        if self.text.as_str().unicode_len() > 1 {
            pop_char(&mut self.text);
        }
    }

    /// Enters (`true`) or leaves (`false`) edit mode; entering seeds the
    /// buffer with the prompt `:`.
    pub fn editing(&mut self, v: bool)
        ensures
            final(self).editing == v,
            final(self).text@ == if v {
                ":"@
            } else {
                old(self).text@
            },
            final(self).status == old(self).status,
    {
        self.editing = v;
        if v {
            self.text = String::from_str(":");
        }
    }

    pub fn is_editing(&self) -> (r: bool)
        ensures
            r == self.editing,
    {
        self.editing
    }

    pub fn text(&self) -> (r: String)
        ensures
            r@ == self.text@,
    {
        self.text.clone()
    }

    /// Empties the text.
    pub fn clear(&mut self)
        ensures
            final(self).text@ == Seq::<char>::empty(),
            final(self).editing == old(self).editing,
            final(self).status == old(self).status,
    {
        self.text = String::new()
    }
}

impl Default for Input {
    fn default() -> (r: Self)
        ensures
            !r.editing,
            r.text@ == Seq::<char>::empty(),
            r.status == InputStatus::Info,
    {
        Self { editing: false, text: String::new(), status: InputStatus::Info }
    }
}

} // verus!
