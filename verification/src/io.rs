//! The prompt of a line-oriented session, and what a line read from the
//! terminal holds. Reading and writing themselves are left to the caller.

use crate::text::{chars_of, push_range};
use vstd::prelude::*;
use vstd::string::*;

verus! {

/// The state of a terminal session: the prompt shown before each line.
pub struct UserIO {
    prefix: String,
}

impl View for UserIO {
    type V = Seq<char>;

    /// The prompt.
    closed spec fn view(&self) -> Seq<char> {
        self.prefix@
    }
}

impl UserIO {
    /// A session with the prompt `user> `.
    pub fn new() -> (r: UserIO)
        ensures
            r@ == "user> "@,
    {
        UserIO { prefix: String::from_str("user> ") }
    }

    /// Makes `prefix` the prompt.
    pub fn set_prefix(&mut self, prefix: String)
        ensures
            final(self)@ == prefix@,
    {
        self.prefix = prefix;
    }

    /// The text to write before a line is read: the prompt, with no newline
    /// after it.
    pub fn greet(&self) -> (r: String)
        ensures
            r@ == self@,
    {
        self.prefix.clone()
    }

    /// The line that was entered, given the text `input` that one read
    /// delivered and the number `bytes` of bytes it took: nothing if the read
    /// took no byte, which is the end of the input; otherwise `input` without
    /// its last character, the line's terminator.
    pub fn line_from(input: &str, bytes: usize) -> (r: Option<String>)
        ensures
            bytes == 0 ==> r is None,
            bytes != 0 ==> r is Some && r->Some_0@ == (if input@.len() == 0 {
                input@
            } else {
                input@.drop_last()
            }),
    {
        if bytes == 0 {
            return None;
        }
        let chars = chars_of(input);
        let mut line = String::new();
        if chars.len() > 0 {
            push_range(&mut line, &chars, 0, chars.len() - 1);
        }
        Some(line)
    }
}

} // verus!
