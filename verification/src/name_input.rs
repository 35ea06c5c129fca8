//! Name entry for a qualifying score: printable characters append,
//! backspace deletes, the newline that ends entry is ignored here.

use vstd::prelude::*;
use crate::text::{pop_char, push_char};

verus! {

/// The name being typed for a qualifying score.
#[derive(Debug)]
pub struct NameInput {
    pub name: String,
}

/// What one polled character does to the entered name: newline is
/// ignored, backspace deletes the last character, anything else is
/// appended.
pub open spec fn name_step(name: Seq<char>, typed: Option<char>) -> Seq<char> {
    match typed {
        Option::None => name,
        Option::Some(c) => if c == '\n' {
            name
        } else if c == '\u{8}' {
            if name.len() > 0 {
                name.drop_last()
            } else {
                name
            }
        } else {
            name.push(c)
        },
    }
}

impl NameInput {
    /// An empty name.
    pub fn new() -> (r: NameInput)
        ensures
            r.name@ == Seq::<char>::empty(),
    {
        NameInput { name: String::new() }
    }

    /// Applies one polled character to the entered name.
    pub fn update(&mut self, typed: Option<char>)
        ensures
            final(self).name@ == name_step(old(self).name@, typed),
    {
        match typed {
            Option::Some(c) => {
                if c == '\n' {
                } else if c == '\u{8}' {
                    pop_char(&mut self.name);
                } else {
                    push_char(&mut self.name, c);
                }
            },
            Option::None => {},
        }
    }
}

} // verus!
