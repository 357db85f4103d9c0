//! Lifetime exercises: references that outlive a call, structs that
//! borrow, and a callback run once.

use crate::ownership::first_space_index;
use crate::ownership::lemma_first_space_index;
use vstd::prelude::*;
use vstd::string::*;

verus! {

/// The longer of two strings, by UTF-8 byte length; ties go to the
/// second.
pub fn longest<'a>(s1: &'a str, s2: &'a str) -> (r: &'a str)
    ensures
        r@ == (if s1.spec_bytes().len() as usize > s2.spec_bytes().len() as usize {
            s1@
        } else {
            s2@
        }),
{
    if s1.len() > s2.len() {
        s1
    } else {
        s2
    }
}

/// The first word of `s`: everything before the first space, or all
/// of `s` when there is none.  Positions count characters, which on
/// ASCII input coincide with byte offsets.
pub fn first_word<'a>(s: &'a str) -> (r: &'a str)
    ensures
        r@ == s@.take(first_space_index(s@)),
{
    let len = s.unicode_len();
    let mut i: usize = 0;
    while i < len
        invariant
            0 <= i <= len,
            len == s@.len(),
            forall|k: int| 0 <= k < i ==> s@[k] != ' ',
        decreases len - i,
    {
        let c = s.get_char(i);
        if c == ' ' {
            proof {
                lemma_first_space_index(s@);
            }
            return s.substring_char(0, i);
        }
        i += 1;
    }
    proof {
        lemma_first_space_index(s@);
        assert(s@.take(len as int) =~= s@);
    }
    s
}

/// A quoted part of a longer text.
#[derive(Debug)]
pub struct ImportantExcerpt<'a> {
    pub part: &'a str,
}

impl<'a> ImportantExcerpt<'a> {
    /// Hands the quoted part back; the announcement is the caller's
    /// affair.
    pub fn announce_and_return_part(&self, announcement: &str) -> (r: &str)
        ensures
            r@ == self.part@,
    {
        let _ = announcement;
        self.part
    }
}

/// A book whose author entry borrows from elsewhere.
#[derive(Debug)]
pub struct Book<'a> {
    pub author: &'a str,
    pub title: String,
    pub year: u32,
}

impl<'a> Book<'a> {
    /// The borrowed author entry.
    pub fn get_reference(&self) -> (r: &str)
        ensures
            r@ == self.author@,
    {
        self.author
    }

    /// A borrow of the owned title.
    pub fn get_title(&self) -> (r: &str)
        ensures
            r@ == self.title@,
    {
        self.title.as_str()
    }
}

/// Runs the callback once.
pub fn exec_with_callback<F: FnOnce()>(callback: F)
    requires
        call_requires(callback, ()),
    ensures
        call_ensures(callback, (), ()),
{
    callback();
}

} // verus!
