//! Ownership and borrowing exercises: moving strings in and out of
//! functions, borrowing for length, mutating through a reference, and
//! slicing out the first word.

use std::rc::Rc;
use vstd::prelude::*;
use vstd::string::*;

verus! {

/// Smallest index of a space in `s`, or `s.len()` when there is none.
pub open spec fn first_space_index(s: Seq<char>) -> int
    decreases s.len(),
{
    if s.len() == 0 {
        0
    } else if s[0] == ' ' {
        0
    } else {
        1 + first_space_index(s.drop_first())
    }
}

/// `first_space_index` points at the first space: everything before
/// it is not a space, and it lands on a space unless there is none.
pub proof fn lemma_first_space_index(s: Seq<char>)
    ensures
        0 <= first_space_index(s) <= s.len(),
        first_space_index(s) < s.len() ==> s[first_space_index(s)] == ' ',
        forall|k: int| 0 <= k < first_space_index(s) ==> s[k] != ' ',
    decreases s.len(),
{
    if s.len() > 0 && s[0] != ' ' {
        let rest = s.drop_first();
        lemma_first_space_index(rest);
        assert forall|k: int| 0 <= k < first_space_index(s) implies s[k] != ' ' by {
            if k > 0 {
                assert(s[k] == rest[k - 1]);
            }
        }
    }
}

/// Hands a freshly owned greeting to the caller.
pub fn gives_ownership() -> (r: String)
    ensures
        r@ == "hello"@,
{
    String::from_str("hello")
}

/// Takes ownership and hands the very same string back.
pub fn takes_and_gives_back(s: String) -> (r: String)
    ensures
        r == s,
{
    s
}

/// Character count of a borrowed string.
pub fn calculate_length(s: &String) -> (r: usize)
    ensures
        r == s@.len(),
{
    s.as_str().unicode_len()
}

/// Appends a greeting tail through a mutable borrow.
pub fn change(s: &mut String)
    ensures
        final(s)@ == old(s)@ + ", world!"@,
{
    s.append(", world!");
}

/// Index just past the first word: the position of the first space,
/// or the whole length when there is none.  Positions count
/// characters, which on ASCII input coincide with byte offsets.
pub fn first_word(s: &String) -> (r: usize)
    ensures
        r == first_space_index(s@),
{
    let st = s.as_str();
    let len = st.unicode_len();
    let mut i: usize = 0;
    while i < len
        invariant
            0 <= i <= len,
            len == st@.len(),
            st@ == s@,
            forall|k: int| 0 <= k < i ==> s@[k] != ' ',
        decreases len - i,
    {
        let c = st.get_char(i);
        if c == ' ' {
            proof {
                lemma_first_space_index(s@);
            }
            return i;
        }
        i += 1;
    }
    proof {
        lemma_first_space_index(s@);
    }
    len
}

/// The first word of `s`: everything before the first space, or all
/// of `s` when there is none.  Positions count characters, which on
/// ASCII input coincide with byte offsets.
pub fn first_word2<'a>(s: &'a str) -> (r: &'a str)
    ensures
        r@ == s@.take(first_space_index(s@)),
{
    let len = s.unicode_len();
    let mut i: usize = 0;
    while i < len
        invariant
            0 <= i <= len,
            len == s@.len(),
            forall|k: int| 0 <= k < i ==> s@[k] != ' ',
        decreases len - i,
    {
        let c = s.get_char(i);
        if c == ' ' {
            proof {
                lemma_first_space_index(s@);
            }
            return s.substring_char(0, i);
        }
        i += 1;
    }
    proof {
        lemma_first_space_index(s@);
        assert(s@.take(len as int) =~= s@);
    }
    s
}

/// A fresh owned string, moved out to the caller.
pub fn return_string_v1() -> (r: String)
    ensures
        r@ == "hello"@,
{
    String::from_str("hello")
}

/// A borrowed string that lives as long as the program.
pub fn return_string_v2() -> (r: &'static str)
    ensures
        r@ == "hello"@,
{
    "hello"
}

/// A reference-counted string, shared instead of moved.
pub fn return_string_v3() -> (r: Rc<String>)
    ensures
        r@ == "hello"@,
{
    Rc::new(String::from_str("hello"))
}

/// A borrow of the first element.
pub fn get_first(v: &Vec<String>) -> (r: &str)
    requires
        v@.len() > 0,
    ensures
        r@ == v@[0]@,
{
    v[0].as_str()
}

} // verus!
