//! Trait exercises: a summary trait with hand-written impls, a
//! default-method trait, self-introduction, and a constructor trait.

use crate::numeral::dec_digits;
use vstd::prelude::*;
use vstd::string::*;

verus! {

/// Behaviour shared by everything that can summarize itself.  Each
/// implementing type says in `spec_summary` what its summary is, and
/// `summarize` must produce exactly that.
pub trait Summary {
    /// The summary text this type promises.
    spec fn spec_summary(&self) -> Seq<char>;

    /// The summary, as promised.
    fn summarize(&self) -> (r: String)
        ensures
            r@ == self.spec_summary(),
    ;
}

/// Behaviour with a stock wording for types that do not bring their
/// own.
pub trait DefaultSummary {
    /// The stock summary.
    fn summarize(&self) -> (r: String)
        ensures
            r@ == "(阅读更多...)"@,
    {
        String::from_str("(阅读更多...)")
    }

    /// Hands on whatever `summarize` says.
    fn default_summary(&self) -> (r: String)
        ensures
            r@ == "(阅读更多...)"@,
    {
        DefaultSummary::summarize(self)
    }
}

/// Behaviour of introducing oneself.
pub trait Identify {
    /// The introduction this type promises.
    spec fn spec_identity(&self) -> Seq<char>;

    /// The introduction, as promised.
    fn who_am_i(&self) -> (r: String)
        ensures
            r@ == self.spec_identity(),
    ;
}

/// A dog, by name and age.
#[derive(Debug)]
pub struct Dog {
    pub name: String,
    pub age: u32,
}

impl Summary for Dog {
    open spec fn spec_summary(&self) -> Seq<char> {
        self.name@ + " 是 "@ + dec_digits(self.age as nat) + " 岁的狗"@
    }

    fn summarize(&self) -> (r: String) {
        let mut r = self.name.clone();
        r.append(" 是 ");
        let age = crate::numeral::u64_to_string(self.age as u64);
        r.append(age.as_str());
        r.append(" 岁的狗");
        r
    }
}

impl Identify for Dog {
    open spec fn spec_identity(&self) -> Seq<char> {
        "我是 "@ + self.name@ + ", 品种是狗"@
    }

    fn who_am_i(&self) -> (r: String) {
        let mut r = String::from_str("我是 ");
        r.append(self.name.as_str());
        r.append(", 品种是狗");
        r
    }
}

/// A news article.
#[derive(Debug)]
pub struct NewsArticle {
    pub headline: String,
    pub location: String,
    pub author: String,
    pub content: String,
}

impl Summary for NewsArticle {
    open spec fn spec_summary(&self) -> Seq<char> {
        self.headline@ + ", by "@ + self.author@ + " ("@ + self.location@ + ")"@
    }

    fn summarize(&self) -> (r: String) {
        let mut r = self.headline.clone();
        r.append(", by ");
        r.append(self.author.as_str());
        r.append(" (");
        r.append(self.location.as_str());
        r.append(")");
        r
    }
}

/// A short post.
#[derive(Debug)]
pub struct Tweet {
    pub username: String,
    pub content: String,
    pub reply: bool,
    pub retweet: bool,
}

impl Summary for Tweet {
    open spec fn spec_summary(&self) -> Seq<char> {
        "@"@ + self.username@ + ": "@ + self.content@
    }

    fn summarize(&self) -> (r: String) {
        let mut r = String::from_str("@");
        r.append(self.username.as_str());
        r.append(": ");
        r.append(self.content.as_str());
        r
    }
}

impl DefaultSummary for Tweet {
}

/// A person, by name and age.
#[derive(Debug)]
pub struct Person {
    pub name: String,
    pub age: u32,
}

impl Identify for Person {
    open spec fn spec_identity(&self) -> Seq<char> {
        "我是 "@ + self.name@ + ", "@ + dec_digits(self.age as nat) + "岁"@
    }

    fn who_am_i(&self) -> (r: String) {
        let mut r = String::from_str("我是 ");
        r.append(self.name.as_str());
        r.append(", ");
        let age = crate::numeral::u64_to_string(self.age as u64);
        r.append(age.as_str());
        r.append("岁");
        r
    }
}

/// Construction shared across shapes.
pub trait New: Sized {
    /// Builds the value from a width and a height.
    fn new(width: u32, height: u32) -> Self;
}

/// An axis-aligned rectangle built through the [`New`] trait.
#[derive(Debug, Clone, Copy, PartialEq, Eq, Structural)]
pub struct Rectangle {
    pub width: u32,
    pub height: u32,
}

impl New for Rectangle {
    fn new(width: u32, height: u32) -> (r: Rectangle)
        ensures
            r.width == width,
            r.height == height,
    {
        Rectangle { width, height }
    }
}

} // verus!
