//! Things that can be summed up in a line.

use vstd::prelude::*;
use vstd::string::*;

verus! {

/// A one-line account of a value.
pub trait Summary {
    spec fn summary_view(&self) -> Seq<char>;

    fn summarize(&self) -> (r: String)
        ensures
            r@ == self.summary_view(),
    ;
}

pub struct NewsArticle {
    pub headline: String,
    pub location: String,
    pub author: String,
}

impl Summary for NewsArticle {
    /// `headline, by author (location)`
    open spec fn summary_view(&self) -> Seq<char> {
        self.headline@ + ", by "@ + self.author@ + " ("@ + self.location@ + ")"@
    }

    fn summarize(&self) -> (r: String) {
        let mut s = self.headline.clone();
        s.append(", by ");
        s.append(self.author.as_str());
        s.append(" (");
        s.append(self.location.as_str());
        s.append(")");
        s
    }
}

pub struct Tweet {
    pub username: String,
    pub content: String,
    pub reply: bool,
    pub retweet: bool,
}

impl Summary for Tweet {
    /// `username: content`
    open spec fn summary_view(&self) -> Seq<char> {
        self.username@ + ": "@ + self.content@
    }

    fn summarize(&self) -> (r: String) {
        let mut s = self.username.clone();
        s.append(": ");
        s.append(self.content.as_str());
        s
    }
}

/// Names the user behind a value; by default, a stand-in name.
pub trait ShowUser {
    fn summarize_user(&self) -> (r: String) {
        String::from_str("Fred Bloggs")
    }
}

impl ShowUser for NewsArticle {

}

/// A summary built from the author's name alone.
pub trait AnotherSummary {
    spec fn author_view(&self) -> Seq<char>;

    fn summarize_author(&self) -> (r: String)
        ensures
            r@ == self.author_view(),
    ;

    /// `blah blah: author`
    fn summarize(&self) -> (r: String)
        ensures
            r@ == "blah blah: "@ + self.author_view(),
    {
        let mut s = String::from_str("blah blah: ");
        let author = self.summarize_author();
        s.append(author.as_str());
        s
    }
}

pub fn notify4(item: impl Summary + std::fmt::Display) {
}

pub fn notify5<T: Summary + std::fmt::Display>(item: T) {
}

/// A tweet, seen only as something that sums up.
fn returns_summarisable() -> (r: Tweet)
    ensures
        r.summary_view() == "Smaud"@ + ": "@ + "blah blah blah"@,
{
    Tweet {
        username: String::from_str("Smaud"),
        content: String::from_str("blah blah blah"),
        reply: false,
        retweet: false,
    }
}

} // verus!
