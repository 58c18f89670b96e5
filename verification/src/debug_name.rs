//! Names of types and items, as shown when debugging.

use disqualified::ShortName;
use std::borrow::Cow;
use vstd::prelude::*;

verus! {

/// What `disqualified::ShortName` displays of a full name: the name with the
/// module paths left out, as its implementation of `Display` writes it.
pub uninterp spec fn short_form(full_name: Seq<char>) -> Seq<char>;

/// Writes `disqualified::ShortName` of `name` into a `String`, through its
/// implementation of `Display`. Nothing is proved of the result: it is given
/// the name [`short_form`], which holds because the implementation reads the
/// characters of `name` and nothing else.
#[verifier::external_body]
fn shortened(name: &Cow<'_, str>) -> (short: String)
    ensures
        short@ == short_form(name@),
{
    ShortName(name.as_ref()).to_string()
}

/// A name to show when debugging.
#[derive(Debug, PartialEq, Eq)]
pub struct DebugName<'a> {
    name: Cow<'a, str>,
}

impl<'a> View for DebugName<'a> {
    type V = Seq<char>;

    closed spec fn view(&self) -> Seq<char> {
        self.name@
    }
}

impl<'a> From<Cow<'a, str>> for DebugName<'a> {
    fn from(value: Cow<'a, str>) -> (name: Self) {
        DebugName { name: value }
    }
}

impl<'a> vstd::std_specs::convert::FromSpecImpl<Cow<'a, str>> for DebugName<'a> {
    open spec fn obeys_from_spec() -> bool {
        true
    }

    closed spec fn from_spec(value: Cow<'a, str>) -> Self {
        DebugName { name: value }
    }
}

impl<'a> DebugName<'a> {
    /// A name made from a text holds that text.
    pub proof fn lemma_from_keeps_the_text(value: Cow<'a, str>)
        ensures
            <DebugName<'a> as vstd::std_specs::convert::FromSpec<Cow<'a, str>>>::from_spec(value)@
                == value@,
    {
    }

    /// A name that borrows its text.
    pub fn borrowed(value: &'a str) -> (name: Self)
        ensures
            name@ == value@,
    {
        DebugName { name: Cow::Borrowed(value) }
    }

    /// A name that owns its text.
    pub fn owned(value: String) -> (name: Self)
        ensures
            name@ == value@,
    {
        DebugName { name: Cow::Owned(value) }
    }

    /// The name without its module paths.
    pub fn as_shortname(&self) -> (short: String)
        ensures
            short@ == short_form(self@),
    {
        shortened(&self.name)
    }
}

} // verus!
