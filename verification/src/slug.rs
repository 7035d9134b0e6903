//! URL slugs for challenge names.

use vstd::prelude::*;

verus! {

/// The slug of a piece of text: lower-case letters, digits and single
/// dashes. The result depends on the characters alone.
pub uninterp spec fn slug_of(s: Seq<char>) -> Seq<char>;

/// Relies on `slug::slugify`: the result consists of `a`–`z`, `0`–`9` and
/// `-` only, never starts or ends with `-`, and depends on the input
/// characters alone.
#[verifier::external_body]
fn slugify_str(s: &str) -> (r: String)
    ensures
        r@ == slug_of(s@),
        forall|i: int|
            0 <= i < r@.len() ==> (('a' <= r@[i] && r@[i] <= 'z') || ('0' <= r@[i] && r@[i] <= '9')
                || r@[i] == '-'),
        r@.len() > 0 ==> r@[0] != '-' && r@[r@.len() - 1] != '-',
        s@.len() == 0 ==> r@.len() == 0,
{
    slug::slugify(s)
}

/// A piece of text destined for a URL path segment.
pub struct Slug<'a>(pub &'a str);

impl<'a> Slug<'a> {
    /// The slug itself, as it appears in a URL.
    pub fn render(&self) -> (r: String)
        ensures
            r@ == slug_of(self.0@),
    {
        slugify_str(self.0)
    }
}

} // verus!
