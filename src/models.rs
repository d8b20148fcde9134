//! The records that the site's handlers take and store, and the one decision
//! of the RSVP store that is not a database call.

use vstd::prelude::*;

verus! {

/// One stored RSVP.
pub struct Rsvp {
    pub id: u32,
    pub name: String,
    pub mustard: String,
}

/// A message sent through the contact form.
pub struct Email {
    pub name: String,
    pub address: String,
    pub message: String,
}

/// The RSVP store. Its queries run against the database; what is decided on
/// their results stands here.
pub struct Data;

/// What `str::to_lowercase` makes of `s`.
pub uninterp spec fn lower_of(s: Seq<char>) -> Seq<char>;

/// Relies on `str::to_lowercase`: the lowercase form of `s`, which depends on
/// its characters alone.
#[verifier::external_body]
fn lowercase(s: &str) -> (r: String)
    ensures
        r@ == lower_of(s@),
{
    s.to_lowercase()
}

/// Some table name of `names` is `rsvp`, compared in lowercase.
pub open spec fn names_rsvp_table(names: Seq<String>) -> bool {
    exists|i: int| 0 <= i < names.len() && lower_of(#[trigger] names[i]@) == "rsvp"@
}

impl Data {
    /// Whether the table names listed by the database include the RSVP
    /// table; when they do not, the store creates it.
    pub fn has_rsvp_table(names: &Vec<String>) -> (r: bool)
        ensures
            r == names_rsvp_table(names@),
    {
        let want = String::from_str("rsvp");
        let mut found = false;
        let mut i: usize = 0;
        while i < names.len()
            invariant
                i <= names.len(),
                want@ == "rsvp"@,
                found == exists|j: int| 0 <= j < i && lower_of(#[trigger] names@[j]@) == "rsvp"@,
            decreases names.len() - i,
        {
            let col = lowercase(names[i].as_str());
            if col == want {
                found = true;
            }
            proof {
                if lower_of(names@[i as int]@) == "rsvp"@ {
                    assert(0 <= i < i + 1 && lower_of(names@[i as int]@) == "rsvp"@);
                }
            }
            i = i + 1;
        }
        found
    }
}

} // verus!
