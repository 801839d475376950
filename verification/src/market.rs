//! Decisions of the market-data client that do not touch prices.
use vstd::prelude::*;

use crate::text::{contains_str, occurs_at, occurs_in};

verus! {

/// A crumb token is accepted when it is not empty and is not an HTML page
/// (which Yahoo serves in its place when the session cookie was refused).
pub open spec fn crumb_is_valid(crumb: Seq<char>) -> bool {
    crumb.len() > 0 && !occurs_in(crumb, "<!DOCTYPE"@)
}

/// Whether the crumb token that Yahoo answered can be used.
pub fn crumb_accepted(crumb: &str) -> (ok: bool)
    ensures
        ok == crumb_is_valid(crumb@),
{
    if crumb.is_empty() {
        return false;
    }
    !contains_str(crumb, "<!DOCTYPE")
}

/// A crumb is refused exactly when it is empty or holds the nine characters
/// `<!DOCTYPE` somewhere: every other text, whatever characters it holds,
/// is accepted.
pub proof fn lemma_crumb_rule(crumb: Seq<char>)
    ensures
        crumb_is_valid(crumb) <==> (crumb.len() > 0 && forall|i: int|
            0 <= i && i + 9 <= crumb.len() ==> #[trigger] crumb.subrange(i, i + 9)
                != "<!DOCTYPE"@),
{
    reveal_strlit("<!DOCTYPE");
    assert("<!DOCTYPE"@.len() == 9);
    if crumb.len() > 0 && (forall|i: int|
        0 <= i && i + 9 <= crumb.len() ==> #[trigger] crumb.subrange(i, i + 9) != "<!DOCTYPE"@) {
        assert forall|i: int| !occurs_at(crumb, "<!DOCTYPE"@, i) by {
            if 0 <= i && i + 9 <= crumb.len() {
                assert(crumb.subrange(i, i + 9) != "<!DOCTYPE"@);
            }
        }
    }
    if crumb_is_valid(crumb) {
        assert forall|i: int|
            0 <= i && i + 9 <= crumb.len() implies #[trigger] crumb.subrange(i, i + 9)
            != "<!DOCTYPE"@ by {
            assert(!occurs_at(crumb, "<!DOCTYPE"@, i));
        }
    }
}

} // verus!
