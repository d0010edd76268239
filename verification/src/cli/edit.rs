//! What `edit` does with the text that comes back from the editor.

use vstd::prelude::*;

use crate::text::{chars_of, trim, trim_bounds};

verus! {

/// What becomes of an edited memory.
#[derive(Debug, Clone, Copy)]
pub enum EditOutcome {
    /// The text is the same up to surrounding white space: nothing to save.
    Unchanged,
    /// Only white space is left: refused (forgetting deletes a memory).
    Empty,
    /// The text changed: it is saved.
    Changed,
}

/// Compares the edited text with the previous, both trimmed.
pub fn edit_outcome(previous: &str, edited: &str) -> (r: EditOutcome)
    ensures
        trim(edited@) == trim(previous@) ==> r is Unchanged,
        trim(edited@) != trim(previous@) && trim(edited@).len() == 0 ==> r is Empty,
        trim(edited@) != trim(previous@) && trim(edited@).len() > 0 ==> r is Changed,
{
    let a = chars_of(previous);
    let b = chars_of(edited);
    let (ai, aj) = trim_bounds(&a);
    let (bi, bj) = trim_bounds(&b);
    let ghost ta = trim(previous@);
    let ghost tb = trim(edited@);
    let mut same = aj - ai == bj - bi;
    let mut k: usize = 0;
    if same {
        while k < aj - ai
            invariant
                ai <= aj <= a.len(),
                bi <= bj <= b.len(),
                aj - ai == bj - bi,
                ta == a@.subrange(ai as int, aj as int),
                tb == b@.subrange(bi as int, bj as int),
                k <= aj - ai,
                same ==> ta.take(k as int) == tb.take(k as int),
                !same ==> ta != tb,
            decreases aj - ai - k,
        {
            if same && a[ai + k] != b[bi + k] {
                proof {
                    assert(ta[k as int] != tb[k as int]);
                }
                same = false;
            }
            k = k + 1;
            proof {
                if same {
                    assert(ta.take(k as int) =~= tb.take(k as int));
                }
            }
        }
        proof {
            if same {
                assert(ta =~= ta.take(ta.len() as int));
                assert(tb =~= tb.take(tb.len() as int));
            }
        }
    }
    if same {
        EditOutcome::Unchanged
    } else if bi == bj {
        EditOutcome::Empty
    } else {
        EditOutcome::Changed
    }
}

} // verus!
