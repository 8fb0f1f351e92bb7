//! Case-insensitive lexicographic ordering on text, with a verified
//! insertion sort for the landing page's display records.

use vstd::prelude::*;

verus! {

/// ASCII case folding of one character, as a code point value.
pub open spec fn fold_char(c: char) -> int {
    if 65 <= c as u32 && c as u32 <= 90 {
        c as u32 + 32
    } else {
        c as u32 as int
    }
}

/// Case-insensitive lexicographic order: `a` comes no later than `b`.
pub open spec fn ci_le(a: Seq<char>, b: Seq<char>) -> bool
    decreases a.len(),
{
    if a.len() == 0 {
        true
    } else if b.len() == 0 {
        false
    } else if fold_char(a[0]) < fold_char(b[0]) {
        true
    } else if fold_char(a[0]) > fold_char(b[0]) {
        false
    } else {
        ci_le(a.skip(1), b.skip(1))
    }
}

/// The order is total: of any two texts, one comes no later than the other.
pub proof fn lemma_ci_le_total(a: Seq<char>, b: Seq<char>)
    ensures
        ci_le(a, b) || ci_le(b, a),
    decreases a.len(),
{
    if a.len() > 0 && b.len() > 0 && fold_char(a[0]) == fold_char(b[0]) {
        lemma_ci_le_total(a.skip(1), b.skip(1));
    }
}

/// The order is transitive.
pub proof fn lemma_ci_le_trans(a: Seq<char>, b: Seq<char>, c: Seq<char>)
    requires
        ci_le(a, b),
        ci_le(b, c),
    ensures
        ci_le(a, c),
    decreases a.len(),
{
    if a.len() > 0 && b.len() > 0 && c.len() > 0 && fold_char(a[0]) == fold_char(b[0])
        && fold_char(b[0]) == fold_char(c[0]) {
        lemma_ci_le_trans(a.skip(1), b.skip(1), c.skip(1));
    }
}

/// Executable comparison, stated over [`ci_le`].
pub fn ci_le_strings(a: &str, b: &str) -> (r: bool)
    ensures
        r == ci_le(a@, b@),
{
    let na = a.unicode_len();
    let nb = b.unicode_len();
    proof {
        assert(a@.skip(0) =~= a@);
        assert(b@.skip(0) =~= b@);
    }
    let mut i: usize = 0;
    loop
        invariant
            i <= na == a@.len(),
            i <= nb == b@.len(),
            ci_le(a@, b@) == ci_le(a@.skip(i as int), b@.skip(i as int)),
        decreases na - i,
    {
        if i == na {
            return true;
        }
        if i == nb {
            return false;
        }
        let ca = a.get_char(i);
        let cb = b.get_char(i);
        let fa: u32 = if 65 <= ca as u32 && ca as u32 <= 90 {
            ca as u32 + 32
        } else {
            ca as u32
        };
        let fb: u32 = if 65 <= cb as u32 && cb as u32 <= 90 {
            cb as u32 + 32
        } else {
            cb as u32
        };
        proof {
            assert(a@.skip(i as int)[0] == a@[i as int]);
            assert(b@.skip(i as int)[0] == b@[i as int]);
        }
        if fa < fb {
            return true;
        }
        if fa > fb {
            return false;
        }
        proof {
            assert(a@.skip(i as int).skip(1) =~= a@.skip(i + 1));
            assert(b@.skip(i as int).skip(1) =~= b@.skip(i + 1));
        }
        i += 1;
    }
}

} // verus!
