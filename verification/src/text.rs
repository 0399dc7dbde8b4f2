//! Small string utilities: character-wise equality and the `"<base>_digest"`
//! naming convention.

use vstd::prelude::*;
use vstd::string::StrSliceExecFns;

verus! {

/// Character-wise equality of two string slices.
pub fn str_eq(a: &str, b: &str) -> (r: bool)
    ensures
        r == (a@ == b@),
{
    let n = a.unicode_len();
    if n != b.unicode_len() {
        proof {
            assert(a@ != b@) by {
                assert(a@.len() != b@.len());
            }
        }
        return false;
    }
    let mut i: usize = 0;
    while i < n
        invariant
            n == a@.len(),
            n == b@.len(),
            0 <= i <= n,
            forall|k: int| 0 <= k < i ==> a@[k] == b@[k],
        decreases n - i,
    {
        if a.get_char(i) != b.get_char(i) {
            return false;
        }
        i = i + 1;
    }
    proof {
        assert(a@ =~= b@);
    }
    true
}

/// The suffix that marks a derived digest field.
pub open spec fn spec_digest_suffix() -> Seq<char> {
    "_digest"@
}

/// A name of the form `"<base>_digest"`.
pub open spec fn spec_is_digest_name(name: Seq<char>) -> bool {
    name.len() >= spec_digest_suffix().len() && name.subrange(
        name.len() - spec_digest_suffix().len(),
        name.len() as int,
    ) == spec_digest_suffix()
}

/// The `<base>` part of a `"<base>_digest"` name.
pub open spec fn spec_digest_base(name: Seq<char>) -> Seq<char> {
    name.subrange(0, name.len() - spec_digest_suffix().len())
}

/// Splits a `"<base>_digest"` field name into its base name, or reports that
/// the name does not follow the digest convention.
pub fn digest_base_name(name: &str) -> (r: Option<String>)
    ensures
        match r {
            Some(base) => spec_is_digest_name(name@) && base@ == spec_digest_base(name@),
            None => !spec_is_digest_name(name@),
        },
{
    proof {
        reveal_strlit("_digest");
        assert(spec_digest_suffix().len() == 7);
    }
    let n = name.unicode_len();
    if n < 7 {
        return None;
    }
    let suffix = name.substring_char(n - 7, n);
    if str_eq(suffix, "_digest") {
        Some(name.substring_char(0, n - 7).to_owned())
    } else {
        None
    }
}

} // verus!
