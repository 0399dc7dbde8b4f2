//! A sample transformation provider: a reversible placeholder cipher and a
//! deterministic placeholder digest, for exercising the transform operations.

use vstd::prelude::*;
use vstd::string::{StrSliceExecFns, StringExecFns};
use crate::transform::TransformService;

verus! {

/// A stand-in for a real encryption service: encode prefixes a marker
/// character, decode strips it and fails on input that does not carry it, and
/// the digest prefixes a distinct marker. Reversible and deterministic, which
/// is all the transform operations ask of a service.
pub struct MarkerService;

/// The character that marks an encoded value.
pub open spec fn cipher_marker() -> char {
    '#'
}

/// The character that marks a digest.
pub open spec fn digest_marker() -> char {
    '*'
}

impl TransformService for MarkerService {
    open spec fn enc_spec(&self, s: Seq<char>) -> Seq<char> {
        seq![cipher_marker()] + s
    }

    open spec fn enc_ok(&self, s: Seq<char>) -> bool {
        true
    }

    open spec fn dec_spec(&self, s: Seq<char>) -> Seq<char> {
        if s.len() >= 1 {
            s.subrange(1, s.len() as int)
        } else {
            s
        }
    }

    open spec fn dec_ok(&self, s: Seq<char>) -> bool {
        s.len() >= 1 && s[0] == cipher_marker()
    }

    open spec fn digest_spec(&self, s: Seq<char>) -> Seq<char> {
        seq![digest_marker()] + s
    }

    fn encode_value(&self, s: &str) -> (r: Option<String>) {
        let mut out = String::from_str("#");
        proof {
            reveal_strlit("#");
            assert("#"@ =~= seq![cipher_marker()]);
        }
        out.append(s);
        proof {
            assert(out@ == seq![cipher_marker()] + s@);
        }
        Some(out)
    }

    fn decode_value(&self, s: &str) -> (r: Option<String>) {
        let n = s.unicode_len();
        if n >= 1 && s.get_char(0) == '#' {
            let rest = s.substring_char(1, n).to_owned();
            proof {
                assert(rest@ =~= s@.subrange(1, s@.len() as int));
            }
            Some(rest)
        } else {
            None
        }
    }

    fn digest_value(&self, s: &str) -> (r: String) {
        let mut out = String::from_str("*");
        proof {
            reveal_strlit("*");
            assert("*"@ =~= seq![digest_marker()]);
        }
        out.append(s);
        proof {
            assert(out@ == seq![digest_marker()] + s@);
        }
        out
    }
}

/// The sample service is reversible: decoding an encoded value gives the
/// value back, an encoded value is never empty, and both calls succeed.
pub proof fn lemma_marker_service_reversible(svc: &MarkerService)
    ensures
        forall|s: Seq<char>| (#[trigger] svc.enc_spec(s)).len() > 0,
        forall|s: Seq<char>| svc.dec_spec(#[trigger] svc.enc_spec(s)) == s,
        forall|s: Seq<char>| svc.enc_ok(s),
        forall|s: Seq<char>| svc.dec_ok(#[trigger] svc.enc_spec(s)),
{
    assert forall|s: Seq<char>| svc.dec_spec(#[trigger] svc.enc_spec(s)) == s by {
        assert(svc.enc_spec(s).subrange(1, svc.enc_spec(s).len() as int) =~= s);
    }
}

} // verus!
