//! Percent-decoding of request paths.
//!
//! A `%XX` escape stands for one byte given by two hexadecimal digits; any
//! other byte stands for itself. Decoding fails on a truncated or
//! malformed escape and on a byte sequence that is not valid UTF-8.

use vstd::prelude::*;
use vstd::string::StringSliceAdditionalSpecFns;
use vstd::utf8::{encode_utf8, valid_utf8};

verus! {

/// The value of one hexadecimal digit byte, upper or lower case.
pub open spec fn hex_val(b: u8) -> Option<u8> {
    if 48 <= b <= 57 {
        Some((b - 48) as u8)
    } else if 65 <= b <= 70 {
        Some((b - 55) as u8)
    } else if 97 <= b <= 102 {
        Some((b - 87) as u8)
    } else {
        None
    }
}

fn hex_val_exec(b: u8) -> (r: Option<u8>)
    ensures
        r == hex_val(b),
{
    if 48 <= b && b <= 57 {
        Some(b - 48)
    } else if 65 <= b && b <= 70 {
        Some(b - 55)
    } else if 97 <= b && b <= 102 {
        Some(b - 87)
    } else {
        None
    }
}

/// The percent-decoded bytes: each `%XX` escape becomes its byte, every
/// other byte stands for itself; a truncated or malformed escape fails.
pub open spec fn pct_bytes(s: Seq<u8>) -> Option<Seq<u8>>
    decreases s.len(),
{
    if s.len() == 0 {
        Some(Seq::empty())
    } else if s[0] == 37 {
        if s.len() >= 3 {
            match (hex_val(s[1]), hex_val(s[2])) {
                (Some(hi), Some(lo)) => match pct_bytes(s.skip(3)) {
                    Some(rest) => Some(seq![(hi * 16 + lo) as u8] + rest),
                    None => None,
                },
                _ => None,
            }
        } else {
            None
        }
    } else {
        match pct_bytes(s.drop_first()) {
            Some(rest) => Some(seq![s[0]] + rest),
            None => None,
        }
    }
}

/// Relies on `String::from_utf8`: succeeds exactly on valid UTF-8, and the
/// returned string carries exactly the given bytes.
#[verifier::external_body]
fn bytes_to_string(bytes: Vec<u8>) -> (r: Option<String>)
    ensures
        match r {
            Some(s) => valid_utf8(bytes@) && encode_utf8(s@) == bytes@,
            None => !valid_utf8(bytes@),
        },
{
    String::from_utf8(bytes).ok()
}

/// Decodes `%XX` escapes in a request path. Fails exactly on a truncated
/// or malformed escape, or when the decoded bytes are not valid UTF-8.
pub fn percent_decode(s: &str) -> (r: Option<String>)
    ensures
        match r {
            Some(out) => pct_bytes(s.spec_bytes()) == Some(encode_utf8(out@)),
            None => match pct_bytes(s.spec_bytes()) {
                Some(bs) => !valid_utf8(bs),
                None => true,
            },
        },
{
    let bytes = s.as_bytes_vec();
    let ghost all = bytes@;
    let n = bytes.len();
    let mut out: Vec<u8> = Vec::new();
    let mut i: usize = 0;
    proof {
        assert(all.skip(0) =~= all);
    }
    while i < n
        invariant
            n == all.len(),
            i <= n,
            all == bytes@,
            all == s.spec_bytes(),
            pct_bytes(all) == (match pct_bytes(all.skip(i as int)) {
                Some(rest) => Some(out@ + rest),
                None => None::<Seq<u8>>,
            }),
        decreases n - i,
    {
        let ghost suffix = all.skip(i as int);
        let ghost pre_out = out@;
        let b = bytes[i];
        proof {
            assert(suffix[0] == all[i as int]);
        }
        if b == 37 {
            if n - i < 3 {
                proof {
                    assert(pct_bytes(suffix) is None);
                    assert(pct_bytes(all) is None);
                }
                return None;
            }
            let hi = hex_val_exec(bytes[i + 1]);
            let lo = hex_val_exec(bytes[i + 2]);
            proof {
                assert(suffix[1] == all[i + 1] && suffix[2] == all[i + 2]);
            }
            match (hi, lo) {
                (Some(hi), Some(lo)) => {
                    out.push(hi * 16 + lo);
                    proof {
                        assert(suffix.skip(3) =~= all.skip(i + 3));
                        assert(out@ =~= pre_out + seq![(hi * 16 + lo) as u8]);
                        assert forall|rest: Seq<u8>|
                            pct_bytes(all.skip(i + 3)) == Some(rest) implies pre_out + (seq![
                            (hi * 16 + lo) as u8,
                        ] + rest) =~= out@ + rest by {}
                    }
                    i = i + 3;
                },
                _ => {
                    proof {
                        assert(pct_bytes(suffix) is None);
                        assert(pct_bytes(all) is None);
                    }
                    return None;
                },
            }
        } else {
            out.push(b);
            proof {
                assert(suffix.drop_first() =~= all.skip(i + 1));
                assert(out@ =~= pre_out + seq![all[i as int]]);
                assert forall|rest: Seq<u8>|
                    pct_bytes(all.skip(i + 1)) == Some(rest) implies pre_out + (seq![
                    all[i as int],
                ] + rest) =~= out@ + rest by {}
            }
            i = i + 1;
        }
    }
    proof {
        assert(all.skip(n as int) =~= Seq::<u8>::empty());
        assert(out@ + Seq::<u8>::empty() =~= out@);
        assert(pct_bytes(all) == Some(out@));
    }
    bytes_to_string(out)
}

} // verus!
