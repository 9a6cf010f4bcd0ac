//! Percent-encoding of the filter key for the listing query, and its
//! decoding on the server side. Encoding is done by the `percent_encoding`
//! crate; decoding is this crate's own, and decoding inverts encoding.

use vstd::prelude::*;
use vstd::string::StringSliceAdditionalSpecFns;
use vstd::utf8::encode_utf8;

verus! {

pub const PERCENT: u8 = 37;

/// An ASCII letter or digit.
pub open spec fn is_alnum(b: u8) -> bool {
    (48 <= b <= 57) || (65 <= b <= 90) || (97 <= b <= 122)
}

/// The upper-case hex digit of a value below 16.
pub open spec fn hex_upper(v: u8) -> u8 {
    if v < 10 {
        (48 + v) as u8
    } else {
        (55 + v) as u8
    }
}

/// How one byte is percent-encoded under the non-alphanumeric set: letters
/// and digits pass through, every other byte becomes `%` and two upper-case
/// hex digits.
pub open spec fn pe_byte(b: u8) -> Seq<u8> {
    if is_alnum(b) {
        seq![b]
    } else {
        seq![PERCENT, hex_upper(b / 16), hex_upper(b % 16)]
    }
}

/// A whole byte sequence, percent-encoded.
pub open spec fn pe_bytes(s: Seq<u8>) -> Seq<u8>
    decreases s.len(),
{
    if s.len() == 0 {
        Seq::empty()
    } else {
        pe_byte(s[0]) + pe_bytes(s.drop_first())
    }
}

/// The value of a hex digit, upper or lower case.
pub open spec fn hex_val(b: u8) -> Option<u8> {
    if 48 <= b <= 57 {
        Some((b - 48) as u8)
    } else if 65 <= b <= 70 {
        Some((b - 55) as u8)
    } else if 97 <= b <= 102 {
        Some((b - 87) as u8)
    } else {
        None
    }
}

/// Percent-decoding: `%` must be followed by two hex digits (either case);
/// every other byte passes through. `None` on a malformed escape.
pub open spec fn pd_bytes(s: Seq<u8>) -> Option<Seq<u8>>
    decreases s.len(),
{
    if s.len() == 0 {
        Some(Seq::empty())
    } else if s[0] == PERCENT {
        if s.len() >= 3 && hex_val(s[1]) is Some && hex_val(s[2]) is Some {
            match pd_bytes(s.skip(3)) {
                Some(t) => Some(
                    seq![(hex_val(s[1]).unwrap() * 16 + hex_val(s[2]).unwrap()) as u8] + t,
                ),
                None => None,
            }
        } else {
            None
        }
    } else {
        match pd_bytes(s.skip(1)) {
            Some(t) => Some(seq![s[0]] + t),
            None => None,
        }
    }
}

/// Decoding inverts encoding: the round-trip law of the query key.
pub proof fn lemma_percent_round_trip(s: Seq<u8>)
    ensures
        pd_bytes(pe_bytes(s)) matches Some(t) && t =~= s,
    decreases s.len(),
{
    if s.len() == 0 {
    } else {
        lemma_percent_round_trip(s.drop_first());
        let b = s[0];
        let e = pe_bytes(s);
        if is_alnum(b) {
            assert(e[0] == b && b != PERCENT);
            assert(e.skip(1) =~= pe_bytes(s.drop_first()));
            let t = pd_bytes(pe_bytes(s.drop_first())).unwrap();
            assert(pd_bytes(e) == Some(seq![b] + t));
            assert(seq![b] + t =~= s);
        } else {
            assert(e[0] == PERCENT);
            assert(e[1] == hex_upper(b / 16) && e[2] == hex_upper(b % 16));
            assert(hex_val(hex_upper(b / 16)) == Some((b / 16) as u8));
            assert(hex_val(hex_upper(b % 16)) == Some((b % 16) as u8));
            assert(e.skip(3) =~= pe_bytes(s.drop_first()));
            let t = pd_bytes(pe_bytes(s.drop_first())).unwrap();
            assert((b / 16) * 16 + (b % 16) == b);
            assert(pd_bytes(e) == Some(seq![b] + t));
            assert(seq![b] + t =~= s);
        }
    }
}

/// Relies on `percent_encoding::utf8_percent_encode` with the
/// `NON_ALPHANUMERIC` set: each byte of the input that is not an ASCII
/// letter or digit is written as `%` and two upper-case hex digits, and the
/// others are copied through, in order.
#[verifier::external_body]
pub(crate) fn percent_encode_key(s: &str) -> (r: String)
    ensures
        encode_utf8(r@) == pe_bytes(s.spec_bytes()),
{
    percent_encoding::utf8_percent_encode(s, percent_encoding::NON_ALPHANUMERIC).to_string()
}

/// Decodes a percent-encoded byte sequence, exactly as [`pd_bytes`] says.
pub fn percent_decode(s: &[u8]) -> (r: Option<Vec<u8>>)
    ensures
        match r {
            Some(v) => pd_bytes(s@) == Some(v@),
            None => pd_bytes(s@) is None,
        },
{
    let n = s.len();
    let mut out: Vec<u8> = Vec::new();
    let mut i: usize = 0;
    proof {
        assert(s@.skip(0) =~= s@);
    }
    while i < n
        invariant
            n == s@.len(),
            0 <= i <= n,
            pd_bytes(s@) is Some <==> pd_bytes(s@.skip(i as int)) is Some,
            pd_bytes(s@) matches Some(r0) ==> pd_bytes(s@.skip(i as int)) matches Some(t) && r0
                == out@ + t,
        decreases n - i,
    {
        let ghost rest = s@.skip(i as int);
        assert(rest[0] == s@[i as int]);
        if s[i] == PERCENT {
            if n - i >= 3 {
                let h1 = hex_digit_val(s[i + 1]);
                let h2 = hex_digit_val(s[i + 2]);
                proof {
                    assert(rest.len() >= 3);
                    assert(rest[1] == s@[i + 1] && rest[2] == s@[i + 2]);
                }
                match (h1, h2) {
                    (Some(a), Some(c)) => {
                        proof {
                            assert(rest.skip(3) =~= s@.skip(i + 3));
                        }
                        out.push(a * 16 + c);
                        proof {
                            if pd_bytes(s@) is Some {
                                let r0 = pd_bytes(s@).unwrap();
                                let t = pd_bytes(rest).unwrap();
                                let t2 = pd_bytes(s@.skip(i + 3)).unwrap();
                                assert(t == seq![(a * 16 + c) as u8] + t2);
                                assert(r0 =~= out@ + t2);
                            }
                        }
                        i += 3;
                    },
                    _ => {
                        return None;
                    },
                }
            } else {
                proof {
                    assert(rest.len() < 3);
                }
                return None;
            }
        } else {
            proof {
                assert(rest.skip(1) =~= s@.skip(i + 1));
            }
            out.push(s[i]);
            proof {
                if pd_bytes(s@) is Some {
                    let r0 = pd_bytes(s@).unwrap();
                    let t = pd_bytes(rest).unwrap();
                    let t2 = pd_bytes(s@.skip(i + 1)).unwrap();
                    assert(t == seq![rest[0]] + t2);
                    assert(r0 =~= out@ + t2);
                }
            }
            i += 1;
        }
    }
    proof {
        assert(s@.skip(n as int) =~= Seq::<u8>::empty());
        if pd_bytes(s@) is Some {
            let r0 = pd_bytes(s@).unwrap();
            assert(r0 =~= out@);
        }
    }
    Some(out)
}

/// The value of one hex digit byte, if it is one.
pub fn hex_digit_val(b: u8) -> (r: Option<u8>)
    ensures
        r == hex_val(b),
{
    if 48 <= b && b <= 57 {
        Some(b - 48)
    } else if 65 <= b && b <= 70 {
        Some(b - 55)
    } else if 97 <= b && b <= 102 {
        Some(b - 87)
    } else {
        None
    }
}

/// Builds the query-string suffix of a listing request: empty for an empty
/// key, else `?key=` and the percent-encoded key, as the selector's query
/// builder sends it.
pub fn build_files_query(input: &str) -> (r: Vec<u8>)
    ensures
        input@.len() == 0 ==> r@ =~= Seq::<u8>::empty(),
        input@.len() > 0 ==> r@ =~= seq![63u8, 107, 101, 121, 61] + pe_bytes(input.spec_bytes()),
{
    let mut out: Vec<u8> = Vec::new();
    if input.is_empty() {
        return out;
    }
    out.push(63);
    out.push(107);
    out.push(101);
    out.push(121);
    out.push(61);
    let enc = percent_encode_key(input);
    let eb = enc.as_str().as_bytes();
    let n = eb.len();
    let mut i: usize = 0;
    while i < n
        invariant
            n == eb@.len(),
            0 <= i <= n,
            out@ =~= seq![63u8, 107, 101, 121, 61] + eb@.take(i as int),
        decreases n - i,
    {
        out.push(eb[i]);
        proof {
            assert(eb@.take(i + 1) =~= eb@.take(i as int).push(eb@[i as int]));
        }
        i += 1;
    }
    proof {
        assert(eb@.take(n as int) =~= eb@);
    }
    out
}

} // verus!
