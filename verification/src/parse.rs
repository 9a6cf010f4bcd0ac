//! Parsing of the save request's JSON body: a single-field object
//! `{"content": <string>}`, with the standard string escapes. Parsing
//! inverts the framing this crate writes.

use vstd::prelude::*;
use vstd::utf8::{encode_utf8, valid_utf8};

use crate::item::SaveFileContentRequest;
use crate::json::{
    content_response_json, escape_bytes, esc_byte, hex_digit, BSLASH, COLON, LBRACE, QUOTE,
    RBRACE,
};
use crate::percent::hex_val;
use crate::text::bytes_to_string;

verus! {

/// A JSON whitespace byte.
pub open spec fn is_ws(b: u8) -> bool {
    b == 32 || b == 9 || b == 10 || b == 13
}

/// The input with its leading whitespace removed.
pub open spec fn skip_ws(s: Seq<u8>) -> Seq<u8>
    decreases s.len(),
{
    if s.len() > 0 && is_ws(s[0]) {
        skip_ws(s.drop_first())
    } else {
        s
    }
}

/// The UTF-8 encoding of a scalar value below 0x10000.
pub open spec fn utf8_of(v: u32) -> Seq<u8> {
    if v < 0x80 {
        seq![v as u8]
    } else if v < 0x800 {
        seq![(192 + v / 64) as u8, (128 + v % 64) as u8]
    } else {
        seq![(224 + v / 4096) as u8, (128 + (v / 64) % 64) as u8, (128 + v % 64) as u8]
    }
}

/// Scans a JSON string body (the opening quote already consumed): the
/// decoded content and the input after the closing quote. `None` on a raw
/// control byte, a bad escape, or a missing closing quote. A `\u` escape
/// must spell a scalar value (no surrogates).
pub open spec fn scan_string(s: Seq<u8>) -> Option<(Seq<u8>, Seq<u8>)>
    decreases s.len(),
{
    if s.len() == 0 {
        None
    } else if s[0] == QUOTE {
        Some((Seq::empty(), s.drop_first()))
    } else if s[0] == BSLASH {
        if s.len() < 2 {
            None
        } else {
            let e = s[1];
            if e == QUOTE || e == BSLASH || e == 47 {
                scan_cons(e, scan_string(s.skip(2)))
            } else if e == 98 {
                scan_cons(8, scan_string(s.skip(2)))
            } else if e == 116 {
                scan_cons(9, scan_string(s.skip(2)))
            } else if e == 110 {
                scan_cons(10, scan_string(s.skip(2)))
            } else if e == 102 {
                scan_cons(12, scan_string(s.skip(2)))
            } else if e == 114 {
                scan_cons(13, scan_string(s.skip(2)))
            } else if e == 117 {
                if s.len() >= 6 && hex_val(s[2]) is Some && hex_val(s[3]) is Some && hex_val(
                    s[4],
                ) is Some && hex_val(s[5]) is Some {
                    let v = ((hex_val(s[2]).unwrap() as u32) * 4096 + (hex_val(
                        s[3],
                    ).unwrap() as u32) * 256 + (hex_val(s[4]).unwrap() as u32) * 16 + (hex_val(
                        s[5],
                    ).unwrap() as u32)) as u32;
                    if v < 0xD800 || v >= 0xE000 {
                        scan_concat(utf8_of(v), scan_string(s.skip(6)))
                    } else {
                        None
                    }
                } else {
                    None
                }
            } else {
                None
            }
        }
    } else if s[0] < 32 {
        None
    } else {
        scan_cons(s[0], scan_string(s.drop_first()))
    }
}

/// Prepends one decoded byte to a scan result.
pub open spec fn scan_cons(b: u8, r: Option<(Seq<u8>, Seq<u8>)>) -> Option<(Seq<u8>, Seq<u8>)> {
    match r {
        Some((c, rest)) => Some((seq![b] + c, rest)),
        None => None,
    }
}

/// Prepends decoded bytes to a scan result.
pub open spec fn scan_concat(p: Seq<u8>, r: Option<(Seq<u8>, Seq<u8>)>) -> Option<
    (Seq<u8>, Seq<u8>),
> {
    match r {
        Some((c, rest)) => Some((p + c, rest)),
        None => None,
    }
}

/// The bytes of the object's one key.
pub open spec fn content_key() -> Seq<u8> {
    seq![99u8, 111, 110, 116, 101, 110, 116]
}

/// The last stage: after the content string only whitespace, the closing
/// brace, and more whitespace may follow.
pub open spec fn parse_tail(r2: Seq<u8>, content: Seq<u8>) -> Option<Seq<u8>> {
    let s5 = skip_ws(r2);
    if s5.len() > 0 && s5[0] == RBRACE && skip_ws(s5.drop_first()).len() == 0 {
        Some(content)
    } else {
        None
    }
}

/// The value stage: a string token holding the content.
pub open spec fn parse_value(s4: Seq<u8>) -> Option<Seq<u8>> {
    if s4.len() == 0 || s4[0] != QUOTE {
        None
    } else {
        match scan_string(s4.drop_first()) {
            None => None,
            Some((content, r2)) => parse_tail(r2, content),
        }
    }
}

/// The separator stage: a colon between key and value.
pub open spec fn parse_after_key(r1: Seq<u8>) -> Option<Seq<u8>> {
    let s3 = skip_ws(r1);
    if s3.len() == 0 || s3[0] != COLON {
        None
    } else {
        parse_value(skip_ws(s3.drop_first()))
    }
}

/// The key stage: the one field must be named `content`.
pub open spec fn parse_key(s2: Seq<u8>) -> Option<Seq<u8>> {
    if s2.len() == 0 || s2[0] != QUOTE {
        None
    } else {
        match scan_string(s2.drop_first()) {
            None => None,
            Some((key, r1)) => {
                if key != content_key() {
                    None
                } else {
                    parse_after_key(r1)
                }
            },
        }
    }
}

/// Parses a save request body: whitespace-tolerant
/// `{ "content" : <string> }` and nothing else. The result is the decoded
/// content, still as UTF-8 bytes.
pub open spec fn parse_save_spec(s: Seq<u8>) -> Option<Seq<u8>> {
    let s1 = skip_ws(s);
    if s1.len() == 0 || s1[0] != LBRACE {
        None
    } else {
        parse_key(skip_ws(s1.drop_first()))
    }
}

/// Advances past whitespace: the suffix at the returned index is the input's
/// suffix with its leading whitespace removed.
fn skip_ws_from(s: &[u8], from: usize) -> (r: usize)
    requires
        from <= s@.len(),
    ensures
        from <= r <= s@.len(),
        s@.skip(r as int) =~= skip_ws(s@.skip(from as int)),
{
    let n = s.len();
    let mut i = from;
    while i < n && (s[i] == 32 || s[i] == 9 || s[i] == 10 || s[i] == 13)
        invariant
            n == s@.len(),
            from <= i <= n,
            skip_ws(s@.skip(from as int)) == skip_ws(s@.skip(i as int)),
        decreases n - i,
    {
        proof {
            assert(s@.skip(i as int)[0] == s@[i as int]);
            assert(s@.skip(i as int).drop_first() =~= s@.skip(i + 1));
        }
        i += 1;
    }
    proof {
        if i < n {
            assert(s@.skip(i as int)[0] == s@[i as int]);
            assert(!is_ws(s@.skip(i as int)[0]));
        } else {
            assert(s@.skip(i as int).len() == 0);
        }
    }
    i
}

/// Scans a JSON string starting after its opening quote at `from`: the
/// decoded bytes and the index after the closing quote, exactly as
/// [`scan_string`] says.
#[verifier::rlimit(100)]
fn scan_string_at(s: &[u8], from: usize) -> (r: Option<(Vec<u8>, usize)>)
    requires
        from <= s@.len(),
    ensures
        match r {
            Some(p) => from <= p.1 <= s@.len() && scan_string(s@.skip(from as int)) == Some(
                (p.0@, s@.skip(p.1 as int)),
            ),
            None => scan_string(s@.skip(from as int)) is None,
        },
{
    let n = s.len();
    let mut out: Vec<u8> = Vec::new();
    let mut i = from;
    while i < n
        invariant
            n == s@.len(),
            from <= i <= n,
            scan_string(s@.skip(from as int)) is Some <==> scan_string(s@.skip(i as int))
                is Some,
            scan_string(s@.skip(from as int)) matches Some(p0) ==> (scan_string(
                s@.skip(i as int),
            ) matches Some(p) && p0.0 == out@ + p.0 && p0.1 == p.1),
        decreases n - i,
    {
        let ghost rest = s@.skip(i as int);
        proof {
            assert(rest[0] == s@[i as int]);
        }
        let b = s[i];
        if b == QUOTE {
            proof {
                assert(rest.drop_first() =~= s@.skip(i + 1));
                if scan_string(s@.skip(from as int)) is Some {
                    let p0 = scan_string(s@.skip(from as int)).unwrap();
                    assert(p0.0 =~= out@);
                }
            }
            return Some((out, i + 1));
        } else if b == BSLASH {
            if n - i < 2 {
                proof {
                    assert(rest.len() < 2);
                }
                return None;
            }
            proof {
                assert(rest[1] == s@[i + 1]);
            }
            let e = s[i + 1];
            if e == QUOTE || e == BSLASH || e == 47 || e == 98 || e == 116 || e == 110 || e
                == 102 || e == 114 {
                let decoded: u8 = if e == 98 {
                    8
                } else if e == 116 {
                    9
                } else if e == 110 {
                    10
                } else if e == 102 {
                    12
                } else if e == 114 {
                    13
                } else {
                    e
                };
                proof {
                    assert(rest.skip(2) =~= s@.skip(i + 2));
                    assert(scan_string(rest) == scan_cons(decoded, scan_string(s@.skip(i + 2))));
                }
                out.push(decoded);
                proof {
                    if scan_string(s@.skip(from as int)) is Some {
                        let p0 = scan_string(s@.skip(from as int)).unwrap();
                        let p = scan_string(s@.skip(i + 2)).unwrap();
                        assert(p0.0 =~= out@ + p.0);
                    }
                }
                i += 2;
            } else if e == 117 {
                if n - i < 6 {
                    proof {
                        assert(rest.len() < 6);
                    }
                    return None;
                }
                proof {
                    assert(rest[2] == s@[i + 2] && rest[3] == s@[i + 3] && rest[4] == s@[i + 4]
                        && rest[5] == s@[i + 5]);
                }
                let h1 = crate::percent::hex_digit_val(s[i + 2]);
                let h2 = crate::percent::hex_digit_val(s[i + 3]);
                let h3 = crate::percent::hex_digit_val(s[i + 4]);
                let h4 = crate::percent::hex_digit_val(s[i + 5]);
                match (h1, h2, h3, h4) {
                    (Some(a), Some(b2), Some(c), Some(d)) => {
                        let v: u32 = (a as u32) * 4096 + (b2 as u32) * 256 + (c as u32) * 16 + (
                        d as u32);
                        if 0xD800 <= v && v < 0xE000 {
                            return None;
                        }
                        proof {
                            assert(rest.skip(6) =~= s@.skip(i + 6));
                            assert(scan_string(rest) == scan_concat(
                                utf8_of(v),
                                scan_string(s@.skip(i + 6)),
                            ));
                        }
                        if v < 0x80 {
                            out.push(v as u8);
                            proof {
                                assert(utf8_of(v) =~= seq![v as u8]);
                            }
                        } else if v < 0x800 {
                            out.push((192 + v / 64) as u8);
                            out.push((128 + v % 64) as u8);
                            proof {
                                assert(utf8_of(v) =~= seq![
                                    (192 + v / 64) as u8,
                                    (128 + v % 64) as u8,
                                ]);
                            }
                        } else {
                            out.push((224 + v / 4096) as u8);
                            out.push((128 + (v / 64) % 64) as u8);
                            out.push((128 + v % 64) as u8);
                            proof {
                                assert(utf8_of(v) =~= seq![
                                    (224 + v / 4096) as u8,
                                    (128 + (v / 64) % 64) as u8,
                                    (128 + v % 64) as u8,
                                ]);
                            }
                        }
                        proof {
                            if scan_string(s@.skip(from as int)) is Some {
                                let p0 = scan_string(s@.skip(from as int)).unwrap();
                                let p = scan_string(s@.skip(i + 6)).unwrap();
                                assert(p0.0 =~= out@ + p.0);
                            }
                        }
                        i += 6;
                    },
                    _ => {
                        return None;
                    },
                }
            } else {
                return None;
            }
        } else if b < 32 {
            return None;
        } else {
            proof {
                assert(rest.drop_first() =~= s@.skip(i + 1));
                assert(scan_string(rest) == scan_cons(b, scan_string(s@.skip(i + 1))));
            }
            out.push(b);
            proof {
                if scan_string(s@.skip(from as int)) is Some {
                    let p0 = scan_string(s@.skip(from as int)).unwrap();
                    let p = scan_string(s@.skip(i + 1)).unwrap();
                    assert(p0.0 =~= out@ + p.0);
                }
            }
            i += 1;
        }
    }
    proof {
        assert(s@.skip(i as int).len() == 0);
    }
    None
}

/// Compares two byte slices.
fn bytes_eq(a: &[u8], b: &[u8]) -> (r: bool)
    ensures
        r == (a@ == b@),
{
    let n = a.len();
    if n != b.len() {
        return false;
    }
    let mut i: usize = 0;
    while i < n
        invariant
            n == a@.len() == b@.len(),
            0 <= i <= n,
            forall|k: int| 0 <= k < i ==> a@[k] == b@[k],
        decreases n - i,
    {
        if a[i] != b[i] {
            return false;
        }
        i += 1;
    }
    proof {
        assert(a@ =~= b@);
    }
    true
}

/// Parses a save request body into the library's request type, exactly as
/// [`parse_save_spec`] says; the decoded content must also be UTF-8.
#[verifier::rlimit(100)]
pub fn parse_save_request(body: &[u8]) -> (r: Option<SaveFileContentRequest>)
    ensures
        match r {
            Some(req) => parse_save_spec(body@) == Some(encode_utf8(req.content@)),
            None => parse_save_spec(body@) is None || (parse_save_spec(body@) matches Some(c)
                && !valid_utf8(c)),
        },
{
    let n = body.len();
    let i = skip_ws_from(body, 0);
    proof {
        assert(body@.skip(0) =~= body@);
    }
    if i >= n || body[i] != LBRACE {
        proof {
            if i < n {
                assert(skip_ws(body@)[0] == body@[i as int]);
            }
            assert(parse_save_spec(body@) is None);
        }
        return None;
    }
    proof {
        assert(skip_ws(body@)[0] == body@[i as int]);
        assert(skip_ws(body@).drop_first() =~= body@.skip(i + 1));
    }
    let i2 = skip_ws_from(body, i + 1);
    proof {
        assert(parse_save_spec(body@) == parse_key(body@.skip(i2 as int)));
    }
    if i2 >= n || body[i2] != QUOTE {
        proof {
            if i2 < n {
                assert(body@.skip(i2 as int)[0] == body@[i2 as int]);
            }
        }
        return None;
    }
    proof {
        assert(body@.skip(i2 as int)[0] == body@[i2 as int]);
        assert(body@.skip(i2 as int).drop_first() =~= body@.skip(i2 + 1));
    }
    let key = match scan_string_at(body, i2 + 1) {
        Some(p) => p,
        None => {
            return None;
        },
    };
    let expected: [u8; 7] = [99, 111, 110, 116, 101, 110, 116];
    proof {
        assert(expected@ =~= content_key());
    }
    if !bytes_eq(key.0.as_slice(), expected.as_slice()) {
        return None;
    }
    proof {
        assert(parse_save_spec(body@) == parse_after_key(body@.skip(key.1 as int)));
    }
    let i3 = skip_ws_from(body, key.1);
    if i3 >= n || body[i3] != COLON {
        proof {
            if i3 < n {
                assert(skip_ws(body@.skip(key.1 as int))[0] == body@[i3 as int]);
            }
        }
        return None;
    }
    proof {
        assert(skip_ws(body@.skip(key.1 as int))[0] == body@[i3 as int]);
        assert(skip_ws(body@.skip(key.1 as int)).drop_first() =~= body@.skip(i3 + 1));
    }
    let i4 = skip_ws_from(body, i3 + 1);
    proof {
        assert(parse_save_spec(body@) == parse_value(body@.skip(i4 as int)));
    }
    if i4 >= n || body[i4] != QUOTE {
        proof {
            if i4 < n {
                assert(body@.skip(i4 as int)[0] == body@[i4 as int]);
            }
        }
        return None;
    }
    proof {
        assert(body@.skip(i4 as int)[0] == body@[i4 as int]);
        assert(body@.skip(i4 as int).drop_first() =~= body@.skip(i4 + 1));
    }
    let content = match scan_string_at(body, i4 + 1) {
        Some(p) => p,
        None => {
            return None;
        },
    };
    proof {
        assert(parse_save_spec(body@) == parse_tail(body@.skip(content.1 as int), content.0@));
    }
    let i5 = skip_ws_from(body, content.1);
    if i5 >= n || body[i5] != RBRACE {
        proof {
            if i5 < n {
                assert(skip_ws(body@.skip(content.1 as int))[0] == body@[i5 as int]);
            }
        }
        return None;
    }
    proof {
        assert(skip_ws(body@.skip(content.1 as int))[0] == body@[i5 as int]);
        assert(skip_ws(body@.skip(content.1 as int)).drop_first() =~= body@.skip(i5 + 1));
    }
    let j = skip_ws_from(body, i5 + 1);
    if j < n {
        proof {
            assert(skip_ws(body@.skip(i5 + 1)).len() > 0);
        }
        return None;
    }
    proof {
        assert(skip_ws(body@.skip(i5 + 1)).len() == 0);
        assert(parse_save_spec(body@) == Some(content.0@));
    }
    match bytes_to_string(content.0) {
        Some(s) => Some(SaveFileContentRequest { content: s }),
        None => None,
    }
}

/// Escaping leaves a sequence of plain bytes (no quote, no backslash, no
/// control bytes) unchanged.
pub proof fn lemma_escape_plain(s: Seq<u8>)
    requires
        forall|i: int| 0 <= i < s.len() ==> 32 <= s[i] && s[i] != QUOTE && s[i] != BSLASH,
    ensures
        escape_bytes(s) == s,
    decreases s.len(),
{
    if s.len() > 0 {
        lemma_escape_plain(s.drop_first());
        assert(esc_byte(s[0]) =~= seq![s[0]]);
        assert(seq![s[0]] + s.drop_first() =~= s);
    }
}

/// Scanning inverts escaping: an escaped value followed by the closing
/// quote scans back to the value, leaving the rest untouched.
pub proof fn lemma_scan_escape(c: Seq<u8>, rest: Seq<u8>)
    ensures
        scan_string(escape_bytes(c) + seq![QUOTE] + rest) == Some((c, rest)),
    decreases c.len(),
{
    if c.len() == 0 {
        let w = escape_bytes(c) + seq![QUOTE] + rest;
        assert(w[0] == QUOTE);
        assert(w.drop_first() =~= rest);
    } else {
        lemma_scan_escape(c.drop_first(), rest);
        let b = c[0];
        let e = esc_byte(b);
        let t = escape_bytes(c.drop_first()) + seq![QUOTE] + rest;
        let w = escape_bytes(c) + seq![QUOTE] + rest;
        assert(w =~= e + t);
        assert(forall|k: int| 0 <= k < e.len() ==> w[k] == e[k]);
        assert(seq![b] + c.drop_first() =~= c);
        if b == QUOTE || b == BSLASH {
            assert(w[0] == BSLASH && w[1] == b);
            assert(w.skip(2) =~= t);
            assert(scan_string(w) == scan_cons(b, scan_string(t)));
        } else if b == 8 || b == 9 || b == 10 || b == 12 || b == 13 {
            assert(w[0] == BSLASH);
            assert(w.skip(2) =~= t);
            assert(scan_string(w) == scan_cons(b, scan_string(t)));
        } else if b < 32 {
            assert(w[0] == BSLASH && w[1] == 117 && w[2] == 48 && w[3] == 48 && w[4] == hex_digit(
                b / 16,
            ) && w[5] == hex_digit(b % 16));
            assert(hex_val(48) == Some(0u8));
            assert(hex_val(hex_digit(b / 16)) == Some((b / 16) as u8));
            assert(hex_val(hex_digit(b % 16)) == Some((b % 16) as u8));
            assert(w.skip(6) =~= t);
            let v = (((b / 16) as u32) * 16 + ((b % 16) as u32)) as u32;
            assert(v == b);
            assert(utf8_of(v) =~= seq![b]);
            assert(scan_string(w) == scan_concat(utf8_of(v), scan_string(t)));
        } else {
            assert(w[0] == b);
            assert(w.drop_first() =~= t);
            assert(scan_string(w) == scan_cons(b, scan_string(t)));
        }
    }
}

/// Parsing inverts framing: the body this crate writes for a content
/// payload parses back to exactly that content.
pub proof fn lemma_parse_round_trip(content: Seq<char>)
    ensures
        parse_save_spec(content_response_json(content)) == Some(encode_utf8(content)),
{
    let cb = encode_utf8(content);
    let body = content_response_json(content);
    let key_and_on = content_key() + seq![QUOTE, COLON, QUOTE] + escape_bytes(cb) + seq![
        QUOTE,
        RBRACE,
    ];
    assert(body =~= seq![LBRACE, QUOTE] + key_and_on);
    assert(skip_ws(body) == body);
    assert(body[0] == LBRACE);
    assert(body.drop_first() =~= seq![QUOTE] + key_and_on);
    let s2 = body.drop_first();
    assert(skip_ws(s2) == s2);
    assert(s2[0] == QUOTE);
    assert(s2.drop_first() =~= key_and_on);
    // The key token scans back to the key.
    assert(forall|i: int|
        0 <= i < content_key().len() ==> 32 <= content_key()[i] && content_key()[i] != QUOTE
            && content_key()[i] != BSLASH);
    lemma_escape_plain(content_key());
    let after_key = seq![COLON, QUOTE] + escape_bytes(cb) + seq![QUOTE, RBRACE];
    assert(key_and_on =~= escape_bytes(content_key()) + seq![QUOTE] + after_key);
    lemma_scan_escape(content_key(), after_key);
    assert(parse_save_spec(body) == parse_after_key(after_key));
    // The colon and the value.
    assert(skip_ws(after_key) == after_key);
    assert(after_key[0] == COLON);
    let s4 = after_key.drop_first();
    assert(s4 =~= seq![QUOTE] + escape_bytes(cb) + seq![QUOTE, RBRACE]);
    assert(skip_ws(s4) == s4);
    assert(s4[0] == QUOTE);
    assert(parse_save_spec(body) == parse_value(s4));
    let tail = seq![RBRACE];
    assert(s4.drop_first() =~= escape_bytes(cb) + seq![QUOTE] + tail);
    lemma_scan_escape(cb, tail);
    assert(parse_save_spec(body) == parse_tail(tail, cb));
    // The closing brace ends the body.
    assert(skip_ws(tail) == tail);
    assert(tail[0] == RBRACE);
    assert(skip_ws(tail.drop_first()).len() == 0);
}

} // verus!

