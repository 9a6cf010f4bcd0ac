//! Framing of the HTTP payloads as JSON bytes: the listing response, the
//! note-content response, and the escaping of string values.

use vstd::prelude::*;
use vstd::string::StringSliceAdditionalSpecFns;
use vstd::utf8::encode_utf8;

use crate::item::{GetFileContentResponse, GetFilesResponse, Item, ItemType};

verus! {

pub const QUOTE: u8 = 34;

pub const BSLASH: u8 = 92;

pub const LBRACE: u8 = 123;

pub const RBRACE: u8 = 125;

pub const LBRACK: u8 = 91;

pub const RBRACK: u8 = 93;

pub const COLON: u8 = 58;

pub const COMMA: u8 = 44;

/// The lower-case hex digit of a value below 16.
pub open spec fn hex_digit(v: u8) -> u8 {
    if v < 10 {
        (48 + v) as u8
    } else {
        (87 + v) as u8
    }
}

/// How one byte of a string value is written inside a JSON string: the
/// quote and the backslash are escaped, the five short control escapes are
/// used where they exist, other control bytes take the `\u00` form, and
/// everything else (including UTF-8 continuation bytes) passes through.
pub open spec fn esc_byte(b: u8) -> Seq<u8> {
    if b == QUOTE {
        seq![BSLASH, QUOTE]
    } else if b == BSLASH {
        seq![BSLASH, BSLASH]
    } else if b == 8 {
        seq![BSLASH, 98]
    } else if b == 9 {
        seq![BSLASH, 116]
    } else if b == 10 {
        seq![BSLASH, 110]
    } else if b == 12 {
        seq![BSLASH, 102]
    } else if b == 13 {
        seq![BSLASH, 114]
    } else if b < 32 {
        seq![BSLASH, 117, 48, 48, hex_digit(b / 16), hex_digit(b % 16)]
    } else {
        seq![b]
    }
}

/// A whole string value, escaped byte by byte.
pub open spec fn escape_bytes(s: Seq<u8>) -> Seq<u8>
    decreases s.len(),
{
    if s.len() == 0 {
        Seq::empty()
    } else {
        esc_byte(s[0]) + escape_bytes(s.drop_first())
    }
}

/// Escaping distributes over appending one byte.
pub proof fn lemma_escape_push(s: Seq<u8>, b: u8)
    ensures
        escape_bytes(s.push(b)) =~= escape_bytes(s) + esc_byte(b),
    decreases s.len(),
{
    if s.len() == 0 {
        assert(s.push(b).drop_first() =~= Seq::<u8>::empty());
        assert(s.push(b)[0] == b);
        assert(escape_bytes(s.push(b)) == esc_byte(b) + escape_bytes(Seq::<u8>::empty()));
        assert(escape_bytes(Seq::<u8>::empty()) =~= Seq::<u8>::empty());
        assert(escape_bytes(s) =~= Seq::<u8>::empty());
    } else {
        assert(s.push(b).drop_first() =~= s.drop_first().push(b));
        lemma_escape_push(s.drop_first(), b);
        assert(s.push(b)[0] == s[0]);
        assert(escape_bytes(s.push(b)) == esc_byte(s[0]) + escape_bytes(s.drop_first().push(b)));
        assert(escape_bytes(s.push(b)) =~= esc_byte(s[0]) + (escape_bytes(s.drop_first())
            + esc_byte(b)));
    }
}

/// A JSON string token: the escaped value between quotes.
pub open spec fn json_string(s: Seq<u8>) -> Seq<u8> {
    seq![QUOTE] + escape_bytes(s) + seq![QUOTE]
}

/// Appends the escaped form of `s` to `out`.
fn escape_into(out: &mut Vec<u8>, s: &[u8])
    ensures
        final(out)@ =~= old(out)@ + escape_bytes(s@),
{
    let n = s.len();
    let mut i: usize = 0;
    while i < n
        invariant
            n == s@.len(),
            0 <= i <= n,
            out@ =~= old(out)@ + escape_bytes(s@.take(i as int)),
        decreases n - i,
    {
        let ghost pre = s@.take(i as int);
        proof {
            assert(s@.take(i + 1) =~= pre.push(s@[i as int]));
            lemma_escape_push(pre, s@[i as int]);
        }
        let b = s[i];
        if b == QUOTE {
            out.push(BSLASH);
            out.push(QUOTE);
        } else if b == BSLASH {
            out.push(BSLASH);
            out.push(BSLASH);
        } else if b == 8 {
            out.push(BSLASH);
            out.push(98);
        } else if b == 9 {
            out.push(BSLASH);
            out.push(116);
        } else if b == 10 {
            out.push(BSLASH);
            out.push(110);
        } else if b == 12 {
            out.push(BSLASH);
            out.push(102);
        } else if b == 13 {
            out.push(BSLASH);
            out.push(114);
        } else if b < 32 {
            out.push(BSLASH);
            out.push(117);
            out.push(48);
            out.push(48);
            out.push(if b / 16 < 10 {
                48 + b / 16
            } else {
                87 + b / 16
            });
            out.push(if b % 16 < 10 {
                48 + b % 16
            } else {
                87 + b % 16
            });
        } else {
            out.push(b);
        }
        proof {
            assert(out@ =~= old(out)@ + escape_bytes(s@.take(i + 1)));
        }
        i += 1;
    }
    proof {
        assert(s@.take(n as int) =~= s@);
    }
}

/// Appends a JSON string token holding `s` to `out`.
fn json_string_into(out: &mut Vec<u8>, s: &[u8])
    ensures
        final(out)@ =~= old(out)@ + json_string(s@),
{
    out.push(QUOTE);
    escape_into(out, s);
    out.push(QUOTE);
}

/// The bytes `{"content":` — the head of a content payload.
pub open spec fn content_head() -> Seq<u8> {
    seq![LBRACE, QUOTE, 99, 111, 110, 116, 101, 110, 116, QUOTE, COLON]
}

/// The wire form of a note-content response: `{"content":<string>}`.
pub open spec fn content_response_json(content: Seq<char>) -> Seq<u8> {
    content_head() + json_string(encode_utf8(content)) + seq![RBRACE]
}

/// Encodes a note-content response (also the wire form of a save request,
/// which carries the same single field).
pub fn encode_content(content: &String) -> (r: Vec<u8>)
    ensures
        r@ =~= content_response_json(content@),
{
    let mut out: Vec<u8> = Vec::new();
    out.push(LBRACE);
    out.push(QUOTE);
    out.push(99);
    out.push(111);
    out.push(110);
    out.push(116);
    out.push(101);
    out.push(110);
    out.push(116);
    out.push(QUOTE);
    out.push(COLON);
    proof {
        assert(out@ =~= content_head());
    }
    json_string_into(&mut out, content.as_str().as_bytes());
    out.push(RBRACE);
    out
}

/// Encodes a full note-content response payload.
pub fn encode_file_content_response(r: &GetFileContentResponse) -> (out: Vec<u8>)
    ensures
        out@ =~= content_response_json(r.content@),
{
    encode_content(&r.content)
}

/// The wire form of an item's kind.
pub open spec fn kind_json(k: ItemType) -> Seq<u8> {
    match k {
        ItemType::File => seq![70u8, 105, 108, 101],
        ItemType::Command => seq![67u8, 111, 109, 109, 97, 110, 100],
    }
}

/// The wire form of one listing item:
/// `{"name":<string>,"item_type":"<kind>"}`.
pub open spec fn item_json(name: Seq<char>, kind: ItemType) -> Seq<u8> {
    seq![LBRACE, QUOTE, 110u8, 97, 109, 101, QUOTE, COLON] + json_string(encode_utf8(name)) + seq![
        COMMA,
        QUOTE,
        105u8,
        116,
        101,
        109,
        95,
        116,
        121,
        112,
        101,
        QUOTE,
        COLON,
        QUOTE,
    ] + kind_json(kind) + seq![QUOTE, RBRACE]
}

/// The wire form of the item list, comma-separated.
pub open spec fn items_json(items: Seq<Item>) -> Seq<u8>
    decreases items.len(),
{
    if items.len() == 0 {
        Seq::empty()
    } else if items.len() == 1 {
        item_json(items[0].name@, items[0].item_type)
    } else {
        items_json(items.drop_last()) + seq![COMMA] + item_json(
            items.last().name@,
            items.last().item_type,
        )
    }
}

/// The wire form of a listing response: `{"files":[<items>]}`.
pub open spec fn files_response_json(items: Seq<Item>) -> Seq<u8> {
    seq![LBRACE, QUOTE, 102u8, 105, 108, 101, 115, QUOTE, COLON, LBRACK] + items_json(items)
        + seq![RBRACK, RBRACE]
}

/// The wire form of a list of plain `File` items given by their names.
pub open spec fn file_names_json(names: Seq<Seq<char>>) -> Seq<u8>
    decreases names.len(),
{
    if names.len() == 0 {
        Seq::empty()
    } else if names.len() == 1 {
        item_json(names[0], ItemType::File)
    } else {
        file_names_json(names.drop_last()) + seq![COMMA] + item_json(
            names.last(),
            ItemType::File,
        )
    }
}

/// The wire form of a listing response over plain names.
pub open spec fn files_body(names: Seq<Seq<char>>) -> Seq<u8> {
    seq![LBRACE, QUOTE, 102u8, 105, 108, 101, 115, QUOTE, COLON, LBRACK] + file_names_json(names)
        + seq![RBRACK, RBRACE]
}

/// A list of `File` items and its list of names have the same wire form.
pub proof fn lemma_items_json_names(items: Seq<Item>, names: Seq<Seq<char>>)
    requires
        items.len() == names.len(),
        forall|i: int|
            0 <= i < items.len() ==> (#[trigger] items[i]).name@ == names[i] && items[i].item_type
                == ItemType::File,
    ensures
        items_json(items) == file_names_json(names),
    decreases items.len(),
{
    if items.len() > 1 {
        assert(forall|i: int|
            0 <= i < items.drop_last().len() ==> (#[trigger] items.drop_last()[i]).name@
                == names.drop_last()[i] && items.drop_last()[i].item_type == ItemType::File);
        lemma_items_json_names(items.drop_last(), names.drop_last());
    }
}

/// Appends one item's wire form to `out`.
fn item_into(out: &mut Vec<u8>, it: &Item)
    ensures
        final(out)@ =~= old(out)@ + item_json(it.name@, it.item_type),
{
    out.push(LBRACE);
    out.push(QUOTE);
    out.push(110);
    out.push(97);
    out.push(109);
    out.push(101);
    out.push(QUOTE);
    out.push(COLON);
    json_string_into(out, it.name.as_str().as_bytes());
    out.push(COMMA);
    out.push(QUOTE);
    out.push(105);
    out.push(116);
    out.push(101);
    out.push(109);
    out.push(95);
    out.push(116);
    out.push(121);
    out.push(112);
    out.push(101);
    out.push(QUOTE);
    out.push(COLON);
    out.push(QUOTE);
    match it.item_type {
        ItemType::File => {
            out.push(70);
            out.push(105);
            out.push(108);
            out.push(101);
        },
        ItemType::Command => {
            out.push(67);
            out.push(111);
            out.push(109);
            out.push(109);
            out.push(97);
            out.push(110);
            out.push(100);
        },
    }
    out.push(QUOTE);
    out.push(RBRACE);
}

/// Encodes a listing response payload.
pub fn encode_files_response(r: &GetFilesResponse) -> (out: Vec<u8>)
    ensures
        out@ =~= files_response_json(r.files@),
{
    let mut out: Vec<u8> = Vec::new();
    out.push(LBRACE);
    out.push(QUOTE);
    out.push(102);
    out.push(105);
    out.push(108);
    out.push(101);
    out.push(115);
    out.push(QUOTE);
    out.push(COLON);
    out.push(LBRACK);
    let ghost head = out@;
    let n = r.files.len();
    let mut i: usize = 0;
    while i < n
        invariant
            n == r.files@.len(),
            0 <= i <= n,
            out@ =~= head + items_json(r.files@.take(i as int)),
        decreases n - i,
    {
        proof {
            assert(r.files@.take(i + 1).drop_last() =~= r.files@.take(i as int));
            assert(r.files@.take(i + 1).last() == r.files@[i as int]);
        }
        if i > 0 {
            out.push(COMMA);
        }
        item_into(&mut out, &r.files[i]);
        proof {
            if i == 0 {
                assert(items_json(r.files@.take(1)) == item_json(
                    r.files@[0].name@,
                    r.files@[0].item_type,
                ));
            }
            assert(out@ =~= head + items_json(r.files@.take(i + 1)));
        }
        i += 1;
    }
    proof {
        assert(r.files@.take(n as int) =~= r.files@);
    }
    out.push(RBRACK);
    out.push(RBRACE);
    out
}

} // verus!
