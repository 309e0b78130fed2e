//! CSV records as text, and the proof that their UTF-8 bytes are what the
//! CSV writer writes for the UTF-8 bytes of their fields.

use crate::utils::export::{
    csv_double_quotes, csv_field, csv_fields, csv_needs_quotes, csv_record, csv_special_byte,
    utf8_fields,
};
use vstd::prelude::*;
use vstd::utf8::{encode_scalar, encode_utf8};

verus! {

/// The characters that force a field into quotes: comma, double quote,
/// carriage return and line feed.
pub open spec fn csv_special_char(c: char) -> bool {
    c == ',' || c == '"' || c == '\r' || c == '\n'
}

/// Whether a field of text has to be quoted.
pub open spec fn csv_text_needs_quotes(f: Seq<char>) -> bool {
    exists|i: int| 0 <= i < f.len() && csv_special_char(#[trigger] f[i])
}

/// A field of text with every double quote doubled.
pub open spec fn csv_text_double_quotes(f: Seq<char>) -> Seq<char>
    decreases f.len(),
{
    if f.len() == 0 {
        Seq::empty()
    } else {
        csv_text_double_quotes(f.drop_last()) + if f.last() == '"' {
            seq!['"', '"']
        } else {
            seq![f.last()]
        }
    }
}

/// A field of text as written: as it is, or in double quotes with its
/// quotes doubled when it holds a special character.
pub open spec fn csv_text_field(f: Seq<char>) -> Seq<char> {
    if csv_text_needs_quotes(f) {
        seq!['"'] + csv_text_double_quotes(f) + seq!['"']
    } else {
        f
    }
}

/// Fields of text as written, separated by commas.
pub open spec fn csv_text_fields(fs: Seq<Seq<char>>) -> Seq<char>
    decreases fs.len(),
{
    if fs.len() == 0 {
        Seq::empty()
    } else if fs.len() == 1 {
        csv_text_field(fs[0])
    } else {
        csv_text_fields(fs.drop_last()) + seq![','] + csv_text_field(fs.last())
    }
}

/// A record of text fields as written: the fields separated by commas,
/// `""` when that gives nothing, then a line feed.
pub open spec fn csv_text_record(fs: Seq<Seq<char>>) -> Seq<char> {
    (if csv_text_fields(fs).len() == 0 {
        seq!['"', '"']
    } else {
        csv_text_fields(fs)
    }) + seq!['\n']
}

pub proof fn lemma_encode_concat(a: Seq<char>, b: Seq<char>)
    ensures
        encode_utf8(a + b) == encode_utf8(a) + encode_utf8(b),
    decreases a.len(),
{
    if a.len() == 0 {
        assert(a + b =~= b);
        assert(encode_utf8(a) + encode_utf8(b) =~= encode_utf8(b));
    } else {
        assert((a + b).drop_first() =~= a.drop_first() + b);
        lemma_encode_concat(a.drop_first(), b);
        assert(encode_utf8(a + b) =~= encode_utf8(a) + encode_utf8(b));
    }
}

proof fn lemma_encode_one(c: char)
    ensures
        encode_utf8(seq![c]) == encode_scalar(c as u32),
{
    let one = seq![c];
    assert(one[0] == c);
    assert(one.drop_first() =~= Seq::<char>::empty());
    assert(encode_utf8(Seq::<char>::empty()) =~= Seq::<u8>::empty());
    assert(encode_utf8(one) =~= encode_scalar(c as u32) + encode_utf8(one.drop_first()));
    assert(encode_utf8(one) =~= encode_scalar(c as u32));
}

proof fn lemma_encode_push(a: Seq<char>, c: char)
    ensures
        encode_utf8(a.push(c)) == encode_utf8(a) + encode_scalar(c as u32),
{
    assert(a.push(c) =~= a + seq![c]);
    lemma_encode_concat(a, seq![c]);
    lemma_encode_one(c);
}

proof fn lemma_encode_empty(a: Seq<char>)
    ensures
        (encode_utf8(a).len() == 0) == (a.len() == 0),
{
    if a.len() > 0 {
        assert(encode_scalar(a[0] as u32).len() >= 1);
    }
}

/// The bytes of one character: a character below 128 is its own byte, and
/// every byte of a wider character is 128 or more.
proof fn lemma_char_bytes(c: char)
    ensures
        (c as u32) < 128 ==> encode_scalar(c as u32) == seq![(c as u32) as u8],
        (c as u32) < 128 ==> ((c as u32) as u8 == 34u8 <==> c == '"'),
        (c as u32) < 128 ==> (csv_special_byte((c as u32) as u8) <==> csv_special_char(c)),
        (c as u32) >= 128 ==> forall|i: int|
            0 <= i < encode_scalar(c as u32).len() ==> #[trigger] encode_scalar(c as u32)[i] >= 128,
        (c as u32) >= 128 ==> !csv_special_char(c),
{
    let s = c as u32;
    if s < 128 {
        assert((s & 0x7F) as u8 == s as u8) by (bit_vector)
            requires
                s < 128,
        ;
        assert(('"' as u32) == 34);
        assert((',' as u32) == 44);
        assert(('\r' as u32) == 13);
        assert(('\n' as u32) == 10);
        assert(((s as u8) as u32) == s) by (bit_vector)
            requires
                s < 128,
        ;
    } else {
        assert(0x80u8 | ((s & 0x3F) as u8) >= 128) by (bit_vector);
        assert(0x80u8 | (((s >> 6) & 0x3F) as u8) >= 128) by (bit_vector);
        assert(0x80u8 | (((s >> 12) & 0x3F) as u8) >= 128) by (bit_vector);
        assert(0xC0u8 | (((s >> 6) & 0x1F) as u8) >= 128) by (bit_vector);
        assert(0xE0u8 | (((s >> 12) & 0x0F) as u8) >= 128) by (bit_vector);
        assert(0xF0u8 | (((s >> 18) & 0x7) as u8) >= 128) by (bit_vector);
        assert(('"' as u32) == 34);
        assert((',' as u32) == 44);
        assert(('\r' as u32) == 13);
        assert(('\n' as u32) == 10);
    }
}

proof fn lemma_needs_quotes_concat(x: Seq<u8>, y: Seq<u8>)
    ensures
        csv_needs_quotes(x + y) == (csv_needs_quotes(x) || csv_needs_quotes(y)),
{
    if csv_needs_quotes(x + y) {
        let i = choose|i: int| 0 <= i < (x + y).len() && csv_special_byte(#[trigger] (x + y)[i]);
        if i < x.len() {
            assert(csv_special_byte(x[i]));
        } else {
            assert(csv_special_byte(y[i - x.len()]));
        }
    }
    if csv_needs_quotes(x) {
        let i = choose|i: int| 0 <= i < x.len() && csv_special_byte(#[trigger] x[i]);
        assert(csv_special_byte((x + y)[i]));
    }
    if csv_needs_quotes(y) {
        let i = choose|i: int| 0 <= i < y.len() && csv_special_byte(#[trigger] y[i]);
        assert(csv_special_byte((x + y)[x.len() + i]));
    }
}

proof fn lemma_double_quotes_concat(x: Seq<u8>, y: Seq<u8>)
    ensures
        csv_double_quotes(x + y) == csv_double_quotes(x) + csv_double_quotes(y),
    decreases y.len(),
{
    if y.len() == 0 {
        assert(x + y =~= x);
        assert(csv_double_quotes(x) + csv_double_quotes(y) =~= csv_double_quotes(x));
    } else {
        assert((x + y).drop_last() =~= x + y.drop_last());
        lemma_double_quotes_concat(x, y.drop_last());
        assert(csv_double_quotes(x + y) =~= csv_double_quotes(x) + csv_double_quotes(y));
    }
}

proof fn lemma_double_quotes_none(x: Seq<u8>)
    requires
        forall|i: int| 0 <= i < x.len() ==> x[i] != 34u8,
    ensures
        csv_double_quotes(x) == x,
    decreases x.len(),
{
    if x.len() > 0 {
        lemma_double_quotes_none(x.drop_last());
        assert(csv_double_quotes(x) =~= x);
    }
}

/// The bytes of one character as a field part: whether they force quotes,
/// and how doubling quotes changes them.
proof fn lemma_char_field_bytes(c: char)
    ensures
        csv_needs_quotes(encode_scalar(c as u32)) == csv_special_char(c),
        csv_double_quotes(encode_scalar(c as u32)) == encode_utf8(
            if c == '"' {
                seq!['"', '"']
            } else {
                seq![c]
            },
        ),
{
    lemma_char_bytes(c);
    let e = encode_scalar(c as u32);
    lemma_encode_one(c);
    if (c as u32) < 128 {
        assert(e.len() == 1);
        assert(e.drop_last() =~= Seq::<u8>::empty());
        assert(csv_double_quotes(Seq::<u8>::empty()) =~= Seq::<u8>::empty());
        assert(e.last() == e[0]);
        if csv_special_char(c) {
            assert(csv_special_byte(e[0]));
        }
        if c == '"' {
            lemma_encode_push(seq!['"'], '"');
            assert(seq!['"'].push('"') =~= seq!['"', '"']);
            assert(csv_double_quotes(e) =~= seq![34u8, 34u8]);
        } else {
            assert(csv_double_quotes(e) =~= e);
        }
    } else {
        lemma_double_quotes_none(e);
    }
}

/// A field's bytes need quotes exactly when its text does, and doubling the
/// quotes of its bytes gives the bytes of its text with quotes doubled.
proof fn lemma_field_bytes(f: Seq<char>)
    ensures
        csv_needs_quotes(encode_utf8(f)) == csv_text_needs_quotes(f),
        csv_double_quotes(encode_utf8(f)) == encode_utf8(csv_text_double_quotes(f)),
    decreases f.len(),
{
    if f.len() == 0 {
        assert(csv_double_quotes(encode_utf8(f)) =~= Seq::<u8>::empty());
    } else {
        let g = f.drop_last();
        let c = f.last();
        assert(f =~= g.push(c));
        lemma_field_bytes(g);
        lemma_encode_push(g, c);
        lemma_needs_quotes_concat(encode_utf8(g), encode_scalar(c as u32));
        lemma_double_quotes_concat(encode_utf8(g), encode_scalar(c as u32));
        lemma_char_field_bytes(c);
        let tail = if c == '"' {
            seq!['"', '"']
        } else {
            seq![c]
        };
        lemma_encode_concat(csv_text_double_quotes(g), tail);
        if csv_text_needs_quotes(f) {
            let i = choose|i: int| 0 <= i < f.len() && csv_special_char(#[trigger] f[i]);
            if i < g.len() {
                assert(csv_special_char(g[i]));
            }
        }
        if csv_text_needs_quotes(g) {
            let i = choose|i: int| 0 <= i < g.len() && csv_special_char(#[trigger] g[i]);
            assert(csv_special_char(f[i]));
        }
    }
}

proof fn lemma_field_encode(f: Seq<char>)
    ensures
        encode_utf8(csv_text_field(f)) == csv_field(encode_utf8(f)),
{
    lemma_field_bytes(f);
    if csv_text_needs_quotes(f) {
        lemma_encode_concat(seq!['"'] + csv_text_double_quotes(f), seq!['"']);
        lemma_encode_concat(seq!['"'], csv_text_double_quotes(f));
        lemma_encode_one('"');
        lemma_char_bytes('"');
    }
}

proof fn lemma_fields_encode(fs: Seq<Seq<char>>)
    ensures
        encode_utf8(csv_text_fields(fs)) == csv_fields(utf8_fields(fs)),
    decreases fs.len(),
{
    if fs.len() == 1 {
        lemma_field_encode(fs[0]);
    } else if fs.len() > 1 {
        assert(utf8_fields(fs).drop_last() =~= utf8_fields(fs.drop_last()));
        lemma_fields_encode(fs.drop_last());
        lemma_field_encode(fs.last());
        lemma_encode_concat(csv_text_fields(fs.drop_last()) + seq![','], csv_text_field(fs.last()));
        lemma_encode_concat(csv_text_fields(fs.drop_last()), seq![',']);
        lemma_encode_one(',');
        lemma_char_bytes(',');
    }
}

/// The UTF-8 bytes of a text record are what the CSV writer writes for the
/// UTF-8 bytes of its fields.
pub proof fn lemma_record_encode(fs: Seq<Seq<char>>)
    ensures
        encode_utf8(csv_text_record(fs)) == csv_record(utf8_fields(fs)),
{
    lemma_fields_encode(fs);
    lemma_encode_empty(csv_text_fields(fs));
    let body = if csv_text_fields(fs).len() == 0 {
        seq!['"', '"']
    } else {
        csv_text_fields(fs)
    };
    lemma_encode_concat(body, seq!['\n']);
    lemma_encode_one('\n');
    lemma_char_bytes('\n');
    if csv_text_fields(fs).len() == 0 {
        lemma_encode_push(seq!['"'], '"');
        assert(seq!['"'].push('"') =~= seq!['"', '"']);
        lemma_encode_one('"');
        lemma_char_bytes('"');
    }
}

} // verus!
