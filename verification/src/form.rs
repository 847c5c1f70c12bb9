//! `application/x-www-form-urlencoded` query strings: how name/value pairs
//! are written into a URL query, how such a query reads back, and the proof
//! that reading gives back exactly the pairs written.
use vstd::prelude::*;
use vstd::utf8::{decode_utf8, encode_utf8};

verus! {

/// The bytes that the serializer writes as they are: `*`, `-`, `.`, `_`,
/// ASCII digits and ASCII letters.
pub open spec fn byte_unchanged(b: u8) -> bool {
    b == 42 || b == 45 || b == 46 || b == 95 || (48 <= b <= 57) || (65 <= b <= 90) || (97 <= b
        <= 122)
}

/// The upper-case hexadecimal digit of `d` (`0 <= d < 16`).
pub open spec fn hex_digit(d: int) -> char {
    if d < 10 {
        (48 + d) as char
    } else {
        (55 + d) as char
    }
}

pub open spec fn is_hex_char(c: char) -> bool {
    ('0' <= c <= '9') || ('A' <= c <= 'F') || ('a' <= c <= 'f')
}

/// The value of a hexadecimal digit.
pub open spec fn hex_value(c: char) -> int {
    if '0' <= c <= '9' {
        c as int - 48
    } else if 'A' <= c <= 'F' {
        c as int - 55
    } else {
        c as int - 87
    }
}

/// How one byte is written: unchanged, `+` for a space, else `%XY`.
pub open spec fn byte_serialized(b: u8) -> Seq<char> {
    if byte_unchanged(b) {
        seq![b as char]
    } else if b == 32 {
        seq!['+']
    } else {
        seq!['%', hex_digit((b / 16) as int), hex_digit((b % 16) as int)]
    }
}

/// How a byte string is written.
pub open spec fn bytes_serialized(bs: Seq<u8>) -> Seq<char>
    decreases bs.len(),
{
    if bs.len() == 0 {
        Seq::<char>::empty()
    } else {
        byte_serialized(bs[0]) + bytes_serialized(bs.drop_first())
    }
}

/// How a text is written: its UTF-8 bytes, serialized.
pub open spec fn form_encoded(s: Seq<char>) -> Seq<char> {
    bytes_serialized(encode_utf8(s))
}

/// How a name/value pair is written: `name=value`.
pub open spec fn pair_encoded(p: (Seq<char>, Seq<char>)) -> Seq<char> {
    form_encoded(p.0) + seq!['='] + form_encoded(p.1)
}

/// `pieces` joined with `sep` between each two neighbours.
pub open spec fn joined_on(pieces: Seq<Seq<char>>, sep: char) -> Seq<char>
    decreases pieces.len(),
{
    if pieces.len() == 0 {
        Seq::<char>::empty()
    } else if pieces.len() == 1 {
        pieces[0]
    } else {
        joined_on(pieces.drop_last(), sep) + seq![sep] + pieces.last()
    }
}

/// How a list of pairs is written: the pairs, in order, separated by `&`.
pub open spec fn query_encoded(pairs: Seq<(Seq<char>, Seq<char>)>) -> Seq<char> {
    joined_on(pairs.map_values(|p: (Seq<char>, Seq<char>)| pair_encoded(p)), '&')
}

/// The pieces of `s` between its `sep` characters: `n` of them give `n + 1`
/// pieces.
pub open spec fn split_on(s: Seq<char>, sep: char) -> Seq<Seq<char>>
    decreases s.len(),
{
    if s.len() == 0 {
        seq![Seq::<char>::empty()]
    } else {
        let before = split_on(s.drop_last(), sep);
        if s.last() == sep {
            before.push(Seq::<char>::empty())
        } else {
            before.update(before.len() - 1, before.last().push(s.last()))
        }
    }
}

/// The bytes that a written text stands for: `+` is a space, `%XY` with two
/// hexadecimal digits is that byte, any other (ASCII) character is itself.
pub open spec fn form_bytes_decoded(s: Seq<char>) -> Seq<u8>
    decreases s.len(),
{
    if s.len() == 0 {
        Seq::<u8>::empty()
    } else if s[0] == '+' {
        seq![32u8] + form_bytes_decoded(s.drop_first())
    } else if s[0] == '%' && s.len() >= 3 && is_hex_char(s[1]) && is_hex_char(s[2]) {
        seq![(hex_value(s[1]) * 16 + hex_value(s[2])) as u8] + form_bytes_decoded(
            s.subrange(3, s.len() as int),
        )
    } else {
        seq![s[0] as u8] + form_bytes_decoded(s.drop_first())
    }
}

/// The text that a written text stands for.
pub open spec fn form_decoded(s: Seq<char>) -> Seq<char> {
    decode_utf8(form_bytes_decoded(s))
}

/// The pair that one `&`-separated piece of a query stands for: the name is
/// what comes before the first `=`, the value what comes after it.
pub open spec fn pair_decoded(piece: Seq<char>) -> (Seq<char>, Seq<char>) {
    let parts = split_on(piece, '=');
    (form_decoded(parts[0]), form_decoded(joined_on(parts.drop_first(), '=')))
}

/// The pairs that a query stands for.
pub open spec fn query_decoded(q: Seq<char>) -> Seq<(Seq<char>, Seq<char>)> {
    split_on(q, '&').map_values(|p: Seq<char>| pair_decoded(p))
}

pub open spec fn lacks(s: Seq<char>, c: char) -> bool {
    forall|i: int| 0 <= i < s.len() ==> s[i] != c
}

/// No character that a serialized byte string holds is one that structures
/// a URL query or ends it.
pub open spec fn query_safe(s: Seq<char>) -> bool {
    &&& lacks(s, '&')
    &&& lacks(s, '=')
    &&& lacks(s, '#')
    &&& lacks(s, '?')
}

proof fn lemma_hex_digit(d: int)
    requires
        0 <= d < 16,
    ensures
        is_hex_char(hex_digit(d)),
        hex_value(hex_digit(d)) == d,
        hex_digit(d) != '&' && hex_digit(d) != '=' && hex_digit(d) != '#' && hex_digit(d) != '?',
{
}

proof fn lemma_byte_serialized_safe(b: u8)
    ensures
        query_safe(byte_serialized(b)),
{
    if !byte_unchanged(b) && b != 32 {
        lemma_hex_digit((b / 16) as int);
        lemma_hex_digit((b % 16) as int);
    }
}

proof fn lemma_concat_safe(a: Seq<char>, b: Seq<char>)
    requires
        query_safe(a),
        query_safe(b),
    ensures
        query_safe(a + b),
{
    assert forall|i: int| 0 <= i < (a + b).len() implies (a + b)[i] != '&' && (a + b)[i] != '='
        && (a + b)[i] != '#' && (a + b)[i] != '?' by {
        if i < a.len() {
            assert((a + b)[i] == a[i]);
        } else {
            assert((a + b)[i] == b[i - a.len()]);
        }
    }
}

/// A serialized byte string holds no `&`, `=`, `#` or `?`.
pub proof fn lemma_bytes_serialized_safe(bs: Seq<u8>)
    ensures
        query_safe(bytes_serialized(bs)),
    decreases bs.len(),
{
    if bs.len() > 0 {
        lemma_byte_serialized_safe(bs[0]);
        lemma_bytes_serialized_safe(bs.drop_first());
        lemma_concat_safe(byte_serialized(bs[0]), bytes_serialized(bs.drop_first()));
    }
}

proof fn lemma_byte_roundtrip(b: u8, rest: Seq<char>)
    ensures
        form_bytes_decoded(byte_serialized(b) + rest) == seq![b] + form_bytes_decoded(rest),
{
    let s = byte_serialized(b) + rest;
    if byte_unchanged(b) {
        assert(s[0] == b as char);
        assert(s.drop_first() =~= rest);
    } else if b == 32 {
        assert(s[0] == '+');
        assert(s.drop_first() =~= rest);
    } else {
        lemma_hex_digit((b / 16) as int);
        lemma_hex_digit((b % 16) as int);
        assert(s[0] == '%');
        assert(s[1] == hex_digit((b / 16) as int));
        assert(s[2] == hex_digit((b % 16) as int));
        assert(s.subrange(3, s.len() as int) =~= rest);
        assert(((b / 16) * 16 + b % 16) as u8 == b);
    }
}

/// Reading a serialized byte string gives back the bytes.
pub proof fn lemma_bytes_roundtrip(bs: Seq<u8>)
    ensures
        form_bytes_decoded(bytes_serialized(bs)) == bs,
    decreases bs.len(),
{
    if bs.len() > 0 {
        lemma_byte_roundtrip(bs[0], bytes_serialized(bs.drop_first()));
        lemma_bytes_roundtrip(bs.drop_first());
        assert(seq![bs[0]] + bs.drop_first() =~= bs);
    }
}

/// Reading a written text gives back the text.
pub proof fn lemma_text_roundtrip(s: Seq<char>)
    ensures
        form_decoded(form_encoded(s)) == s,
        query_safe(form_encoded(s)),
{
    lemma_bytes_roundtrip(encode_utf8(s));
    vstd::utf8::encode_utf8_decode_utf8(s);
    lemma_bytes_serialized_safe(encode_utf8(s));
}

pub proof fn lemma_split_nonempty(s: Seq<char>, sep: char)
    ensures
        split_on(s, sep).len() >= 1,
    decreases s.len(),
{
    if s.len() > 0 {
        lemma_split_nonempty(s.drop_last(), sep);
    }
}

/// A text without the separator is one piece.
pub proof fn lemma_split_single(s: Seq<char>, sep: char)
    requires
        lacks(s, sep),
    ensures
        split_on(s, sep) == seq![s],
    decreases s.len(),
{
    if s.len() > 0 {
        let t = s.drop_last();
        assert forall|i: int| 0 <= i < t.len() implies t[i] != sep by {
            assert(t[i] == s[i]);
        }
        lemma_split_single(t, sep);
        assert(s.last() != sep);
        assert(t.push(s.last()) =~= s);
        assert(split_on(s, sep) =~= seq![s]);
    } else {
        assert(s =~= Seq::<char>::empty());
        assert(split_on(s, sep) =~= seq![s]);
    }
}

/// Cutting `x sep y` at `sep` gives the pieces of `x` followed by those of `y`.
pub proof fn lemma_split_concat(x: Seq<char>, y: Seq<char>, sep: char)
    ensures
        split_on(x + seq![sep] + y, sep) == split_on(x, sep) + split_on(y, sep),
    decreases y.len(),
{
    let s = x + seq![sep] + y;
    if y.len() == 0 {
        assert(s.drop_last() =~= x);
        assert(split_on(y, sep) =~= seq![Seq::<char>::empty()]);
        assert(split_on(s, sep) =~= split_on(x, sep) + split_on(y, sep));
    } else {
        let y2 = y.drop_last();
        assert(s.drop_last() =~= x + seq![sep] + y2);
        assert(s.last() == y.last());
        lemma_split_concat(x, y2, sep);
        lemma_split_nonempty(y2, sep);
        lemma_split_nonempty(x, sep);
        let before = split_on(y2, sep);
        if y.last() == sep {
            assert(split_on(s, sep) =~= split_on(x, sep) + split_on(y, sep));
        } else {
            let whole = split_on(x, sep) + before;
            assert(whole.last() == before.last());
            assert(whole.update(whole.len() - 1, before.last().push(y.last())) =~= split_on(x, sep)
                + before.update(before.len() - 1, before.last().push(y.last())));
            assert(split_on(s, sep) =~= split_on(x, sep) + split_on(y, sep));
        }
    }
}

/// Joining pieces that hold no separator and cutting again gives the pieces.
pub proof fn lemma_join_then_split(pieces: Seq<Seq<char>>, sep: char)
    requires
        pieces.len() > 0,
        forall|i: int| 0 <= i < pieces.len() ==> lacks(#[trigger] pieces[i], sep),
    ensures
        split_on(joined_on(pieces, sep), sep) == pieces,
    decreases pieces.len(),
{
    if pieces.len() == 1 {
        lemma_split_single(pieces[0], sep);
        assert(seq![pieces[0]] =~= pieces);
    } else {
        let init = pieces.drop_last();
        assert forall|i: int| 0 <= i < init.len() implies lacks(#[trigger] init[i], sep) by {
            assert(init[i] == pieces[i]);
        }
        lemma_join_then_split(init, sep);
        lemma_split_concat(joined_on(init, sep), pieces.last(), sep);
        lemma_split_single(pieces.last(), sep);
        assert(init + seq![pieces.last()] =~= pieces);
    }
}

/// A written pair reads back as that pair.
pub proof fn lemma_pair_roundtrip(p: (Seq<char>, Seq<char>))
    ensures
        pair_decoded(pair_encoded(p)) == p,
        lacks(pair_encoded(p), '&'),
        lacks(pair_encoded(p), '#'),
        lacks(pair_encoded(p), '?'),
{
    let a = form_encoded(p.0);
    let b = form_encoded(p.1);
    lemma_text_roundtrip(p.0);
    lemma_text_roundtrip(p.1);
    lemma_split_concat(a, b, '=');
    lemma_split_single(a, '=');
    lemma_split_single(b, '=');
    let parts = split_on(pair_encoded(p), '=');
    assert(parts =~= seq![a, b]);
    assert(parts.drop_first() =~= seq![b]);
    let e = pair_encoded(p);
    assert forall|i: int| 0 <= i < e.len() implies e[i] != '&' && e[i] != '#' && e[i] != '?' by {
        if i < a.len() {
            assert(e[i] == a[i]);
        } else if i > a.len() {
            assert(e[i] == b[i - a.len() - 1]);
        }
    }
}

proof fn lemma_joined_lacks(pieces: Seq<Seq<char>>, sep: char, c: char)
    requires
        sep != c,
        forall|i: int| 0 <= i < pieces.len() ==> lacks(#[trigger] pieces[i], c),
    ensures
        lacks(joined_on(pieces, sep), c),
    decreases pieces.len(),
{
    if pieces.len() > 1 {
        let init = pieces.drop_last();
        assert forall|i: int| 0 <= i < init.len() implies lacks(#[trigger] init[i], c) by {
            assert(init[i] == pieces[i]);
        }
        lemma_joined_lacks(init, sep, c);
        let j = joined_on(init, sep);
        let l = pieces.last();
        let whole = j + seq![sep] + l;
        assert(lacks(l, c));
        assert forall|i: int| 0 <= i < whole.len() implies whole[i] != c by {
            if i < j.len() {
                assert(whole[i] == j[i]);
            } else if i > j.len() {
                assert(whole[i] == l[i - j.len() - 1]);
            }
        }
    } else if pieces.len() == 1 {
        assert(lacks(pieces[0], c));
    }
}

/// Reading a written, non-empty list of pairs gives back exactly that list,
/// in order; and the written list holds no `#` or `?`, so in a URL it runs
/// to the end of the query.
pub proof fn law_query_roundtrip(pairs: Seq<(Seq<char>, Seq<char>)>)
    requires
        pairs.len() > 0,
    ensures
        query_decoded(query_encoded(pairs)) == pairs,
        lacks(query_encoded(pairs), '#'),
        lacks(query_encoded(pairs), '?'),
{
    let f = |p: (Seq<char>, Seq<char>)| pair_encoded(p);
    let pieces = pairs.map_values(f);
    assert forall|i: int| 0 <= i < pieces.len() implies lacks(#[trigger] pieces[i], '&') && lacks(
        pieces[i],
        '#',
    ) && lacks(pieces[i], '?') by {
        lemma_pair_roundtrip(pairs[i]);
    }
    lemma_join_then_split(pieces, '&');
    lemma_joined_lacks(pieces, '&', '#');
    lemma_joined_lacks(pieces, '&', '?');
    assert forall|i: int| 0 <= i < pairs.len() implies #[trigger] query_decoded(
        query_encoded(pairs),
    )[i] == pairs[i] by {
        lemma_pair_roundtrip(pairs[i]);
    }
    assert(query_decoded(query_encoded(pairs)) =~= pairs);
}

} // verus!
