//! Parsing of a raw HTTP response received from the Docker daemon.

use vstd::prelude::*;
use vstd::utf8::{valid_utf8, decode_utf8};
use crate::strmap::StrMap;
use crate::text::{
    parse_unsigned, parse_unsigned_spec, split_from, split_str, split_str_spec, to_chars, from_chars,
    utf8_string, lemma_split_from_nonempty, push_chars, decimal_text, lemma_decimal_text_parses,
};

verus! {

broadcast use vstd::string::group_string_axioms;

/// A parsed HTTP response.
pub struct Response {
    /// The protocol version of the status line, e.g. `HTTP/1.1`.
    pub http_version: String,
    /// The status code of the status line, or 0 when it does not parse.
    pub status_code: u16,
    /// Header fields by name; a later field replaces an earlier one.
    pub headers: StrMap<String>,
    /// The bytes after the header block.
    pub body: Vec<u8>,
}

/// The error of a response whose text is not valid UTF-8.
#[derive(Debug, Clone, PartialEq, Eq)]
pub struct InvalidResponse {
    /// A description for people.
    pub message: String,
}

/// Whether `raw` holds CR LF CR LF at position `i`.
pub open spec fn is_blank_line_at(raw: Seq<u8>, i: int) -> bool {
    0 <= i && i + 3 < raw.len() && raw[i] == 13 && raw[i + 1] == 10 && raw[i + 2] == 13 && raw[i + 3] == 10
}

/// Whether the header block ends with CR LF CR LF at `i`, its first occurrence.
pub open spec fn is_header_end(raw: Seq<u8>, i: int) -> bool {
    is_blank_line_at(raw, i) && forall|j: int| 0 <= j < i ==> !#[trigger] is_blank_line_at(raw, j)
}

/// The bytes of the header block: up to the first CR LF CR LF, or, when
/// there is none, all but the last three bytes.
pub open spec fn header_bytes(raw: Seq<u8>) -> Seq<u8> {
    if exists|i: int| is_header_end(raw, i) {
        raw.take(choose|i: int| is_header_end(raw, i))
    } else if raw.len() > 3 {
        raw.take(raw.len() - 3)
    } else {
        Seq::empty()
    }
}

/// The body: what follows the first CR LF CR LF (its last byte when nothing
/// follows), or the whole input when there is no CR LF CR LF.
pub open spec fn body_bytes(raw: Seq<u8>) -> Seq<u8> {
    if exists|i: int| is_header_end(raw, i) {
        let i = choose|i: int| is_header_end(raw, i);
        if i + 4 >= raw.len() {
            raw.skip(raw.len() - 1)
        } else {
            raw.skip(i + 4)
        }
    } else {
        raw
    }
}

/// The lines of the header block.
pub open spec fn header_lines(text: Seq<char>) -> Seq<Seq<char>> {
    split_str_spec(text, "\r\n"@)
}

/// The protocol version named by the status line.
pub open spec fn version_of(status_line: Seq<char>) -> Seq<char> {
    let items = split_str_spec(status_line, " "@);
    if items.len() >= 2 { items[0] } else { Seq::empty() }
}

/// The status code named by the status line, 0 when it does not parse.
pub open spec fn status_of(status_line: Seq<char>) -> nat {
    let items = split_str_spec(status_line, " "@);
    if items.len() >= 2 {
        match parse_unsigned_spec(items[1], 65535) {
            Some(v) => v,
            None => 0,
        }
    } else {
        0
    }
}

/// The header fields of the lines after the status line: each line that
/// splits at `": "` into exactly a name and a value.
pub open spec fn header_fields(lines: Seq<Seq<char>>) -> Map<Seq<char>, Seq<char>>
    decreases lines.len(),
{
    if lines.len() == 0 {
        Map::empty()
    } else {
        let m = header_fields(lines.drop_last());
        let items = split_str_spec(lines.last(), ": "@);
        if items.len() == 2 {
            m.insert(items[0], items[1])
        } else {
            m
        }
    }
}

/// Whether the string map `m` holds exactly the texts of `spec_map`.
pub open spec fn same_text_map(m: Map<Seq<char>, String>, spec_map: Map<Seq<char>, Seq<char>>) -> bool {
    &&& forall|k: Seq<char>| #[trigger] m.contains_key(k) <==> spec_map.contains_key(k)
    &&& forall|k: Seq<char>| #[trigger] m.contains_key(k) ==> m[k]@ == spec_map[k]
}

fn is_blank_line(raw: &Vec<u8>, i: usize) -> (res: bool)
    requires
        raw.len() >= 4,
        i <= raw.len() - 4,
    ensures
        res == is_blank_line_at(raw@, i as int),
{
    raw[i] == 13 && raw[i + 1] == 10 && raw[i + 2] == 13 && raw[i + 3] == 10
}

fn slice_from(raw: &Vec<u8>, start: usize, end: usize) -> (res: Vec<u8>)
    requires
        start <= end <= raw@.len(),
    ensures
        res@ == raw@.subrange(start as int, end as int),
{
    let mut out: Vec<u8> = Vec::new();
    let mut k = start;
    while k < end
        invariant
            start <= k <= end,
            end <= raw@.len(),
            out@ == raw@.subrange(start as int, k as int),
        decreases end - k,
    {
        out.push(raw[k]);
        k = k + 1;
    }
    out
}

/// Splits a raw HTTP response into status line, header fields and body.
/// Fails only when the header block is not valid UTF-8.
pub fn get_response(raw: &Vec<u8>) -> (res: Result<Response, InvalidResponse>)
    ensures
        match res {
            Ok(r) => {
                let text = decode_utf8(header_bytes(raw@));
                let lines = header_lines(text);
                &&& valid_utf8(header_bytes(raw@))
                &&& r.http_version@ == version_of(lines[0])
                &&& r.status_code == status_of(lines[0])
                &&& same_text_map(r.headers@, header_fields(lines.skip(1)))
                &&& r.body@ == body_bytes(raw@)
            },
            Err(_) => !valid_utf8(header_bytes(raw@)),
        },
{
    let n = raw.len();
    let mut i: usize = 0;
    let mut found = false;
    while !found && n >= 4 && i <= n - 4
        invariant
            n == raw@.len(),
            i <= n,
            found ==> n >= 4 && i <= n - 4 && is_blank_line_at(raw@, i as int),
            forall|j: int| 0 <= j < i ==> !#[trigger] is_blank_line_at(raw@, j),
        decreases n - i, if found { 0int } else { 1int },
    {
        if is_blank_line(raw, i) {
            found = true;
        } else {
            i = i + 1;
        }
    }
    let header_raw;
    let body_start: usize;
    if found {
        assert(is_header_end(raw@, i as int));
        assert forall|j: int| #[trigger] is_header_end(raw@, j) implies j == i by {
            if j < i {
                assert(!is_blank_line_at(raw@, j));
            } else if j > i {
                assert(!is_blank_line_at(raw@, i as int));
            }
        }
        header_raw = slice_from(raw, 0, i);
        body_start = if i + 4 >= n { n - 1 } else { i + 4 };
    } else {
        assert(forall|j: int| !is_header_end(raw@, j)) by {
            assert forall|j: int| !is_header_end(raw@, j) by {
                if is_header_end(raw@, j) && j >= i {
                    assert(is_blank_line_at(raw@, j));
                }
            }
        }
        header_raw = slice_from(raw, 0, if n > 3 { n - 3 } else { 0 });
        body_start = 0;
    }
    let body = slice_from(raw, body_start, n);
    assert(body@ == body_bytes(raw@));
    assert(header_raw@ == header_bytes(raw@));
    let text = match utf8_string(header_raw) {
        Some(t) => t,
        None => {
            return Err(InvalidResponse {
                message: crate::text::owned("Docker returns an invalid http response."),
            });
        },
    };
    let chars = to_chars(text.as_str());
    let crlf = to_chars("\r\n");
    proof {
        reveal_strlit("\r\n");
        reveal_strlit(" ");
        reveal_strlit(": ");
    }
    let lines = split_str(&chars, &crlf);
    let ghost spec_lines = header_lines(text@);
    proof {
        lemma_split_from_nonempty(text@, "\r\n"@, 0, 0);
    }
    let space = to_chars(" ");
    let items = split_str(&lines[0], &space);
    let mut http_version = String::new();
    let mut status_code: u16 = 0;
    if items.len() >= 2 {
        http_version = from_chars(&items[0]);
        status_code = match parse_unsigned(&items[1], 65535) {
            Some(v) => v as u16,
            None => 0,
        };
    }
    let colon = to_chars(": ");
    let mut headers: StrMap<String> = StrMap::new();
    let mut k: usize = 1;
    while k < lines.len()
        invariant
            1 <= k <= lines@.len(),
            lines@.len() == spec_lines.len(),
            forall|j: int| 0 <= j < lines@.len() ==> #[trigger] lines@[j]@ == spec_lines[j],
            colon@ == ": "@,
            colon@.len() == 2,
            same_text_map(headers@, header_fields(spec_lines.subrange(1, k as int))),
        decreases lines@.len() - k,
    {
        let parts = split_str(&lines[k], &colon);
        proof {
            assert(spec_lines.subrange(1, k + 1).drop_last() == spec_lines.subrange(1, k as int));
            assert(spec_lines.subrange(1, k + 1).last() == spec_lines[k as int]);
        }
        if parts.len() == 2 {
            let key = from_chars(&parts[0]);
            let value = from_chars(&parts[1]);
            headers.insert(key, value);
        }
        k = k + 1;
    }
    assert(spec_lines.subrange(1, lines@.len() as int) == spec_lines.skip(1));
    Ok(Response { http_version, status_code, headers, body })
}

/// The text of a chunked body: the pieces between CR LF that are not
/// empty, keeping the second, fourth, and so on (the chunk data; the others
/// are chunk sizes).
pub open spec fn chunk_data(pieces: Seq<Seq<char>>) -> (Seq<char>, nat)
    decreases pieces.len(),
{
    if pieces.len() == 0 {
        (Seq::empty(), 0)
    } else {
        let (text, count) = chunk_data(pieces.drop_last());
        let p = pieces.last();
        if p.len() == 0 {
            (text, count)
        } else if (count + 1) % 2 != 0 {
            (text, count + 1)
        } else {
            (text + p, count + 1)
        }
    }
}

/// The decoded body of a response text: the text itself when it has no
/// CR LF, else the chunk data.
pub open spec fn encoded_body(text: Seq<char>) -> Seq<char> {
    let pieces = split_str_spec(text, "\r\n"@);
    if pieces.len() == 1 { text } else { chunk_data(pieces).0 }
}

impl Response {
    /// The body as text, with chunked transfer framing removed.
    pub fn get_encoded_body(&self) -> (res: Result<String, InvalidResponse>)
        ensures
            match res {
                Ok(s) => valid_utf8(self.body@) && s@ == encoded_body(decode_utf8(self.body@)),
                Err(_) => !valid_utf8(self.body@),
            },
    {
        let text = match utf8_string(self.body.clone()) {
            Some(t) => t,
            None => {
                return Err(InvalidResponse {
                    message: crate::text::owned("Docker returns an invalid http response."),
                });
            },
        };
        let chars = to_chars(text.as_str());
        let crlf = to_chars("\r\n");
        proof {
            reveal_strlit("\r\n");
        }
        let pieces = split_str(&chars, &crlf);
        if pieces.len() == 1 {
            return Ok(text);
        }
        let ghost sp = split_str_spec(text@, "\r\n"@);
        let mut out = String::new();
        let mut index: u64 = 0;
        let mut k: usize = 0;
        while k < pieces.len()
            invariant
                k <= pieces@.len(),
                pieces@.len() == sp.len(),
                forall|j: int| 0 <= j < pieces@.len() ==> #[trigger] pieces@[j]@ == sp[j],
                index <= k,
                (out@, index as nat) == chunk_data(sp.take(k as int)),
            decreases pieces@.len() - k,
        {
            proof {
                assert(sp.take(k + 1).drop_last() == sp.take(k as int));
                assert(sp.take(k + 1).last() == sp[k as int]);
            }
            if pieces[k].len() > 0 {
                index = index + 1;
                if index % 2 == 0 {
                    push_chars(&mut out, pieces[k].as_slice());
                }
            }
            k = k + 1;
        }
        assert(sp.take(pieces@.len() as int) == sp);
        Ok(out)
    }
}

/// Whether `p` holds no CR LF.
pub open spec fn no_crlf(p: Seq<char>) -> bool {
    forall|i: int| 0 <= i < p.len() - 1 ==> !(#[trigger] p[i] == '\r' && p[i + 1] == '\n')
}

/// The lowercase hexadecimal digit for a value below 16.
pub open spec fn hex_digit(d: nat) -> char {
    if d < 10 {
        ((d + 48) as u32) as char
    } else {
        ((d - 10 + 97) as u32) as char
    }
}

/// A number in lowercase hexadecimal without leading zeros (as `{:x}`
/// writes it).
pub open spec fn hex_text(n: nat) -> Seq<char>
    decreases n,
{
    if n < 16 {
        seq![hex_digit(n)]
    } else {
        hex_text(n / 16).push(hex_digit(n % 16))
    }
}

/// The framing of chunks in chunked transfer encoding: each chunk as its
/// length in hexadecimal, CR LF, its data and CR LF.
pub open spec fn chunk_frames(cs: Seq<Seq<char>>) -> Seq<char>
    decreases cs.len(),
{
    if cs.len() == 0 {
        Seq::empty()
    } else {
        hex_text(cs[0].len()) + "\r\n"@ + cs[0] + "\r\n"@ + chunk_frames(cs.skip(1))
    }
}

/// A body in chunked transfer encoding: the framed chunks, then the last
/// chunk `0` and the empty trailer.
pub open spec fn chunked_body(cs: Seq<Seq<char>>) -> Seq<char> {
    chunk_frames(cs) + "0\r\n\r\n"@
}

/// The chunks' data, in order.
pub open spec fn joined_chunks(cs: Seq<Seq<char>>) -> Seq<char>
    decreases cs.len(),
{
    if cs.len() == 0 {
        Seq::empty()
    } else {
        cs[0] + joined_chunks(cs.skip(1))
    }
}

spec fn chunk_pieces(cs: Seq<Seq<char>>) -> Seq<Seq<char>>
    decreases cs.len(),
{
    if cs.len() == 0 {
        Seq::empty()
    } else {
        seq![hex_text(cs[0].len()), cs[0]] + chunk_pieces(cs.skip(1))
    }
}

proof fn lemma_hex_text(n: nat)
    ensures
        hex_text(n).len() > 0,
        forall|i: int| 0 <= i < hex_text(n).len() ==> #[trigger] hex_text(n)[i] != '\r',
    decreases n,
{
    if n < 16 {
        assert(hex_text(n)[0] == hex_digit(n));
    } else {
        lemma_hex_text(n / 16);
        let t = hex_text(n);
        let p = hex_text(n / 16);
        assert(t == p.push(hex_digit(n % 16)));
        assert forall|i: int| 0 <= i < t.len() implies #[trigger] t[i] != '\r' by {
            if i < p.len() {
                assert(t[i] == p[i]);
            }
        }
    }
}

proof fn lemma_split_shift(p: Seq<char>, rest: Seq<char>, k: int, j: int)
    requires
        0 <= k <= j <= rest.len(),
    ensures
        split_from(p + "\r\n"@ + rest, "\r\n"@, p.len() + 2 + k, p.len() + 2 + j) == split_from(rest, "\r\n"@, k, j),
    decreases rest.len() - j,
{
    reveal_strlit("\r\n");
    let sep = "\r\n"@;
    let s = p + sep + rest;
    let off = p.len() + 2;
    assert(s.len() == off + rest.len());
    if j + 2 > rest.len() {
        assert(s.subrange(off + k, s.len() as int) =~= rest.subrange(k, rest.len() as int));
    } else {
        assert(s.subrange(off + j, off + j + 2) =~= rest.subrange(j, j + 2));
        if rest.subrange(j, j + 2) == sep {
            assert(s.subrange(off + k, off + j) =~= rest.subrange(k, j));
            lemma_split_shift(p, rest, j + 2, j + 2);
        } else {
            lemma_split_shift(p, rest, k, j + 1);
        }
    }
}

proof fn lemma_split_scan(p: Seq<char>, rest: Seq<char>, i: int)
    requires
        no_crlf(p),
        0 <= i <= p.len(),
    ensures
        split_from(p + "\r\n"@ + rest, "\r\n"@, 0, i)
            == seq![p] + split_from(p + "\r\n"@ + rest, "\r\n"@, p.len() + 2int, p.len() + 2int),
    decreases p.len() - i,
{
    reveal_strlit("\r\n");
    let sep = "\r\n"@;
    let s = p + sep + rest;
    if i == p.len() {
        assert(s.subrange(i, i + 2) =~= sep);
        assert(s.subrange(0, i) =~= p);
    } else {
        assert(s[i + 1] != '\n' || s[i] != '\r') by {
            if i + 1 < p.len() {
                assert(s[i] == p[i] && s[i + 1] == p[i + 1]);
            } else {
                assert(s[i + 1] == '\r');
            }
        }
        assert(s.subrange(i, i + 2) != sep) by {
            if s.subrange(i, i + 2) == sep {
                assert(s.subrange(i, i + 2)[0] == s[i]);
                assert(s.subrange(i, i + 2)[1] == s[i + 1]);
            }
        }
        lemma_split_scan(p, rest, i + 1);
    }
}

proof fn lemma_split_front(p: Seq<char>, rest: Seq<char>)
    requires
        no_crlf(p),
    ensures
        split_str_spec(p + "\r\n"@ + rest, "\r\n"@) == seq![p] + split_str_spec(rest, "\r\n"@),
{
    lemma_split_scan(p, rest, 0);
    lemma_split_shift(p, rest, 0, 0);
}

proof fn lemma_chunked_pieces(cs: Seq<Seq<char>>)
    requires
        forall|i: int| 0 <= i < cs.len() ==> no_crlf(#[trigger] cs[i]),
    ensures
        split_str_spec(chunked_body(cs), "\r\n"@)
            == chunk_pieces(cs) + seq!["0"@, Seq::<char>::empty(), Seq::<char>::empty()],
    decreases cs.len(),
{
    reveal_strlit("\r\n");
    reveal_strlit("0\r\n\r\n");
    reveal_strlit("0");
    let sep = "\r\n"@;
    if cs.len() == 0 {
        let e = Seq::<char>::empty();
        assert(chunked_body(cs) =~= "0"@ + sep + (e + sep + e));
        assert(no_crlf("0"@));
        lemma_split_front("0"@, e + sep + e);
        assert(no_crlf(e));
        lemma_split_front(e, e);
        assert(sep.len() == 2);
        assert(e.subrange(0, 0) =~= e);
        assert(split_from(e, sep, 0, 0) == seq![e.subrange(0, 0)]);
        assert(split_str_spec(e, sep) == seq![e]);
        assert(chunk_pieces(cs) + seq!["0"@, e, e] =~= seq!["0"@] + (seq![e] + seq![e]));
    } else {
        let rest = cs.skip(1);
        assert forall|i: int| 0 <= i < rest.len() implies no_crlf(#[trigger] rest[i]) by {
            assert(rest[i] == cs[i + 1]);
        }
        lemma_chunked_pieces(rest);
        let h = hex_text(cs[0].len());
        lemma_hex_text(cs[0].len());
        assert(no_crlf(h)) by {
            assert forall|i: int| 0 <= i < h.len() - 1 implies !(#[trigger] h[i] == '\r' && h[i + 1] == '\n') by {
                assert(h[i] != '\r');
            }
        }
        assert(no_crlf(cs[0]));
        let tail = cs[0] + sep + chunked_body(rest);
        assert(chunked_body(cs) =~= h + sep + tail);
        lemma_split_front(h, tail);
        lemma_split_front(cs[0], chunked_body(rest));
        assert(chunk_pieces(cs) + seq!["0"@, Seq::<char>::empty(), Seq::<char>::empty()]
            =~= seq![h] + (seq![cs[0]] + (chunk_pieces(rest) + seq!["0"@, Seq::<char>::empty(), Seq::<char>::empty()])));
    }
}

proof fn lemma_chunk_data_append(a: Seq<Seq<char>>, b: Seq<Seq<char>>)
    requires
        chunk_data(a).1 % 2 == 0,
    ensures
        chunk_data(a + b) == (chunk_data(a).0 + chunk_data(b).0, chunk_data(a).1 + chunk_data(b).1),
    decreases b.len(),
{
    if b.len() == 0 {
        assert(a + b =~= a);
        assert(chunk_data(a).0 + Seq::<char>::empty() =~= chunk_data(a).0);
    } else {
        let b0 = b.drop_last();
        lemma_chunk_data_append(a, b0);
        assert((a + b).drop_last() =~= a + b0);
        assert((a + b).last() == b.last());
        let (ta, ca) = chunk_data(a);
        let (tb, cb) = chunk_data(b0);
        assert((ca + cb + 1) % 2 == (cb + 1) % 2);
        assert((ta + tb) + b.last() =~= ta + (tb + b.last()));
    }
}

proof fn lemma_chunk_data_pieces(cs: Seq<Seq<char>>)
    requires
        forall|i: int| 0 <= i < cs.len() ==> (#[trigger] cs[i]).len() > 0,
    ensures
        chunk_data(chunk_pieces(cs)) == (joined_chunks(cs), 2 * cs.len()),
    decreases cs.len(),
{
    if cs.len() == 0 {
    } else {
        let rest = cs.skip(1);
        assert forall|i: int| 0 <= i < rest.len() implies (#[trigger] rest[i]).len() > 0 by {
            assert(rest[i] == cs[i + 1]);
        }
        lemma_chunk_data_pieces(rest);
        let h = hex_text(cs[0].len());
        lemma_hex_text(cs[0].len());
        assert(cs[0].len() > 0);
        let two = seq![h, cs[0]];
        assert(two.drop_last() == seq![h]);
        assert(seq![h].drop_last() =~= Seq::<Seq<char>>::empty());
        assert(seq![h].last() == h);
        assert(h.len() > 0);
        assert(chunk_data(Seq::<Seq<char>>::empty()) == (Seq::<char>::empty(), 0nat));
        assert(chunk_data(seq![h]) == (Seq::<char>::empty(), 1nat));
        assert(Seq::<char>::empty() + cs[0] =~= cs[0]);
        assert(chunk_data(two) == (cs[0], 2nat));
        lemma_chunk_data_append(two, chunk_pieces(rest));
    }
}

/// Decoding undoes chunked transfer encoding: a body of non-empty chunks
/// without CR LF, framed with their hexadecimal lengths and ended by the
/// last chunk `0`, decodes to the chunks' data in order.
pub proof fn law_chunked_encoding_is_undone(cs: Seq<Seq<char>>)
    requires
        forall|i: int| 0 <= i < cs.len() ==> (#[trigger] cs[i]).len() > 0 && no_crlf(cs[i]),
    ensures
        encoded_body(chunked_body(cs)) == joined_chunks(cs),
{
    reveal_strlit("0");
    lemma_chunked_pieces(cs);
    lemma_chunk_data_pieces(cs);
    let e = Seq::<char>::empty();
    let tail = seq!["0"@, e, e];
    let pieces = chunk_pieces(cs) + tail;
    assert(chunk_data(chunk_pieces(cs)).1 % 2 == 0);
    lemma_chunk_data_append(chunk_pieces(cs), tail);
    assert(tail.drop_last() =~= seq!["0"@, e]);
    assert(seq!["0"@, e].drop_last() =~= seq!["0"@]);
    assert(seq!["0"@].drop_last() =~= Seq::<Seq<char>>::empty());
    assert("0"@.len() == 1);
    assert(seq!["0"@].last() == "0"@);
    assert(chunk_data(Seq::<Seq<char>>::empty()) == (e, 0nat));
    assert(chunk_data(seq!["0"@]) == (e, 1nat));
    assert(seq!["0"@, e].last() == e);
    assert(chunk_data(seq!["0"@, e]) == (e, 1nat));
    assert(tail.last() == e);
    assert(chunk_data(tail) == (e, 1nat));
    assert(joined_chunks(cs) + e =~= joined_chunks(cs));
    assert(pieces.len() >= 3);
}

proof fn lemma_split_shift_any(p: Seq<char>, sep: Seq<char>, rest: Seq<char>, k: int, j: int)
    requires
        sep.len() > 0,
        0 <= k <= j <= rest.len(),
    ensures
        split_from(p + sep + rest, sep, p.len() + sep.len() + k, p.len() + sep.len() + j) == split_from(rest, sep, k, j),
    decreases rest.len() - j,
{
    let s = p + sep + rest;
    let off = p.len() + sep.len();
    assert(s.len() == off + rest.len());
    if j + sep.len() > rest.len() {
        assert(s.subrange(off + k, s.len() as int) =~= rest.subrange(k, rest.len() as int));
    } else {
        assert(s.subrange(off + j, off + j + sep.len()) =~= rest.subrange(j, j + sep.len()));
        if rest.subrange(j, j + sep.len()) == sep {
            assert(s.subrange(off + k, off + j) =~= rest.subrange(k, j));
            lemma_split_shift_any(p, sep, rest, j + sep.len(), j + sep.len());
        } else {
            lemma_split_shift_any(p, sep, rest, k, j + 1);
        }
    }
}

proof fn lemma_split_space_scan(p: Seq<char>, rest: Seq<char>, i: int)
    requires
        !p.contains(' '),
        0 <= i <= p.len(),
    ensures
        split_from(p + " "@ + rest, " "@, 0, i)
            == seq![p] + split_from(p + " "@ + rest, " "@, p.len() + 1int, p.len() + 1int),
    decreases p.len() - i,
{
    reveal_strlit(" ");
    let sep = " "@;
    let s = p + sep + rest;
    if i == p.len() {
        assert(s.subrange(i, i + 1) =~= sep);
        assert(s.subrange(0, i) =~= p);
    } else {
        assert(s[i] == p[i]);
        assert(s.subrange(i, i + 1) != sep) by {
            if s.subrange(i, i + 1) == sep {
                assert(s.subrange(i, i + 1)[0] == s[i]);
            }
        }
        lemma_split_space_scan(p, rest, i + 1);
    }
}

/// Splitting at spaces: a first piece without spaces comes off whole.
proof fn lemma_split_space_front(p: Seq<char>, rest: Seq<char>)
    requires
        !p.contains(' '),
    ensures
        split_str_spec(p + " "@ + rest, " "@) == seq![p] + split_str_spec(rest, " "@),
{
    reveal_strlit(" ");
    lemma_split_space_scan(p, rest, 0);
    lemma_split_shift_any(p, " "@, rest, 0, 0);
}

proof fn lemma_split_space_none_from(p: Seq<char>, i: int)
    requires
        !p.contains(' '),
        0 <= i <= p.len(),
    ensures
        split_from(p, " "@, 0, i) == seq![p],
    decreases p.len() - i,
{
    reveal_strlit(" ");
    if i + 1 > p.len() {
        assert(p.subrange(0, p.len() as int) =~= p);
    } else {
        assert(p.subrange(i, i + 1) != " "@) by {
            if p.subrange(i, i + 1) == " "@ {
                assert(p.subrange(i, i + 1)[0] == p[i]);
            }
        }
        lemma_split_space_none_from(p, i + 1);
    }
}

/// The status line `V C` or `V C R` (a reason phrase of any words, spaces
/// included) names the version `V` and the status code `C`, whatever the
/// reason says; a status line without a space names neither.
pub proof fn law_status_line_gives_version_and_code(v: Seq<char>, code: u16, reason: Seq<char>)
    requires
        !v.contains(' '),
    ensures
        version_of(v + " "@ + decimal_text(code as nat) + " "@ + reason) == v,
        status_of(v + " "@ + decimal_text(code as nat) + " "@ + reason) == code,
        version_of(v + " "@ + decimal_text(code as nat)) == v,
        status_of(v + " "@ + decimal_text(code as nat)) == code,
        version_of(v) == Seq::<char>::empty(),
        status_of(v) == 0,
{
    reveal_strlit(" ");
    let d = decimal_text(code as nat);
    lemma_decimal_text_parses(code as nat);
    assert(!d.contains(' ')) by {
        if d.contains(' ') {
            let k = choose|k: int| 0 <= k < d.len() && d[k] == ' ';
            assert(crate::text::is_digit(d[k]));
        }
    }
    let line = v + " "@ + d + " "@ + reason;
    assert(line =~= v + " "@ + (d + " "@ + reason));
    lemma_split_space_front(v, d + " "@ + reason);
    lemma_split_space_front(d, reason);
    lemma_split_from_nonempty(reason, " "@, 0, 0);
    let items = split_str_spec(line, " "@);
    assert(items == seq![v] + (seq![d] + split_str_spec(reason, " "@)));
    assert(items[0] == v && items[1] == d);
    let short = v + " "@ + d;
    assert(short =~= v + " "@ + d);
    lemma_split_space_front(v, d);
    lemma_split_space_none_from(d, 0);
    assert(split_str_spec(short, " "@) == seq![v] + seq![d]);
    assert(split_str_spec(short, " "@)[1] == d);
    lemma_split_space_none_from(v, 0);
    assert(split_str_spec(v, " "@).len() == 1);
}

} // verus!
