//! Character-level string helpers used by the parsers of this crate: decimal
//! numbers, character sequences and string assembly.

use vstd::prelude::*;

verus! {

broadcast use vstd::string::group_string_axioms;

/// The characters of `s`, in order.
pub fn to_chars(s: &str) -> (res: Vec<char>)
    ensures
        res@ == s@,
{
    let mut v: Vec<char> = Vec::new();
    for c in iter: s.chars()
        invariant
            iter.seq() == s@,
            v@ == iter.seq().take(iter.index() as int),
    {
        v.push(c);
    }
    v
}

/// `String::push`: appends one character.
#[verifier::external_body]
pub(crate) fn push_char(s: &mut String, c: char)
    ensures
        final(s)@ == old(s)@.push(c),
{
    s.push(c);
}

/// `str`'s `==`: two string slices are equal when they hold the same characters.
#[verifier::external_body]
pub(crate) fn str_equal(a: &str, b: &str) -> (res: bool)
    ensures
        res == (a@ == b@),
{
    a == b
}

/// Appends the characters of `s` to `out`.
pub fn push_all(out: &mut String, s: &str)
    ensures
        final(out)@ == old(out)@ + s@,
{
    let chars = to_chars(s);
    push_chars(out, &chars);
}

/// Appends the characters of `cs` to `out`.
pub fn push_chars(out: &mut String, cs: &[char])
    ensures
        final(out)@ == old(out)@ + cs@,
{
    let ghost start = out@;
    let mut i: usize = 0;
    while i < cs.len()
        invariant
            i <= cs.len(),
            out@ == start + cs@.take(i as int),
        decreases cs.len() - i,
    {
        push_char(out, cs[i]);
        i = i + 1;
        assert(cs@.take(i as int) == cs@.take((i - 1) as int).push(cs@[i - 1]));
    }
    assert(cs@.take(cs.len() as int) == cs@);
}

/// A string holding exactly the characters `cs`.
pub fn from_chars(cs: &[char]) -> (res: String)
    ensures
        res@ == cs@,
{
    let mut s = String::new();
    push_chars(&mut s, cs);
    s
}

/// An owned copy of `s`.
pub fn owned(s: &str) -> (res: String)
    ensures
        res@ == s@,
{
    s.to_owned()
}

/// Whether `c` is one of `0` to `9`.
pub open spec fn is_digit(c: char) -> bool {
    '0' <= c && c <= '9'
}

/// The value of the decimal digit `c`.
pub open spec fn digit_value(c: char) -> nat {
    (c as nat - '0' as nat) as nat
}

/// Whether every character of `s` is a decimal digit.
pub open spec fn all_digits(s: Seq<char>) -> bool {
    forall|i: int| 0 <= i < s.len() ==> is_digit(#[trigger] s[i])
}

/// The number that the decimal digits `s` denote (most significant first).
pub open spec fn digits_value(s: Seq<char>) -> nat
    decreases s.len(),
{
    if s.len() == 0 {
        0
    } else {
        digits_value(s.drop_last()) * 10 + digit_value(s.last())
    }
}

/// The digits part of an unsigned number's text: one leading `+` is allowed.
pub open spec fn unsigned_digits(s: Seq<char>) -> Seq<char> {
    if s.len() > 0 && s[0] == '+' {
        s.drop_first()
    } else {
        s
    }
}

/// What `FromStr` gives for an unsigned integer type whose maximum is `max`:
/// an optional `+`, then at least one decimal digit, with a value that fits.
pub open spec fn parse_unsigned_spec(s: Seq<char>, max: nat) -> Option<nat> {
    let d = unsigned_digits(s);
    if d.len() > 0 && all_digits(d) && digits_value(d) <= max {
        Some(digits_value(d))
    } else {
        None
    }
}

proof fn lemma_digits_value_prefix_monotone(s: Seq<char>, i: int)
    requires
        0 <= i <= s.len(),
        all_digits(s),
    ensures
        digits_value(s.take(i)) <= digits_value(s),
    decreases s.len() - i,
{
    if i < s.len() {
        lemma_digits_value_prefix_monotone(s, i + 1);
        assert(s.take(i + 1).drop_last() == s.take(i));
        assert(s.take(i + 1).last() == s[i]);
    } else {
        assert(s.take(i) == s);
    }
}

/// Parses an unsigned decimal number no greater than `max`, as `FromStr` of
/// the unsigned integer types does.
pub fn parse_unsigned(s: &[char], max: u64) -> (res: Option<u64>)
    ensures
        match parse_unsigned_spec(s@, max as nat) {
            Some(v) => res == Some(v as u64),
            None => res is None,
        },
{
    let start: usize = if s.len() > 0 && s[0] == '+' { 1 } else { 0 };
    let ghost d = unsigned_digits(s@);
    assert(d == s@.subrange(start as int, s@.len() as int));
    if start >= s.len() {
        return None;
    }
    let mut acc: u64 = 0;
    let mut i: usize = start;
    while i < s.len()
        invariant
            start <= i <= s.len(),
            start < s.len(),
            d == unsigned_digits(s@),
            d == s@.subrange(start as int, s@.len() as int),
            all_digits(d.take(i - start)),
            acc as nat == digits_value(d.take(i - start)),
            acc <= max,
        decreases s.len() - i,
    {
        let c = s[i];
        if !('0' <= c && c <= '9') {
            assert(d[i - start] == c);
            assert(!all_digits(d));
            return None;
        }
        let dv: u64 = (c as u32 - '0' as u32) as u64;
        assert(d.take(i + 1 - start).drop_last() == d.take(i - start));
        assert(d.take(i + 1 - start).last() == c);
        if dv > max || acc > (max - dv) / 10 {
            proof {
                assert(acc * 10 + dv > max) by (nonlinear_arith)
                    requires
                        dv > max || acc > (max - dv) / 10,
                        dv <= 9,
                ;
                assert(all_digits(d.take(i + 1 - start)));
                if all_digits(d) {
                    lemma_digits_value_prefix_monotone(d, i + 1 - start);
                }
            }
            return None;
        }
        proof {
            assert(acc * 10 + dv <= max) by (nonlinear_arith)
                requires
                    dv <= max,
                    acc <= (max - dv) / 10,
            ;
        }
        acc = acc * 10 + dv;
        i = i + 1;
    }
    assert(d.take(s.len() - start) == d);
    Some(acc)
}

/// The decimal character for a digit value below ten.
pub open spec fn digit_char(d: nat) -> char {
    if d == 0 { '0' }
    else if d == 1 { '1' }
    else if d == 2 { '2' }
    else if d == 3 { '3' }
    else if d == 4 { '4' }
    else if d == 5 { '5' }
    else if d == 6 { '6' }
    else if d == 7 { '7' }
    else if d == 8 { '8' }
    else { '9' }
}

/// The shortest decimal text of `n`, as `to_string` of the integer types writes it.
pub open spec fn decimal_text(n: nat) -> Seq<char>
    decreases n,
{
    if n < 10 {
        seq![digit_char(n)]
    } else {
        decimal_text(n / 10).push(digit_char(n % 10))
    }
}

fn exec_digit_char(d: u64) -> (c: char)
    requires
        d < 10,
    ensures
        c == digit_char(d as nat),
{
    if d == 0 { '0' }
    else if d == 1 { '1' }
    else if d == 2 { '2' }
    else if d == 3 { '3' }
    else if d == 4 { '4' }
    else if d == 5 { '5' }
    else if d == 6 { '6' }
    else if d == 7 { '7' }
    else if d == 8 { '8' }
    else { '9' }
}

/// Appends the decimal text of `n` to `out`.
pub fn push_decimal(out: &mut String, n: u64)
    ensures
        final(out)@ == old(out)@ + decimal_text(n as nat),
    decreases n,
{
    if n >= 10 {
        push_decimal(out, n / 10);
    }
    let c = exec_digit_char(n % 10);
    push_char(out, c);
    assert(n < 10 ==> n % 10 == n);
}

/// The decimal text of `n`.
pub fn decimal_string(n: u64) -> (res: String)
    ensures
        res@ == decimal_text(n as nat),
{
    let mut s = String::new();
    push_decimal(&mut s, n);
    s
}

/// The text `to_string` gives for a `bool`.
pub open spec fn bool_text(b: bool) -> Seq<char> {
    if b { "true"@ } else { "false"@ }
}

/// `true` or `false`, as `to_string` of `bool` writes it.
pub fn bool_string(b: bool) -> (res: String)
    ensures
        res@ == bool_text(b),
{
    if b { owned("true") } else { owned("false") }
}

} // verus!

verus! {

/// The pieces of `s` between occurrences of `sep`, as `str::split` gives
/// them: `n` separators give `n + 1` pieces, some possibly empty.
pub open spec fn split_spec(s: Seq<char>, sep: char) -> Seq<Seq<char>>
    decreases s.len(),
{
    if s.len() == 0 {
        seq![Seq::<char>::empty()]
    } else {
        let init = split_spec(s.drop_last(), sep);
        if s.last() == sep {
            init.push(Seq::<char>::empty())
        } else {
            init.update(init.len() - 1, init.last().push(s.last()))
        }
    }
}

/// Splitting always gives at least one piece.
pub proof fn lemma_split_nonempty(s: Seq<char>, sep: char)
    ensures
        split_spec(s, sep).len() >= 1,
    decreases s.len(),
{
    if s.len() > 0 {
        lemma_split_nonempty(s.drop_last(), sep);
    }
}

/// Splits `s` at every occurrence of `sep`.
pub fn split_char(s: &[char], sep: char) -> (res: Vec<Vec<char>>)
    ensures
        res@.len() == split_spec(s@, sep).len(),
        forall|i: int| 0 <= i < res@.len() ==> #[trigger] res@[i]@ == split_spec(s@, sep)[i],
{
    let mut pieces: Vec<Vec<char>> = Vec::new();
    let mut current: Vec<char> = Vec::new();
    let mut i: usize = 0;
    while i < s.len()
        invariant
            i <= s.len(),
            ({
                let sp = split_spec(s@.take(i as int), sep);
                &&& pieces@.len() + 1 == sp.len()
                &&& forall|j: int| 0 <= j < pieces@.len() ==> #[trigger] pieces@[j]@ == sp[j]
                &&& current@ == sp.last()
            }),
        decreases s.len() - i,
    {
        proof {
            lemma_split_nonempty(s@.take(i as int), sep);
            assert(s@.take(i + 1).drop_last() == s@.take(i as int));
            assert(s@.take(i + 1).last() == s@[i as int]);
        }
        if s[i] == sep {
            let mut done: Vec<char> = Vec::new();
            std::mem::swap(&mut done, &mut current);
            pieces.push(done);
        } else {
            current.push(s[i]);
        }
        i = i + 1;
    }
    assert(s@.take(s.len() as int) == s@);
    pieces.push(current);
    pieces
}

} // verus!

verus! {

/// The pieces of `s[start..]` when `s` is scanned from position `i` for
/// non-overlapping occurrences of `sep`, leftmost first, as `str::split`
/// with a string pattern does.
pub open spec fn split_from(s: Seq<char>, sep: Seq<char>, start: int, i: int) -> Seq<Seq<char>>
    recommends
        sep.len() > 0,
        0 <= start <= i <= s.len(),
    decreases s.len() - i,
    when sep.len() > 0 && 0 <= start <= i <= s.len()
{
    if i + sep.len() > s.len() {
        seq![s.subrange(start, s.len() as int)]
    } else if s.subrange(i, i + sep.len()) == sep {
        seq![s.subrange(start, i)] + split_from(s, sep, i + sep.len(), i + sep.len())
    } else {
        split_from(s, sep, start, i + 1)
    }
}

/// The pieces of `s` between non-overlapping occurrences of the non-empty
/// separator `sep`, found left to right.
pub open spec fn split_str_spec(s: Seq<char>, sep: Seq<char>) -> Seq<Seq<char>> {
    split_from(s, sep, 0, 0)
}

/// Scanning never gives fewer than one piece.
pub proof fn lemma_split_from_nonempty(s: Seq<char>, sep: Seq<char>, start: int, i: int)
    requires
        sep.len() > 0,
        0 <= start <= i <= s.len(),
    ensures
        split_from(s, sep, start, i).len() >= 1,
    decreases s.len() - i,
{
    if i + sep.len() > s.len() {
    } else if s.subrange(i, i + sep.len()) == sep {
        lemma_split_from_nonempty(s, sep, i + sep.len(), i + sep.len());
    } else {
        lemma_split_from_nonempty(s, sep, start, i + 1);
    }
}

fn matches_at(s: &[char], sep: &[char], i: usize) -> (res: bool)
    requires
        i + sep@.len() <= s@.len(),
    ensures
        res == (s@.subrange(i as int, i + sep@.len()) == sep@),
{
    let n = s.len();
    let mut j: usize = 0;
    while j < sep.len()
        invariant
            n == s@.len(),
            j <= sep@.len(),
            i + sep@.len() <= s@.len(),
            forall|k: int| 0 <= k < j ==> s@[i + k] == sep@[k],
        decreases sep@.len() - j,
    {
        if s[i + j] != sep[j] {
            assert(s@.subrange(i as int, i + sep@.len())[j as int] != sep@[j as int]);
            return false;
        }
        j = j + 1;
    }
    assert(s@.subrange(i as int, i + sep@.len()) =~= sep@);
    true
}

/// Splits `s` at non-overlapping occurrences of the non-empty `sep`.
pub fn split_str(s: &[char], sep: &[char]) -> (res: Vec<Vec<char>>)
    requires
        sep@.len() > 0,
    ensures
        res@.len() == split_str_spec(s@, sep@).len(),
        forall|k: int| 0 <= k < res@.len() ==> #[trigger] res@[k]@ == split_str_spec(s@, sep@)[k],
{
    let ghost total = split_str_spec(s@, sep@);
    let mut pieces: Vec<Vec<char>> = Vec::new();
    let mut start: usize = 0;
    let mut i: usize = 0;
    let n = s.len();
    while sep.len() <= n - i
        invariant
            n == s@.len(),
            sep@.len() > 0,
            start <= i <= s@.len(),
            total == split_str_spec(s@, sep@),
            ({
                let rest = split_from(s@, sep@, start as int, i as int);
                &&& pieces@.len() + rest.len() == total.len()
                &&& forall|k: int| 0 <= k < pieces@.len() ==> #[trigger] pieces@[k]@ == total[k]
                &&& forall|k: int| 0 <= k < rest.len() ==> #[trigger] rest[k] == total[pieces@.len() + k]
            }),
        decreases s@.len() - i,
    {
        if matches_at(s, sep, i) {
            let ghost rest = split_from(s@, sep@, start as int, i as int);
            let ghost next = split_from(s@, sep@, (i + sep@.len()) as int, (i + sep@.len()) as int);
            assert(rest == seq![s@.subrange(start as int, i as int)] + next);
            let mut piece: Vec<char> = Vec::new();
            let mut k: usize = start;
            while k < i
                invariant
                    start <= k <= i,
                    i <= s@.len(),
                    piece@ == s@.subrange(start as int, k as int),
                decreases i - k,
            {
                piece.push(s[k]);
                k = k + 1;
            }
            assert(rest[0] == total[pieces@.len() as int]);
            pieces.push(piece);
            assert forall|k: int| 0 <= k < next.len() implies #[trigger] next[k] == total[pieces@.len() + k] by {
                assert(rest[k + 1] == next[k]);
            }
            i = i + sep.len();
            start = i;
        } else {
            i = i + 1;
        }
    }
    let ghost rest = split_from(s@, sep@, start as int, i as int);
    assert(rest == seq![s@.subrange(start as int, s@.len() as int)]);
    let mut piece: Vec<char> = Vec::new();
    let mut k: usize = start;
    while k < s.len()
        invariant
            start <= k <= s@.len(),
            piece@ == s@.subrange(start as int, k as int),
        decreases s@.len() - k,
    {
        piece.push(s[k]);
        k = k + 1;
    }
    assert(rest[0] == total[pieces@.len() as int]);
    pieces.push(piece);
    pieces
}

} // verus!

verus! {

/// `String::from_utf8`: the text of `bytes` when they are valid UTF-8.
#[verifier::external_body]
pub(crate) fn utf8_string(bytes: Vec<u8>) -> (res: Option<String>)
    ensures
        res is Some <==> vstd::utf8::valid_utf8(bytes@),
        res matches Some(s) ==> s@ == vstd::utf8::decode_utf8(bytes@),
{
    String::from_utf8(bytes).ok()
}

} // verus!

verus! {

/// The `Debug` text of a string (quoted and escaped), as `format!("{:?}", s)`
/// writes it.
pub uninterp spec fn str_debug(s: Seq<char>) -> Seq<char>;

/// `format!("{:?}", s)` for a string slice; the claim is that its result is
/// fixed by the characters of `s`.
#[verifier::external_body]
pub(crate) fn debug_str(s: &str) -> (res: String)
    ensures
        res@ == str_debug(s@),
{
    format!("{:?}", s)
}

/// Whether `c` is white space in the sense of Unicode's `White_Space`
/// property, which `char::is_whitespace` and `str::trim` use.
pub open spec fn is_whitespace(c: char) -> bool {
    ||| '\u{9}' <= c <= '\u{d}'
    ||| c == ' ' || c == '\u{85}' || c == '\u{a0}' || c == '\u{1680}'
    ||| '\u{2000}' <= c <= '\u{200a}'
    ||| c == '\u{2028}' || c == '\u{2029}' || c == '\u{202f}' || c == '\u{205f}' || c == '\u{3000}'
}

fn char_is_whitespace(c: char) -> (res: bool)
    ensures
        res == is_whitespace(c),
{
    ('\u{9}' <= c && c <= '\u{d}') || c == ' ' || c == '\u{85}' || c == '\u{a0}' || c == '\u{1680}'
        || ('\u{2000}' <= c && c <= '\u{200a}') || c == '\u{2028}' || c == '\u{2029}'
        || c == '\u{202f}' || c == '\u{205f}' || c == '\u{3000}'
}

/// The index of the first character at or after `i` that is not white
/// space.
pub open spec fn first_non_space(s: Seq<char>, i: int) -> int
    decreases s.len() - i,
{
    if i >= s.len() || !is_whitespace(s[i]) { i } else { first_non_space(s, i + 1) }
}

/// One past the index of the last character before `j` that is not white
/// space, but not below `lo`.
pub open spec fn last_non_space(s: Seq<char>, lo: int, j: int) -> int
    decreases j - lo,
{
    if j <= lo || !is_whitespace(s[j - 1]) { j } else { last_non_space(s, lo, j - 1) }
}

/// `s` without leading and trailing white space, as `str::trim` gives it.
pub open spec fn trimmed(s: Seq<char>) -> Seq<char> {
    let start = first_non_space(s, 0);
    s.subrange(start, last_non_space(s, start, s.len() as int))
}

/// `str::trim` followed by `to_owned`.
pub fn trim_text(s: &str) -> (res: String)
    ensures
        res@ == trimmed(s@),
{
    let chars = to_chars(s);
    let n = chars.len();
    let mut start: usize = 0;
    while start < n && char_is_whitespace(chars[start])
        invariant
            start <= n == chars@.len(),
            first_non_space(chars@, start as int) == first_non_space(chars@, 0),
        decreases n - start,
    {
        start = start + 1;
    }
    let mut end: usize = n;
    while end > start && char_is_whitespace(chars[end - 1])
        invariant
            start <= end <= n == chars@.len(),
            last_non_space(chars@, start as int, end as int) == last_non_space(chars@, start as int, n as int),
        decreases end,
    {
        end = end - 1;
    }
    let mut out = String::new();
    let mut i: usize = start;
    while i < end
        invariant
            start <= i <= end <= chars@.len(),
            out@ == chars@.subrange(start as int, i as int),
        decreases end - i,
    {
        push_char(&mut out, chars[i]);
        assert(out@ =~= chars@.subrange(start as int, i + 1));
        i = i + 1;
    }
    out
}

/// The decimal text of a number consists of digits, does not start with
/// `+`, and reads back as the number.
pub proof fn lemma_decimal_text_parses(n: nat)
    ensures
        decimal_text(n).len() > 0,
        all_digits(decimal_text(n)),
        decimal_text(n)[0] != '+',
        digits_value(decimal_text(n)) == n,
        !decimal_text(n).contains('.'),
        forall|max: nat| n <= max ==> parse_unsigned_spec(decimal_text(n), max) == Some(n),
    decreases n,
{
    let t = decimal_text(n);
    if n < 10 {
        assert(digits_value(t) == digits_value(t.drop_last()) * 10 + digit_value(t.last()));
        assert(t.drop_last() =~= Seq::<char>::empty());
    } else {
        lemma_decimal_text_parses(n / 10);
        let p = decimal_text(n / 10);
        assert(t.drop_last() =~= p);
        assert(t.last() == digit_char(n % 10));
        assert forall|i: int| 0 <= i < t.len() implies is_digit(#[trigger] t[i]) by {
            if i < p.len() {
                assert(t[i] == p[i]);
            }
        }
        assert(t[0] == p[0]);
        if t.contains('.') {
            let i = choose|i: int| 0 <= i < t.len() && t[i] == '.';
            if i < p.len() {
                assert(p[i] == '.');
            }
        }
    }
    assert(unsigned_digits(t) == t);
}

/// Text without the separator splits into itself alone.
pub proof fn lemma_split_single(x: Seq<char>, sep: char)
    requires
        !x.contains(sep),
    ensures
        split_spec(x, sep) == seq![x],
    decreases x.len(),
{
    if x.len() > 0 {
        assert(!x.drop_last().contains(sep)) by {
            if x.drop_last().contains(sep) {
                let i = choose|i: int| 0 <= i < x.drop_last().len() && x.drop_last()[i] == sep;
                assert(x[i] == sep);
            }
        }
        lemma_split_single(x.drop_last(), sep);
        assert(x.last() != sep) by {
            if x.last() == sep {
                assert(x[x.len() - 1] == sep);
            }
        }
        assert(x.drop_last().push(x.last()) =~= x);
    } else {
        assert(x =~= Seq::<char>::empty());
    }
}

/// Two separator-free texts joined by the separator split back into the
/// two.
pub proof fn lemma_split_pair(x: Seq<char>, y: Seq<char>, sep: char)
    requires
        !x.contains(sep),
        !y.contains(sep),
    ensures
        split_spec(x + seq![sep] + y, sep) == seq![x, y],
    decreases y.len(),
{
    let s = x + seq![sep] + y;
    if y.len() == 0 {
        lemma_split_single(x, sep);
        assert(s.drop_last() =~= x);
        assert(s.last() == sep);
        assert(y =~= Seq::<char>::empty());
        assert(seq![x].push(Seq::<char>::empty()) =~= seq![x, y]);
    } else {
        let y0 = y.drop_last();
        assert(!y0.contains(sep)) by {
            if y0.contains(sep) {
                let i = choose|i: int| 0 <= i < y0.len() && y0[i] == sep;
                assert(y[i] == sep);
            }
        }
        lemma_split_pair(x, y0, sep);
        assert(s.drop_last() =~= x + seq![sep] + y0);
        assert(s.last() == y.last());
        assert(y.last() != sep) by {
            if y.last() == sep {
                assert(y[y.len() - 1] == sep);
            }
        }
        assert(y0.push(y.last()) =~= y);
        assert(seq![x, y0].update(1, y0.push(y.last())) =~= seq![x, y]);
    }
}

} // verus!
