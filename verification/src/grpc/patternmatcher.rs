//! Include/exclude patterns of BuildKit's local sources (`.dockerignore`
//! style), translated to regular expressions, and glob matching of single
//! path components.

use vstd::prelude::*;
use crate::text::{
    str_debug, owned, trimmed, trim_text, push_all, push_char, push_chars, split_char, split_spec, to_chars, str_equal,
    from_chars,
};

verus! {

broadcast use vstd::string::group_string_axioms;

/// What `regex::Regex::new` reports for `expression`: `None` when it
/// compiles, else the display text of its error.
pub uninterp spec fn regex_new_error(expression: Seq<char>) -> Option<Seq<char>>;

/// `regex::Regex::new` succeeds on `expression`.
pub open spec fn regex_valid(expression: Seq<char>) -> bool {
    regex_new_error(expression) is None
}

/// `regex::Regex::is_match` of the compiled `expression` on `text`.
pub uninterp spec fn regex_matches(expression: Seq<char>, text: Seq<char>) -> bool;

/// `glob::Pattern::new` succeeds on `pattern`.
pub uninterp spec fn glob_valid(pattern: Seq<char>) -> bool;

/// `glob::Pattern::matches` of the compiled `pattern` on `value`.
pub uninterp spec fn glob_matches(pattern: Seq<char>, value: Seq<char>) -> bool;

/// The text of the error that `regex::Regex::new` reports for `expression`.
pub open spec fn regex_error_text(expression: Seq<char>) -> Seq<char> {
    regex_new_error(expression)->0
}

/// Calls `regex::Regex::new(expression)`. The claim is that its outcome,
/// success or the display text of its error, is fixed by the expression.
#[verifier::external_body]
fn regex_check(expression: &str) -> (res: Result<(), String>)
    ensures
        match res {
            Ok(()) => regex_new_error(expression@) is None,
            Err(e) => regex_new_error(expression@) == Some(e@),
        },
{
    match regex::Regex::new(expression) {
        Ok(_) => Ok(()),
        Err(error) => Err(error.to_string()),
    }
}

/// Compiles `expression` with `regex::Regex::new` and runs
/// `regex::Regex::is_match` on `text`. The claim is that the outcome is
/// `None` exactly when compilation fails, and otherwise the match result,
/// a function of the expression and the text alone.
#[verifier::external_body]
fn regex_is_match(expression: &str, text: &str) -> (res: Option<bool>)
    ensures
        res is Some <==> regex_new_error(expression@) is None,
        res matches Some(b) ==> b == regex_matches(expression@, text@),
{
    regex::Regex::new(expression).ok().map(|re| re.is_match(text))
}

/// Compiles `pattern` with `glob::Pattern::new` and runs
/// `glob::Pattern::matches` on `value`. The claim is that the outcome is
/// `None` exactly when compilation fails, and otherwise the match result.
#[verifier::external_body]
fn glob_is_match(pattern: &str, value: &str) -> (res: Option<bool>)
    ensures
        res is Some <==> glob_valid(pattern@),
        res matches Some(b) ==> b == glob_matches(pattern@, value@),
{
    glob::Pattern::new(pattern).ok().map(|p| p.matches(value))
}

/// Whether `c` has a special meaning in a regular expression
/// (`regex_syntax::is_meta_character`).
pub open spec fn is_regex_meta(c: char) -> bool {
    c == '\\' || c == '.' || c == '+' || c == '*' || c == '?' || c == '(' || c == ')'
        || c == '|' || c == '[' || c == ']' || c == '{' || c == '}' || c == '^' || c == '$'
        || c == '#' || c == '&' || c == '-' || c == '~'
}

/// `regex::escape` of a single character: meta characters get a backslash.
pub open spec fn regex_escape(c: char) -> Seq<char> {
    if is_regex_meta(c) { seq!['\\', c] } else { seq![c] }
}

/// `glob::Pattern::escape` of a single character: `?`, `*`, `[` and `]` are
/// wrapped in brackets.
pub open spec fn glob_escape(c: char) -> Seq<char> {
    if c == '?' || c == '*' || c == '[' || c == ']' { seq!['[', c, ']'] } else { seq![c] }
}

fn push_regex_escaped(out: &mut String, c: char)
    ensures
        final(out)@ == old(out)@ + regex_escape(c),
{
    if c == '\\' || c == '.' || c == '+' || c == '*' || c == '?' || c == '(' || c == ')'
        || c == '|' || c == '[' || c == ']' || c == '{' || c == '}' || c == '^' || c == '$'
        || c == '#' || c == '&' || c == '-' || c == '~' {
        push_char(out, '\\');
    }
    push_char(out, c);
    assert(final(out)@ =~= old(out)@ + regex_escape(c));
}

fn push_glob_escaped(out: &mut String, c: char)
    ensures
        final(out)@ == old(out)@ + glob_escape(c),
{
    if c == '?' || c == '*' || c == '[' || c == ']' {
        push_char(out, '[');
        push_char(out, c);
        push_char(out, ']');
    } else {
        push_char(out, c);
    }
    assert(final(out)@ =~= old(out)@ + glob_escape(c));
}

/// The glob text of a path-component pattern: a backslash makes the next
/// character literal; a trailing backslash stands for itself.
pub open spec fn component_glob(p: Seq<char>) -> Seq<char>
    decreases p.len(),
{
    if p.len() == 0 {
        Seq::empty()
    } else if p[0] == '\\' {
        if p.len() == 1 {
            seq!['\\']
        } else {
            glob_escape(p[1]) + component_glob(p.skip(2))
        }
    } else {
        seq![p[0]] + component_glob(p.skip(1))
    }
}

/// Translates a path-component pattern to glob syntax (see `component_glob`).
pub fn compile_component(pattern: &str) -> (res: String)
    ensures
        res@ == component_glob(pattern@),
{
    let p = to_chars(pattern);
    let mut out = String::new();
    let mut i: usize = 0;
    assert(p@.skip(0) == p@);
    assert(out@ + component_glob(p@) =~= component_glob(p@));
    while i < p.len()
        invariant
            i <= p@.len(),
            out@ + component_glob(p@.skip(i as int)) == component_glob(p@),
        decreases p@.len() - i,
    {
        let ghost rest = p@.skip(i as int);
        if p[i] == '\\' {
            if i + 1 < p.len() {
                assert(rest.skip(2) == p@.skip(i + 2));
                push_glob_escaped(&mut out, p[i + 1]);
                i = i + 2;
            } else {
                push_char(&mut out, '\\');
                i = i + 1;
                assert(p@.skip(i as int).len() == 0);
            }
        } else {
            assert(rest.skip(1) == p@.skip(i + 1));
            push_char(&mut out, p[i]);
            i = i + 1;
        }
        assert(out@ + component_glob(p@.skip(i as int)) =~= component_glob(p@));
    }
    assert(p@.skip(i as int).len() == 0);
    assert(out@ =~= component_glob(p@));
    out
}

/// Whether the glob translation of `pattern` compiles and matches `value`.
pub open spec fn component_matches(pattern: Seq<char>, value: Seq<char>) -> bool {
    glob_valid(component_glob(pattern)) && glob_matches(component_glob(pattern), value)
}

/// Whether the glob translation of the path-component pattern `pattern`
/// compiles.
pub(crate) fn component_valid(pattern: &str) -> (res: bool)
    ensures
        res == glob_valid(component_glob(pattern@)),
{
    let glob = compile_component(pattern);
    glob_is_match(glob.as_str(), "").is_some()
}

/// Whether `value` matches the path-component pattern `pattern`; an invalid
/// pattern matches nothing.
pub fn match_component(pattern: &str, value: &str) -> (res: bool)
    ensures
        res == component_matches(pattern@, value@),
{
    let glob = compile_component(pattern);
    match glob_is_match(glob.as_str(), value) {
        Some(b) => b,
        None => false,
    }
}

/// Whether a followpath contains an unescaped glob metacharacter (`*`,
/// `?` or `[`); a backslash makes the next character literal.
pub open spec fn has_wildcard(s: Seq<char>) -> bool
    decreases s.len(),
{
    if s.len() == 0 {
        false
    } else if s[0] == '\\' {
        if s.len() < 2 { false } else { has_wildcard(s.skip(2)) }
    } else if s[0] == '*' || s[0] == '?' || s[0] == '[' {
        true
    } else {
        has_wildcard(s.skip(1))
    }
}

/// Whether `value` contains an unescaped `*`, `?` or `[`.
pub fn contains_wildcard(value: &str) -> (res: bool)
    ensures
        res == has_wildcard(value@),
{
    let p = to_chars(value);
    let mut i: usize = 0;
    assert(p@.skip(0) == p@);
    while i < p.len()
        invariant
            i <= p@.len(),
            p@ == value@,
            has_wildcard(p@.skip(i as int)) == has_wildcard(p@),
        decreases p@.len() - i,
    {
        let ghost rest = p@.skip(i as int);
        if p[i] == '\\' {
            if i + 1 >= p.len() {
                assert(rest.len() == 1);
                return false;
            }
            assert(rest.skip(2) =~= p@.skip(i + 2));
            i = i + 2;
        } else if p[i] == '*' || p[i] == '?' || p[i] == '[' {
            assert(rest[0] == p@[i as int]);
            return true;
        } else {
            assert(rest.skip(1) =~= p@.skip(i + 1));
            i = i + 1;
        }
    }
    assert(p@.skip(i as int).len() == 0);
    false
}

/// The components of a pattern after resolving `.` and `..` and dropping
/// empty components; `..` removes the component before it, if any.
pub open spec fn clean_components(segs: Seq<Seq<char>>) -> Seq<Seq<char>>
    decreases segs.len(),
{
    if segs.len() == 0 {
        Seq::empty()
    } else {
        let init = clean_components(segs.drop_last());
        let c = segs.last();
        if c.len() == 0 || c == "."@ {
            init
        } else if c == ".."@ {
            if init.len() == 0 { init } else { init.drop_last() }
        } else {
            init.push(c)
        }
    }
}

/// Components joined by `/`.
pub open spec fn join_components(parts: Seq<Seq<char>>) -> Seq<char>
    decreases parts.len(),
{
    if parts.len() == 0 {
        Seq::empty()
    } else if parts.len() == 1 {
        parts[0]
    } else {
        join_components(parts.drop_last()) + seq!['/'] + parts.last()
    }
}

/// The cleaned form of a pattern (see `clean_components`).
pub open spec fn clean_pattern_spec(p: Seq<char>) -> Seq<char> {
    join_components(clean_components(split_spec(p, '/')))
}

/// Whether a component is kept as it is by cleaning: not empty, `.` or
/// `..`, and free of `/`.
pub open spec fn clean_component(c: Seq<char>) -> bool {
    c.len() > 0 && c != "."@ && c != ".."@ && !c.contains('/')
}

proof fn lemma_split_pieces_have_no_separator(s: Seq<char>, sep: char)
    ensures
        forall|i: int| 0 <= i < split_spec(s, sep).len() ==> !(#[trigger] split_spec(s, sep)[i]).contains(sep),
    decreases s.len(),
{
    if s.len() > 0 {
        let init = split_spec(s.drop_last(), sep);
        lemma_split_pieces_have_no_separator(s.drop_last(), sep);
        crate::text::lemma_split_nonempty(s.drop_last(), sep);
        let r = split_spec(s, sep);
        if s.last() == sep {
            assert forall|i: int| 0 <= i < r.len() implies !(#[trigger] r[i]).contains(sep) by {
                if i < init.len() {
                    assert(r[i] == init[i]);
                } else {
                    assert(r[i] == Seq::<char>::empty());
                }
            }
        } else {
            let l = init.last().push(s.last());
            assert forall|i: int| 0 <= i < r.len() implies !(#[trigger] r[i]).contains(sep) by {
                if i < init.len() - 1 {
                    assert(r[i] == init[i]);
                } else {
                    assert(r[i] == l);
                    assert(!init[init.len() - 1].contains(sep));
                    if l.contains(sep) {
                        let k = choose|k: int| 0 <= k < l.len() && l[k] == sep;
                        if k < l.len() - 1 {
                            assert(init.last()[k] == sep);
                        }
                    }
                }
            }
        }
    }
}

proof fn lemma_split_append(x: Seq<char>, y: Seq<char>, sep: char)
    requires
        !y.contains(sep),
    ensures
        split_spec(x + seq![sep] + y, sep) == split_spec(x, sep).push(y),
    decreases y.len(),
{
    let s = x + seq![sep] + y;
    if y.len() == 0 {
        assert(s.drop_last() =~= x);
        assert(s.last() == sep);
        assert(s.len() > 0);
        assert(split_spec(s, sep) == split_spec(s.drop_last(), sep).push(Seq::<char>::empty()));
        assert(y =~= Seq::<char>::empty());
    } else {
        let y0 = y.drop_last();
        assert(!y0.contains(sep)) by {
            if y0.contains(sep) {
                let k = choose|k: int| 0 <= k < y0.len() && y0[k] == sep;
                assert(y[k] == sep);
            }
        }
        lemma_split_append(x, y0, sep);
        assert(s.drop_last() =~= x + seq![sep] + y0);
        assert(s.last() == y.last());
        assert(y.last() != sep) by {
            assert(y[y.len() - 1] == y.last());
        }
        let init = split_spec(x, sep).push(y0);
        assert(split_spec(s, sep) == init.update(init.len() - 1, init.last().push(s.last())));
        assert(y0.push(y.last()) =~= y);
        assert(split_spec(s, sep) =~= split_spec(x, sep).push(y));
    }
}

/// Splitting components joined by `/` at `/` gives them back.
pub proof fn lemma_split_join(parts: Seq<Seq<char>>)
    requires
        parts.len() >= 1,
        forall|i: int| 0 <= i < parts.len() ==> !(#[trigger] parts[i]).contains('/'),
    ensures
        split_spec(join_components(parts), '/') == parts,
    decreases parts.len(),
{
    if parts.len() == 1 {
        crate::text::lemma_split_single(parts[0], '/');
        assert(seq![parts[0]] =~= parts);
    } else {
        let init = parts.drop_last();
        assert forall|i: int| 0 <= i < init.len() implies !(#[trigger] init[i]).contains('/') by {
            assert(init[i] == parts[i]);
        }
        lemma_split_join(init);
        assert(!parts.last().contains('/')) by {
            assert(parts[parts.len() - 1] == parts.last());
        }
        lemma_split_append(join_components(init), parts.last(), '/');
        assert(init.push(parts.last()) =~= parts);
    }
}

proof fn lemma_clean_components_kept(segs: Seq<Seq<char>>)
    requires
        forall|i: int| 0 <= i < segs.len() ==> !(#[trigger] segs[i]).contains('/'),
    ensures
        forall|i: int| 0 <= i < clean_components(segs).len() ==> clean_component(#[trigger] clean_components(segs)[i]),
    decreases segs.len(),
{
    if segs.len() > 0 {
        let init = segs.drop_last();
        assert forall|i: int| 0 <= i < init.len() implies !(#[trigger] init[i]).contains('/') by {
            assert(init[i] == segs[i]);
        }
        lemma_clean_components_kept(init);
        let c = segs.last();
        assert(!c.contains('/')) by {
            assert(segs[segs.len() - 1] == c);
        }
        let ci = clean_components(init);
        let r = clean_components(segs);
        assert forall|i: int| 0 <= i < r.len() implies clean_component(#[trigger] r[i]) by {
            if i < ci.len() {
                assert(r[i] == ci[i]);
            } else {
                assert(r[i] == c);
            }
        }
    }
}

proof fn lemma_clean_components_fixed(parts: Seq<Seq<char>>)
    requires
        forall|i: int| 0 <= i < parts.len() ==> clean_component(#[trigger] parts[i]),
    ensures
        clean_components(parts) == parts,
    decreases parts.len(),
{
    if parts.len() > 0 {
        let init = parts.drop_last();
        assert forall|i: int| 0 <= i < init.len() implies clean_component(#[trigger] init[i]) by {
            assert(init[i] == parts[i]);
        }
        lemma_clean_components_fixed(init);
        assert(clean_component(parts[parts.len() - 1]));
        assert(init.push(parts.last()) =~= parts);
    }
}

/// Cleaning a pattern never needs repeating: a cleaned pattern is empty or
/// made of components that are neither empty, `.` nor `..`, and cleaning it
/// again gives it back.
pub proof fn law_clean_pattern_idempotent(p: Seq<char>)
    ensures
        clean_pattern_spec(clean_pattern_spec(p)) == clean_pattern_spec(p),
        clean_pattern_spec(p).len() > 0 ==> forall|i: int| 0 <= i < split_spec(clean_pattern_spec(p), '/').len()
            ==> clean_component(#[trigger] split_spec(clean_pattern_spec(p), '/')[i]),
{
    let segs = split_spec(p, '/');
    lemma_split_pieces_have_no_separator(p, '/');
    lemma_clean_components_kept(segs);
    let parts = clean_components(segs);
    assert forall|i: int| 0 <= i < parts.len() implies !(#[trigger] parts[i]).contains('/') by {
        assert(clean_component(parts[i]));
    }
    if parts.len() == 0 {
        assert(join_components(parts) == Seq::<char>::empty());
        assert(split_spec(Seq::<char>::empty(), '/') == seq![Seq::<char>::empty()]);
        let one = seq![Seq::<char>::empty()];
        assert(one.drop_last() =~= Seq::<Seq<char>>::empty());
        assert(clean_components(Seq::<Seq<char>>::empty()) == Seq::<Seq<char>>::empty());
        assert(one.last().len() == 0);
        assert(clean_components(one) == clean_components(one.drop_last()));
    } else {
        lemma_split_join(parts);
        lemma_clean_components_fixed(parts);
    }
}

pub(crate) fn chars_are(s: &Vec<char>, lit: &str) -> (res: bool)
    ensures
        res == (s@ == lit@),
{
    let l = to_chars(lit);
    if s.len() != l.len() {
        assert(s@.len() != lit@.len());
        return false;
    }
    let mut i: usize = 0;
    while i < s.len()
        invariant
            i <= s.len(),
            s@.len() == l@.len(),
            l@ == lit@,
            forall|j: int| 0 <= j < i ==> s@[j] == l@[j],
        decreases s.len() - i,
    {
        if s[i] != l[i] {
            assert(s@[i as int] != l@[i as int]);
            return false;
        }
        i = i + 1;
    }
    assert(s@ =~= l@);
    true
}

pub(crate) fn join_with_slash(parts: &Vec<Vec<char>>) -> (res: String)
    ensures
        ({
            let views = Seq::new(parts@.len(), |i: int| parts@[i]@);
            res@ == join_components(views)
        }),
{
    let ghost views = Seq::new(parts@.len(), |i: int| parts@[i]@);
    let mut out = String::new();
    let mut i: usize = 0;
    while i < parts.len()
        invariant
            i <= parts@.len(),
            views == Seq::new(parts@.len(), |i: int| parts@[i]@),
            out@ == join_components(views.take(i as int)),
        decreases parts@.len() - i,
    {
        assert(views.take(i + 1).drop_last() == views.take(i as int));
        if i > 0 {
            push_char(&mut out, '/');
        }
        push_chars(&mut out, parts[i].as_slice());
        i = i + 1;
    }
    assert(views.take(parts@.len() as int) == views);
    out
}

/// Cleans a pattern: resolves `.` and `..` and drops empty components.
pub fn clean_pattern(value: &str) -> (res: String)
    ensures
        res@ == clean_pattern_spec(value@),
{
    let chars = to_chars(value);
    let segs = split_char(&chars, '/');
    let ghost sp = split_spec(value@, '/');
    let mut result: Vec<Vec<char>> = Vec::new();
    let mut i: usize = 0;
    while i < segs.len()
        invariant
            i <= segs@.len(),
            segs@.len() == sp.len(),
            sp == split_spec(value@, '/'),
            forall|j: int| 0 <= j < segs@.len() ==> #[trigger] segs@[j]@ == sp[j],
            Seq::new(result@.len(), |j: int| result@[j]@) == clean_components(sp.take(i as int)),
        decreases segs@.len() - i,
    {
        let ghost before = Seq::new(result@.len(), |j: int| result@[j]@);
        proof {
            assert(sp.take(i + 1).drop_last() == sp.take(i as int));
            assert(sp.take(i + 1).last() == sp[i as int]);
        }
        let seg = &segs[i];
        if seg.len() == 0 || chars_are(seg, ".") {
        } else if chars_are(seg, "..") {
            if result.len() > 0 {
                result.pop();
                assert(Seq::new(result@.len(), |j: int| result@[j]@) =~= before.drop_last());
            }
        } else {
            result.push(seg.clone());
            assert(Seq::new(result@.len(), |j: int| result@[j]@) =~= before.push(sp[i as int]));
        }
        i = i + 1;
    }
    assert(sp.take(segs@.len() as int) == sp);
    join_with_slash(&result)
}

} // verus!

verus! {

/// The first `]` at or after `k`, or the end of `p`.
pub open spec fn class_close(p: Seq<char>, k: int) -> int
    decreases p.len() - k,
{
    if k >= p.len() {
        p.len() as int
    } else if p[k] == ']' {
        k
    } else {
        class_close(p, k + 1)
    }
}

pub proof fn lemma_class_close(p: Seq<char>, k: int)
    requires
        0 <= k,
    ensures
        k <= class_close(p, k) || (k > p.len() && class_close(p, k) == p.len()),
        class_close(p, k) <= p.len() || k > p.len(),
        class_close(p, k) < p.len() ==> p[class_close(p, k)] == ']',
        forall|j: int| k <= j < class_close(p, k) && j < p.len() ==> p[j] != ']',
    decreases p.len() - k,
{
    if k < p.len() && p[k] != ']' {
        lemma_class_close(p, k + 1);
    }
}

/// Where the bracket expression opened at `i` starts looking for its `]`:
/// after an optional `!` or `^`, and after a `]` that comes first.
pub open spec fn class_body_start(p: Seq<char>, i: int) -> int {
    let k0 = i + 1;
    let k1 = if k0 < p.len() && (p[k0] == '!' || p[k0] == '^') { k0 + 1 } else { k0 };
    if k1 < p.len() && p[k1] == ']' { k1 + 1 } else { k1 }
}

/// `s` followed by the translation `r`, if there is one.
pub open spec fn prefixed(s: Seq<char>, r: Option<Seq<char>>) -> Option<Seq<char>> {
    match r {
        Some(t) => Some(s + t),
        None => None,
    }
}

/// The regular expression text for `p[i..]`: `**/` matches any leading
/// directories, `**` anything, `*` and `?` anything within one component,
/// bracket expressions are kept (with `[!` read as `[^`) unless unclosed or
/// containing `/`, and every other character, or one escaped by a
/// backslash, stands for itself. `None` marks an invalid pattern.
pub open spec fn translate(p: Seq<char>, i: int) -> Option<Seq<char>>
    decreases p.len() - i,
{
    if i < 0 || i >= p.len() {
        Some(Seq::empty())
    } else if p[i] == '*' && i + 1 < p.len() && p[i + 1] == '*' {
        if i + 2 < p.len() && p[i + 2] == '/' {
            prefixed("(?:.*/)?"@, translate(p, i + 3))
        } else {
            prefixed(".*"@, translate(p, i + 2))
        }
    } else if p[i] == '*' {
        prefixed("[^/]*"@, translate(p, i + 1))
    } else if p[i] == '?' {
        prefixed("[^/]"@, translate(p, i + 1))
    } else if p[i] == '[' {
        let end = class_close(p, class_body_start(p, i));
        proof {
            lemma_class_close(p, class_body_start(p, i));
        }
        if end >= p.len() {
            None
        } else {
            let class = p.subrange(i, end + 1);
            if class.contains('/') {
                None
            } else {
                let class2 = if class[1] == '!' { class.update(1, '^') } else { class };
                prefixed(class2, translate(p, end + 1))
            }
        }
    } else if p[i] == '\\' && i + 1 < p.len() {
        prefixed(regex_escape(p[i + 1]), translate(p, i + 2))
    } else {
        prefixed(regex_escape(p[i]), translate(p, i + 1))
    }
}

/// The anchored regular expression of a cleaned pattern.
pub open spec fn pattern_expression(p: Seq<char>) -> Option<Seq<char>> {
    match translate(p, 0) {
        Some(t) => Some("^"@ + t + "$"@),
        None => None,
    }
}

/// The message for a pattern that does not translate.
pub open spec fn invalid_pattern_text(pattern: Seq<char>) -> Seq<char> {
    "invalid pattern "@ + str_debug(pattern)
}

fn invalid_pattern(pattern: &str) -> (res: String)
    ensures
        res@ == invalid_pattern_text(pattern@),
{
    let mut message = owned("invalid pattern ");
    let quoted = crate::text::debug_str(pattern);
    push_all(&mut message, quoted.as_str());
    message
}

fn push_str_lit(out: &mut String, lit: &str)
    ensures
        final(out)@ == old(out)@ + lit@,
{
    push_all(out, lit);
}

/// Translates a cleaned pattern to an anchored regular expression (see
/// `translate`); an unclosed bracket expression or one containing `/` is an
/// error.
pub fn compile_pattern(pattern: &str) -> (res: Result<String, String>)
    ensures
        match res {
            Ok(e) => pattern_expression(pattern@) == Some(e@),
            Err(m) => pattern_expression(pattern@) is None && m@ == invalid_pattern_text(pattern@),
        },
{
    let p = to_chars(pattern);
    let n = p.len();
    let mut out = String::new();
    let mut i: usize = 0;
    assert(prefixed(out@, translate(p@, 0)) =~= translate(p@, 0));
    while i < n
        invariant
            n == p@.len(),
            p@ == pattern@,
            i <= n,
            prefixed(out@, translate(p@, i as int)) == translate(p@, 0),
        decreases n - i,
    {
        let ghost before = out@;
        let ghost i0 = i as int;
        let c = p[i];
        if c == '*' && i + 1 < n && p[i + 1] == '*' {
            if i + 2 < n && p[i + 2] == '/' {
                push_str_lit(&mut out, "(?:.*/)?");
                i = i + 3;
            } else {
                push_str_lit(&mut out, ".*");
                i = i + 2;
            }
        } else if c == '*' {
            push_str_lit(&mut out, "[^/]*");
            i = i + 1;
        } else if c == '?' {
            push_str_lit(&mut out, "[^/]");
            i = i + 1;
        } else if c == '[' {
            let start = i;
            let mut k = i + 1;
            if k < n && (p[k] == '!' || p[k] == '^') {
                k = k + 1;
            }
            if k < n && p[k] == ']' {
                k = k + 1;
            }
            assert(k as int == class_body_start(p@, i as int));
            proof {
                lemma_class_close(p@, k as int);
            }
            while k < n && p[k] != ']'
                invariant
                    n == p@.len(),
                    start < k <= n,
                    class_close(p@, k as int) == class_close(p@, class_body_start(p@, start as int)),
                decreases n - k,
            {
                k = k + 1;
            }
            let ghost end = class_close(p@, class_body_start(p@, start as int));
            assert(k as int == end);
            if k >= n {
                return Err(invalid_pattern(pattern));
            }
            let mut class: Vec<char> = Vec::new();
            let mut has_slash = false;
            let mut j = start;
            while j <= k
                invariant
                    start <= j <= k + 1,
                    k < n,
                    n == p@.len(),
                    class@ == p@.subrange(start as int, j as int),
                    has_slash == class@.contains('/'),
                decreases k + 1 - j,
            {
                let ghost prev = class@;
                if p[j] == '/' {
                    has_slash = true;
                }
                class.push(p[j]);
                assert(class@.contains('/') <==> prev.contains('/') || p@[j as int] == '/') by {
                    assert(class@ == prev.push(p@[j as int]));
                    if p@[j as int] == '/' {
                        assert(class@[prev.len() as int] == '/');
                    }
                    if prev.contains('/') {
                        let w = choose|w: int| 0 <= w < prev.len() && prev[w] == '/';
                        assert(class@[w] == '/');
                    }
                    if class@.contains('/') {
                        let w = choose|w: int| 0 <= w < class@.len() && class@[w] == '/';
                        if w < prev.len() {
                            assert(prev[w] == '/');
                        }
                    }
                }
                j = j + 1;
            }
            if has_slash {
                return Err(invalid_pattern(pattern));
            }
            if class[1] == '!' {
                class.set(1, '^');
            }
            push_chars(&mut out, class.as_slice());
            i = k + 1;
        } else if c == '\\' && i + 1 < n {
            push_regex_escaped(&mut out, p[i + 1]);
            i = i + 2;
        } else {
            push_regex_escaped(&mut out, c);
            i = i + 1;
        }
    }
    let mut expression = owned("^");
    push_all(&mut expression, out.as_str());
    push_str_lit(&mut expression, "$");
    Ok(expression)
}

} // verus!

verus! {

/// A compiled pattern as the contracts see it: whether it excludes, the
/// cleaned pattern text, and its anchored regular expression.
pub type PatternView = (bool, Seq<char>, Seq<char>);

/// The message for a lone `!`.
pub open spec fn bare_exclusion_text() -> Seq<char> {
    "illegal exclusion pattern: \"!\""@
}

/// The message for a pattern that cleans to nothing.
pub open spec fn empty_pattern_text() -> Seq<char> {
    "empty pattern after exclusion marker"@
}

/// What one configured value contributes: nothing when it is blank, an
/// error message, or a compiled pattern.
pub open spec fn compile_one(value: Seq<char>) -> Option<Result<PatternView, Seq<char>>> {
    let v = trimmed(value);
    if v.len() == 0 {
        None
    } else {
        let exclusion = v[0] == '!';
        let body = if exclusion { v.skip(1) } else { v };
        if exclusion && body.len() == 0 {
            Some(Err(bare_exclusion_text()))
        } else {
            let cleaned = clean_pattern_spec(body);
            if cleaned.len() == 0 {
                Some(Err(empty_pattern_text()))
            } else {
                match pattern_expression(cleaned) {
                    None => Some(Err(invalid_pattern_text(cleaned))),
                    Some(e) => if regex_valid(e) {
                        Some(Ok((exclusion, cleaned, e)))
                    } else {
                        Some(Err(invalid_pattern_text(cleaned) + ": "@ + regex_error_text(e)))
                    },
                }
            }
        }
    }
}

/// The patterns compiled from `values` in order, or the first error.
pub open spec fn compile_all(values: Seq<Seq<char>>) -> Result<Seq<PatternView>, Seq<char>>
    decreases values.len(),
{
    if values.len() == 0 {
        Ok(Seq::empty())
    } else {
        match compile_all(values.drop_last()) {
            Err(e) => Err(e),
            Ok(ps) => match compile_one(values.last()) {
                None => Ok(ps),
                Some(Err(e)) => Err(e),
                Some(Ok(p)) => Ok(ps.push(p)),
            },
        }
    }
}

/// The characters of each string.
pub open spec fn string_views(v: Seq<String>) -> Seq<Seq<char>> {
    Seq::new(v.len(), |i: int| v[i]@)
}

/// The index of the last `/` in `s[..k]`, or -1.
pub open spec fn last_slash(s: Seq<char>, k: int) -> int
    decreases k,
{
    if k <= 0 {
        -1
    } else if s[k - 1] == '/' {
        k - 1
    } else {
        last_slash(s, k - 1)
    }
}

pub proof fn lemma_last_slash(s: Seq<char>, k: int)
    requires
        0 <= k <= s.len(),
    ensures
        -1 <= last_slash(s, k) < k,
        last_slash(s, k) >= 0 ==> s[last_slash(s, k)] == '/',
        forall|j: int| last_slash(s, k) < j < k ==> s[j] != '/',
    decreases k,
{
    if k > 0 && s[k - 1] != '/' {
        lemma_last_slash(s, k - 1);
    }
}

/// The path without its last component (`rsplit_once('/')`), or the empty
/// path when there is no `/`.
pub open spec fn parent_path(s: Seq<char>) -> Seq<char> {
    let k = last_slash(s, s.len() as int);
    if k < 0 { Seq::empty() } else { s.take(k) }
}

/// Whether `expression` matches `path` or one of its ancestors, down to the
/// empty path.
pub open spec fn self_or_ancestor_matches(expression: Seq<char>, path: Seq<char>) -> bool
    decreases path.len(),
{
    if regex_matches(expression, path) {
        true
    } else if path.len() == 0 {
        false
    } else {
        proof {
            lemma_last_slash(path, path.len() as int);
        }
        self_or_ancestor_matches(expression, parent_path(path))
    }
}

/// Whether `path` is matched after the first `n` patterns: a pattern is
/// consulted only when it could change the answer, and a match sets the
/// answer to "not excluded".
pub open spec fn matched_after(ps: Seq<PatternView>, path: Seq<char>, n: int) -> bool
    decreases n,
{
    if n <= 0 {
        false
    } else {
        let m = matched_after(ps, path, n - 1);
        let p = ps[n - 1];
        if p.0 == m && self_or_ancestor_matches(p.2, path) { !p.0 } else { m }
    }
}

/// The last of the first `n` patterns that matches `path` or an ancestor.
pub open spec fn last_match(ps: Seq<PatternView>, path: Seq<char>, n: int) -> Option<int>
    decreases n,
{
    if n <= 0 {
        None
    } else if self_or_ancestor_matches(ps[n - 1].2, path) {
        Some(n - 1)
    } else {
        last_match(ps, path, n - 1)
    }
}

/// The last pattern that matches the path or one of its ancestors decides:
/// the path is selected when that pattern is not an exclusion, and a path
/// that no pattern matches is not selected.
pub proof fn law_last_matching_pattern_decides(ps: Seq<PatternView>, path: Seq<char>, n: int)
    requires
        0 <= n <= ps.len(),
    ensures
        matched_after(ps, path, n) == match last_match(ps, path, n) {
            Some(i) => !ps[i].0,
            None => false,
        },
    decreases n,
{
    if n > 0 {
        law_last_matching_pattern_decides(ps, path, n - 1);
    }
}

proof fn lemma_parent_of_child(p: Seq<char>, q: Seq<char>)
    ensures
        ({
            let s = p + seq!['/'] + q;
            parent_path(s) == if last_slash(q, q.len() as int) >= 0 {
                p + seq!['/'] + parent_path(q)
            } else {
                p
            }
        }),
{
    let s = p + seq!['/'] + q;
    let lq = last_slash(q, q.len() as int);
    let l = last_slash(s, s.len() as int);
    lemma_last_slash(q, q.len() as int);
    lemma_last_slash(s, s.len() as int);
    let pos = if lq >= 0 { p.len() + 1 + lq } else { p.len() as int };
    assert(s[pos] == '/') by {
        if lq >= 0 {
            assert(s[pos] == q[lq]);
        }
    }
    if l < pos {
        assert(s[pos] != '/');
    }
    if l > pos {
        assert(s[l] == q[l - p.len() - 1]);
        assert(q[l - p.len() - 1] != '/');
    }
    assert(l == pos);
    if lq >= 0 {
        assert(s.take(pos) =~= p + seq!['/'] + q.take(lq));
    } else {
        assert(s.take(pos) =~= p);
    }
}

proof fn lemma_match_reaches_descendants(e: Seq<char>, p: Seq<char>, q: Seq<char>)
    requires
        self_or_ancestor_matches(e, p),
    ensures
        self_or_ancestor_matches(e, p + seq!['/'] + q),
    decreases q.len(),
{
    let s = p + seq!['/'] + q;
    assert(s.len() > 0);
    lemma_parent_of_child(p, q);
    let lq = last_slash(q, q.len() as int);
    lemma_last_slash(q, q.len() as int);
    if lq >= 0 {
        assert(parent_path(q).len() < q.len());
        lemma_match_reaches_descendants(e, p, parent_path(q));
    }
}

proof fn lemma_last_match_found(ps: Seq<PatternView>, path: Seq<char>, n: int)
    requires
        0 <= n <= ps.len(),
    ensures
        last_match(ps, path, n) matches Some(i) ==> 0 <= i < n && self_or_ancestor_matches(ps[i].2, path),
        forall|i: int| 0 <= i < n && self_or_ancestor_matches(#[trigger] ps[i].2, path) ==> last_match(ps, path, n) is Some,
    decreases n,
{
    if n > 0 {
        lemma_last_match_found(ps, path, n - 1);
    }
}

/// With inclusion patterns only, a path that is selected has every path
/// below it selected too: a match on a path or one of its ancestors
/// carries over to every descendant.
pub proof fn law_match_carries_to_descendants(ps: Seq<PatternView>, p: Seq<char>, q: Seq<char>)
    requires
        forall|i: int| 0 <= i < ps.len() ==> !(#[trigger] ps[i]).0,
        matched_after(ps, p, ps.len() as int),
    ensures
        matched_after(ps, p + seq!['/'] + q, ps.len() as int),
{
    let n = ps.len() as int;
    let s = p + seq!['/'] + q;
    law_last_matching_pattern_decides(ps, p, n);
    lemma_last_match_found(ps, p, n);
    let i = last_match(ps, p, n)->0;
    lemma_match_reaches_descendants(ps[i].2, p, q);
    lemma_last_match_found(ps, s, n);
    law_last_matching_pattern_decides(ps, s, n);
    let j = last_match(ps, s, n)->0;
    assert(!ps[j].0);
}

/// Once a prefix of the values fails, every longer prefix fails the same way.
pub proof fn lemma_compile_error_sticks(values: Seq<Seq<char>>, k: int, e: Seq<char>)
    requires
        0 <= k <= values.len(),
        compile_all(values.take(k)) == Err::<Seq<PatternView>, Seq<char>>(e),
    ensures
        compile_all(values) == Err::<Seq<PatternView>, Seq<char>>(e),
    decreases values.len() - k,
{
    if k < values.len() {
        assert(values.take(k + 1).drop_last() =~= values.take(k));
        lemma_compile_error_sticks(values, k + 1, e);
    } else {
        assert(values.take(k) =~= values);
    }
}

struct Pattern {
    exclusion: bool,
    raw: String,
    expression: String,
}

impl Pattern {
    spec fn view(&self) -> PatternView {
        (self.exclusion, self.raw@, self.expression@)
    }
}

/// Ordered include/exclude patterns; a pattern starting with `!` excludes.
pub struct PatternMatcher {
    patterns: Vec<Pattern>,
}

fn compile_value(value: &str) -> (res: Option<Result<Pattern, String>>)
    ensures
        match res {
            None => compile_one(value@) is None,
            Some(Ok(p)) => compile_one(value@) == Some(Ok::<PatternView, Seq<char>>(p.view())),
            Some(Err(e)) => compile_one(value@) == Some(Err::<PatternView, Seq<char>>(e@)),
        },
{
    let trimmed_value = trim_text(value);
    let chars = to_chars(trimmed_value.as_str());
    if chars.len() == 0 {
        return None;
    }
    let exclusion = chars[0] == '!';
    let body = if exclusion {
        let mut rest: Vec<char> = Vec::new();
        let mut i: usize = 1;
        while i < chars.len()
            invariant
                1 <= i <= chars@.len(),
                rest@ == chars@.subrange(1, i as int),
            decreases chars@.len() - i,
        {
            rest.push(chars[i]);
            i = i + 1;
        }
        assert(rest@ == chars@.skip(1));
        if rest.len() == 0 {
            return Some(Err(owned("illegal exclusion pattern: \"!\"")));
        }
        from_chars(rest.as_slice())
    } else {
        trimmed_value
    };
    let cleaned = clean_pattern(body.as_str());
    if cleaned.as_str().is_empty() {
        return Some(Err(owned("empty pattern after exclusion marker")));
    }
    match compile_pattern(cleaned.as_str()) {
        Err(message) => Some(Err(message)),
        Ok(expression) => match regex_check(expression.as_str()) {
            Ok(()) => Some(Ok(Pattern { exclusion, raw: cleaned, expression })),
            Err(error) => {
                let mut message = invalid_pattern(cleaned.as_str());
                push_str_lit(&mut message, ": ");
                push_all(&mut message, error.as_str());
                Some(Err(message))
            },
        },
    }
}

fn prefix_string(cs: &Vec<char>, end: usize) -> (res: String)
    requires
        end <= cs@.len(),
    ensures
        res@ == cs@.take(end as int),
{
    let mut out = String::new();
    let mut i: usize = 0;
    while i < end
        invariant
            i <= end <= cs@.len(),
            out@ == cs@.take(i as int),
        decreases end - i,
    {
        push_char(&mut out, cs[i]);
        assert(out@ =~= cs@.take(i + 1));
        i = i + 1;
    }
    out
}

impl PatternMatcher {
    /// The compiled patterns in order.
    pub closed spec fn view(&self) -> Seq<PatternView> {
        Seq::new(self.patterns@.len(), |i: int| self.patterns@[i].view())
    }

    #[verifier::type_invariant]
    spec fn well_formed(&self) -> bool {
        &&& self.patterns@.len() > 0
        &&& forall|i: int| 0 <= i < self.patterns@.len()
            ==> #[trigger] regex_valid(self.patterns@[i].expression@)
    }

    /// Compiles the configured patterns in order, skipping blank ones.
    /// `None` when nothing is left; the first bad pattern is an error.
    pub fn new(patterns: &[String]) -> (res: Result<Option<Self>, String>)
        ensures
            match res {
                Ok(None) => compile_all(string_views(patterns@)) == Ok::<Seq<PatternView>, Seq<char>>(Seq::empty()),
                Ok(Some(m)) => compile_all(string_views(patterns@)) == Ok::<Seq<PatternView>, Seq<char>>(m@) && m@.len() > 0,
                Err(e) => compile_all(string_views(patterns@)) == Err::<Seq<PatternView>, Seq<char>>(e@),
            },
    {
        let ghost vals = string_views(patterns@);
        let mut compiled: Vec<Pattern> = Vec::new();
        let mut i: usize = 0;
        assert(vals.take(0) =~= Seq::<Seq<char>>::empty());
        assert(Seq::new(compiled@.len(), |j: int| compiled@[j].view()) =~= Seq::<PatternView>::empty());
        while i < patterns.len()
            invariant
                vals == string_views(patterns@),
                i <= patterns@.len(),
                compile_all(vals.take(i as int)) == Ok::<Seq<PatternView>, Seq<char>>(
                    Seq::new(compiled@.len(), |j: int| compiled@[j].view()),
                ),
                forall|j: int| 0 <= j < compiled@.len() ==> #[trigger] regex_valid(compiled@[j].expression@),
            decreases patterns@.len() - i,
        {
            let ghost before = Seq::new(compiled@.len(), |j: int| compiled@[j].view());
            assert(vals.take(i + 1).drop_last() =~= vals.take(i as int));
            assert(vals.take(i + 1).last() == patterns@[i as int]@);
            match compile_value(patterns[i].as_str()) {
                None => {},
                Some(Err(e)) => {
                    proof {
                        lemma_compile_error_sticks(vals, i + 1, e@);
                    }
                    return Err(e);
                },
                Some(Ok(p)) => {
                    compiled.push(p);
                    assert(Seq::new(compiled@.len(), |j: int| compiled@[j].view()) =~= before.push(
                        compiled@.last().view(),
                    ));
                },
            }
            i = i + 1;
        }
        assert(vals.take(patterns@.len() as int) =~= vals);
        if compiled.len() == 0 {
            assert(Seq::new(compiled@.len(), |j: int| compiled@[j].view()) =~= Seq::<PatternView>::empty());
            Ok(None)
        } else {
            let m = PatternMatcher { patterns: compiled };
            assert(m@ =~= Seq::new(compiled@.len(), |j: int| compiled@[j].view()));
            Ok(Some(m))
        }
    }

    /// Whether `pattern` matches `path` or one of its ancestors.
    fn pattern_matches_or_parent(expression: &String, path: &str) -> (res: bool)
        requires
            regex_valid(expression@),
        ensures
            res == self_or_ancestor_matches(expression@, path@),
    {
        let chars = to_chars(path);
        let mut end: usize = chars.len();
        assert(chars@.take(end as int) =~= path@);
        loop
            invariant
                end <= chars@.len(),
                chars@ == path@,
                regex_valid(expression@),
                self_or_ancestor_matches(expression@, chars@.take(end as int))
                    == self_or_ancestor_matches(expression@, path@),
            decreases end,
        {
            let current = prefix_string(&chars, end);
            let found = match regex_is_match(expression.as_str(), current.as_str()) {
                Some(b) => b,
                None => false,
            };
            if found {
                return true;
            }
            if end == 0 {
                return false;
            }
            let ghost cur = chars@.take(end as int);
            proof {
                lemma_last_slash(cur, cur.len() as int);
            }
            let mut k: usize = end;
            while k > 0 && chars[k - 1] != '/'
                invariant
                    k <= end <= chars@.len(),
                    cur == chars@.take(end as int),
                    last_slash(cur, k as int) == last_slash(cur, end as int),
                decreases k,
            {
                k = k - 1;
            }
            if k > 0 {
                assert(cur[k - 1] == '/');
                end = k - 1;
                assert(parent_path(cur) =~= chars@.take(end as int));
            } else {
                end = 0;
                assert(parent_path(cur) =~= chars@.take(0));
            }
        }
    }

    /// Whether `path` (with `/` separators) is selected: the last pattern
    /// that matches it or one of its ancestors decides.
    pub fn matches_or_parent(&self, path: &str) -> (res: bool)
        ensures
            res == matched_after(self@, path@, self@.len() as int),
    {
        proof {
            use_type_invariant(self);
        }
        let mut matched = false;
        let mut i: usize = 0;
        while i < self.patterns.len()
            invariant
                i <= self.patterns@.len(),
                forall|j: int| 0 <= j < self.patterns@.len()
                    ==> #[trigger] regex_valid(self.patterns@[j].expression@),
                matched == matched_after(self@, path@, i as int),
            decreases self.patterns@.len() - i,
        {
            let pattern = &self.patterns[i];
            assert(self@[i as int] == pattern.view());
            if pattern.exclusion == matched {
                if Self::pattern_matches_or_parent(&pattern.expression, path) {
                    matched = !pattern.exclusion;
                }
            }
            i = i + 1;
        }
        matched
    }

    /// The cleaned pattern texts with their exclusion flags, in order.
    pub fn patterns(&self) -> (res: Vec<(String, bool)>)
        ensures
            res@.len() == self@.len(),
            forall|i: int| 0 <= i < res@.len()
                ==> #[trigger] res@[i].0@ == self@[i].1 && res@[i].1 == self@[i].0,
    {
        let mut out: Vec<(String, bool)> = Vec::new();
        let mut i: usize = 0;
        while i < self.patterns.len()
            invariant
                i <= self.patterns@.len(),
                out@.len() == i,
                forall|j: int| 0 <= j < i
                    ==> #[trigger] out@[j].0@ == self@[j].1 && out@[j].1 == self@[j].0,
            decreases self.patterns@.len() - i,
        {
            let raw = owned(self.patterns[i].raw.as_str());
            out.push((raw, self.patterns[i].exclusion));
            i = i + 1;
        }
        out
    }
}

} // verus!
