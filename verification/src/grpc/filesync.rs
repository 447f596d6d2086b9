//! The local-source side of BuildKit's FileSync: followpath resolution on
//! paths, filter selection and the decisions of the sending session.

use vstd::prelude::*;
use crate::grpc::patternmatcher::{
    chars_are, compile_all, join_components, join_with_slash, matched_after, string_views,
    PatternMatcher, PatternView,
};
use crate::text::{owned, push_all, push_decimal, decimal_text, split_char, split_spec, to_chars};
use vstd::utf8::encode_utf8;
use crate::grpc::scan::{accepted, name_views, too_many_entries_text, visit_model, with_frame, ScanModel, Scanner, MAX_ENTRIES};
use std::collections::{HashMap, HashSet, VecDeque};

verus! {

broadcast use {
    vstd::string::group_string_axioms,
    vstd::std_specs::hash::group_hash_axioms,
    vstd::std_specs::vecdeque::group_vec_dequeue_axioms,
};

/// The components of a path, as `std::path::Path::components` gives them on
/// Unix: a leading `/` is the root (written `/`), a leading `.` the current
/// directory (written `.`), other `.` pieces and empty pieces are skipped,
/// and `..` and names are kept.
pub open spec fn path_parts(p: Seq<char>) -> Seq<Seq<char>> {
    let segs = split_spec(p, '/');
    if p.len() > 0 && p[0] == '/' {
        seq!["/"@] + parts_from(segs, false)
    } else {
        parts_from(segs, true)
    }
}

/// The components contributed by `segs`; `first` marks the first piece of a
/// relative path, where `.` counts.
pub open spec fn parts_from(segs: Seq<Seq<char>>, first: bool) -> Seq<Seq<char>>
    decreases segs.len(),
{
    if segs.len() == 0 {
        Seq::empty()
    } else {
        let s = segs[0];
        let rest = parts_from(segs.skip(1), false);
        if s.len() == 0 {
            rest
        } else if s == "."@ {
            if first { seq!["."@] + rest } else { rest }
        } else {
            seq![s] + rest
        }
    }
}

/// `PathBuf::pop`: drops the last component unless the path is empty or
/// only the root.
pub open spec fn pop_part(acc: Seq<Seq<char>>) -> Seq<Seq<char>> {
    if acc.len() == 0 || acc.last() == "/"@ { acc } else { acc.drop_last() }
}

/// Applies the components of a link target to `acc`: the root and `.` are
/// skipped, `..` pops and a name is pushed.
pub open spec fn apply_parts(acc: Seq<Seq<char>>, parts: Seq<Seq<char>>) -> Seq<Seq<char>>
    decreases parts.len(),
{
    if parts.len() == 0 {
        acc
    } else {
        let c = parts[0];
        let next = if c == "/"@ || c == "."@ {
            acc
        } else if c == ".."@ {
            pop_part(acc)
        } else {
            acc.push(c)
        };
        apply_parts(next, parts.skip(1))
    }
}

/// The text of a path made of `parts`.
pub open spec fn render_parts(parts: Seq<Seq<char>>) -> Seq<char> {
    if parts.len() > 0 && parts[0] == "/"@ {
        "/"@ + join_components(parts.skip(1))
    } else {
        join_components(parts)
    }
}

/// Where a symlink at `parent/...` with target `link` points, relative to the
/// mount root: an absolute target starts from the root, `..` never climbs
/// above it.
pub open spec fn follow_target(parent: Seq<char>, link: Seq<char>) -> Seq<char> {
    let start = if link.len() > 0 && link[0] == '/' { Seq::empty() } else { path_parts(parent) };
    render_parts(apply_parts(start, path_parts(link)))
}

fn views(v: &Vec<Vec<char>>) -> (res: Ghost<Seq<Seq<char>>>)
    ensures
        res@ == Seq::new(v@.len(), |i: int| v@[i]@),
{
    Ghost(Seq::new(v@.len(), |i: int| v@[i]@))
}

/// The components of `p` (see `path_parts`).
fn path_parts_of(p: &str) -> (res: Vec<Vec<char>>)
    ensures
        Seq::new(res@.len(), |i: int| res@[i]@) == path_parts(p@),
{
    let chars = to_chars(p);
    let segs = split_char(chars.as_slice(), '/');
    let ghost sp = split_spec(p@, '/');
    let mut out: Vec<Vec<char>> = Vec::new();
    let root = chars.len() > 0 && chars[0] == '/';
    if root {
        out.push(vec!['/']);
    }
    let ghost whole = path_parts(p@);
    let mut i: usize = 0;
    assert(sp.skip(0) =~= sp);
    assert(Seq::new(out@.len(), |j: int| out@[j]@) + parts_from(sp.skip(0), !root) =~= whole) by {
        if root {
            assert(out@[0]@ =~= "/"@) by {
                reveal_strlit("/");
            }
        }
    }
    while i < segs.len()
        invariant
            i <= segs@.len(),
            segs@.len() == sp.len(),
            forall|j: int| 0 <= j < segs@.len() ==> #[trigger] segs@[j]@ == sp[j],
            Seq::new(out@.len(), |j: int| out@[j]@) + parts_from(sp.skip(i as int), i == 0 && !root) == whole,
        decreases segs@.len() - i,
    {
        let ghost before = Seq::new(out@.len(), |j: int| out@[j]@);
        let ghost rest = sp.skip(i as int);
        assert(rest.skip(1) =~= sp.skip(i + 1));
        assert(rest[0] == segs@[i as int]@);
        let seg = &segs[i];
        if seg.len() == 0 {
        } else if chars_are(seg, ".") {
            if i == 0 && !root {
                out.push(seg.clone());
                assert(Seq::new(out@.len(), |j: int| out@[j]@) =~= before.push(rest[0]));
            }
        } else {
            out.push(seg.clone());
            assert(Seq::new(out@.len(), |j: int| out@[j]@) =~= before.push(rest[0]));
        }
        i = i + 1;
    }
    assert(sp.skip(i as int) =~= Seq::<Seq<char>>::empty());
    assert(Seq::new(out@.len(), |j: int| out@[j]@) =~= whole);
    out
}

/// The components left once the components of the link target `link` are
/// applied to `acc` (see `apply_parts`).
fn applied_parts(acc: Vec<Vec<char>>, link: &str) -> (res: Vec<Vec<char>>)
    ensures
        Seq::new(res@.len(), |j: int| res@[j]@) == apply_parts(Seq::new(acc@.len(), |j: int| acc@[j]@), path_parts(link@)),
{
    let mut acc = acc;
    let parts = path_parts_of(link);
    let ghost lp = path_parts(link@);
    let ghost start = Seq::new(acc@.len(), |j: int| acc@[j]@);
    let mut i: usize = 0;
    assert(lp.skip(0) =~= lp);
    while i < parts.len()
        invariant
            i <= parts@.len(),
            lp == Seq::new(parts@.len(), |j: int| parts@[j]@),
            apply_parts(Seq::new(acc@.len(), |j: int| acc@[j]@), lp.skip(i as int)) == apply_parts(start, lp),
        decreases parts@.len() - i,
    {
        let ghost before = Seq::new(acc@.len(), |j: int| acc@[j]@);
        assert(lp.skip(i as int).skip(1) =~= lp.skip(i + 1));
        assert(lp.skip(i as int)[0] == parts@[i as int]@);
        let c = &parts[i];
        if chars_are(c, "/") || chars_are(c, ".") {
        } else if chars_are(c, "..") {
            if acc.len() > 0 && !chars_are(&acc[acc.len() - 1], "/") {
                acc.pop();
                assert(Seq::new(acc@.len(), |j: int| acc@[j]@) =~= before.drop_last());
            }
        } else {
            acc.push(c.clone());
            assert(Seq::new(acc@.len(), |j: int| acc@[j]@) =~= before.push(lp[i as int]));
        }
        i = i + 1;
    }
    assert(lp.skip(i as int) =~= Seq::<Seq<char>>::empty());
    acc
}

/// The components of the directory that holds the entry at `p`, the way
/// `Path::parent` gives it: all but the last component.
pub open spec fn parent_parts(p: Seq<char>) -> Seq<Seq<char>> {
    let parts = path_parts(p);
    if parts.len() == 0 { parts } else { parts.drop_last() }
}

/// The components of the path a symlink at `entry` with target `link`
/// points to, relative to the mount root (see `follow_target`).
pub open spec fn link_target_parts(entry: Seq<char>, link: Seq<char>) -> Seq<Seq<char>> {
    let start = if link.len() > 0 && link[0] == '/' { Seq::empty() } else { parent_parts(entry) };
    apply_parts(start, path_parts(link))
}

/// The components of the path a symlink at `entry` with target `link`
/// points to (see `link_target_parts`).
pub(crate) fn link_target_parts_of(entry: &str, link: &str) -> (res: Vec<Vec<char>>)
    ensures
        Seq::new(res@.len(), |j: int| res@[j]@) == link_target_parts(entry@, link@),
{
    let link_chars = to_chars(link);
    let mut start: Vec<Vec<char>> = Vec::new();
    if !(link_chars.len() > 0 && link_chars[0] == '/') {
        start = path_parts_of(entry);
        if start.len() > 0 {
            let ghost before = Seq::new(start@.len(), |j: int| start@[j]@);
            start.pop();
            assert(Seq::new(start@.len(), |j: int| start@[j]@) =~= before.drop_last());
        }
    } else {
        assert(Seq::new(start@.len(), |j: int| start@[j]@) =~= Seq::<Seq<char>>::empty());
    }
    applied_parts(start, link)
}

/// Resolves the target `link` of a symlink whose directory is `parent`,
/// relative to the mount root, the way fsutil joins it onto the root: an
/// absolute target starts at the root and `..` stops there. On this
/// platform every target resolves.
pub fn normalize_follow_target(parent: &str, link: &str) -> (res: Option<String>)
    ensures
        res matches Some(t) && t@ == follow_target(parent@, link@),
{
    let link_chars = to_chars(link);
    let start: Vec<Vec<char>> = if link_chars.len() > 0 && link_chars[0] == '/' {
        Vec::new()
    } else {
        path_parts_of(parent)
    };
    assert(Seq::new(start@.len(), |j: int| start@[j]@) == (if link@.len() > 0 && link@[0] == '/' { Seq::empty() } else { path_parts(parent@) }));
    let acc = applied_parts(start, link);
    let ghost fin = Seq::new(acc@.len(), |j: int| acc@[j]@);
    if acc.len() > 0 && chars_are(&acc[0], "/") {
        let mut rest: Vec<Vec<char>> = Vec::new();
        let mut k: usize = 1;
        while k < acc.len()
            invariant
                1 <= k <= acc@.len(),
                fin == Seq::new(acc@.len(), |j: int| acc@[j]@),
                Seq::new(rest@.len(), |j: int| rest@[j]@) == fin.subrange(1, k as int),
            decreases acc@.len() - k,
        {
            let ghost before = Seq::new(rest@.len(), |j: int| rest@[j]@);
            let piece = acc[k].clone();
            assert(piece@ == acc@[k as int]@);
            rest.push(piece);
            assert(Seq::new(rest@.len(), |j: int| rest@[j]@) =~= before.push(fin[k as int]));
            assert(fin.subrange(1, k + 1) =~= fin.subrange(1, k as int).push(fin[k as int]));
            k = k + 1;
        }
        assert(fin.skip(1) =~= fin.subrange(1, acc@.len() as int));
        let joined = join_with_slash(&rest);
        let mut out = String::new();
        crate::text::push_char(&mut out, '/');
        crate::text::push_all(&mut out, joined.as_str());
        proof {
            reveal_strlit("/");
            assert(fin[0] == "/"@);
            assert(out@ =~= "/"@ + join_components(fin.skip(1)));
        }
        Some(out)
    } else {
        let out = join_with_slash(&acc);
        assert(out@ == render_parts(fin));
        Some(out)
    }
}

} // verus!

verus! {


/// Longest followpath, in bytes.
pub const MAX_FOLLOW_PATH_LENGTH: usize = 4096;
/// Most inclusion or exclusion patterns in one request.
pub const MAX_FILESYNC_PATTERNS: usize = 4096;
/// Entries asked of the scanner at a time.
pub const SCAN_BATCH_SIZE: usize = 128;

/// The gRPC status code of a FileSync failure.
#[derive(Debug, Copy, Clone, PartialEq, Eq, Structural)]
pub enum SyncCode {
    /// The request or a packet is malformed.
    InvalidArgument,
    /// A packet came out of order.
    FailedPrecondition,
    /// The receiver aborted the transfer.
    Aborted,
    /// The session failed internally.
    Internal,
    /// Something named does not exist.
    NotFound,
    /// A limit was exceeded.
    ResourceExhausted,
    /// Cleanup took too long.
    DeadlineExceeded,
}

/// A FileSync failure: a status code and its message.
#[derive(Debug, Clone)]
pub struct SyncStatus {
    /// The status code.
    pub code: SyncCode,
    /// The message sent to the peer.
    pub message: String,
}

impl SyncStatus {
    /// The code and the message's characters.
    pub open spec fn view(&self) -> (SyncCode, Seq<char>) {
        (self.code, self.message@)
    }
}

fn status(code: SyncCode, message: &str) -> (res: SyncStatus)
    ensures
        res@ == (code, message@),
{
    SyncStatus { code, message: owned(message) }
}

fn status_with(code: SyncCode, prefix: &str, detail: &str) -> (res: SyncStatus)
    ensures
        res@ == (code, prefix@ + detail@),
{
    let mut message = owned(prefix);
    push_all(&mut message, detail);
    SyncStatus { code, message }
}

/// The failure for a bad inclusion pattern.
fn inclusion_error(detail: &str) -> (res: SyncStatus)
    ensures
        res@ == (SyncCode::InvalidArgument, ("invalid FileSync in"@ + "clude pattern: "@) + detail@),
{
    let mut message = owned("invalid FileSync in");
    push_all(&mut message, "clude pattern: ");
    push_all(&mut message, detail);
    SyncStatus { code: SyncCode::InvalidArgument, message }
}

/// Which entries of a local source are sent.
pub enum ScanSelection {
    /// Every entry.
    All,
    /// Entries selected by the inclusion patterns (if any) and not by the
    /// exclusion patterns (if any).
    Filter { inclusions: Option<PatternMatcher>, exclusions: Option<PatternMatcher> },
}

/// The patterns of an optional matcher.
pub open spec fn matcher_view(m: Option<PatternMatcher>) -> Option<Seq<PatternView>> {
    match m {
        Some(m) => Some(m@),
        None => None,
    }
}

/// Whether an optional matcher's patterns select `path`; absent patterns
/// give `absent`.
pub open spec fn optional_matches(ps: Option<Seq<PatternView>>, path: Seq<char>, absent: bool) -> bool {
    match ps {
        Some(ps) => matched_after(ps, path, ps.len() as int),
        None => absent,
    }
}

/// The patterns a configured list compiles to (`None` for none at all).
pub open spec fn compiled_patterns(values: Seq<String>) -> Result<Option<Seq<PatternView>>, Seq<char>> {
    match compile_all(string_views(values)) {
        Err(e) => Err(e),
        Ok(ps) => if ps.len() == 0 { Ok(None) } else { Ok(Some(ps)) },
    }
}

impl ScanSelection {
    /// The inclusion and exclusion patterns, or `None` for every entry.
    pub open spec fn view(&self) -> Option<(Option<Seq<PatternView>>, Option<Seq<PatternView>>)> {
        match self {
            ScanSelection::All => None,
            ScanSelection::Filter { inclusions, exclusions } => Some((matcher_view(*inclusions), matcher_view(*exclusions))),
        }
    }

    /// Compiles the inclusion and exclusion patterns; with neither, every entry
    /// is selected.
    pub fn from_patterns(inclusions: &[String], exclusions: &[String]) -> (res: Result<Self, SyncStatus>)
        ensures
            match (compiled_patterns(inclusions@), compiled_patterns(exclusions@)) {
                (Err(e), _) => res matches Err(s)
                    && s@ == (SyncCode::InvalidArgument, ("invalid FileSync in"@ + "clude pattern: "@) + e),
                (Ok(_), Err(e)) => res matches Err(s)
                    && s@ == (SyncCode::InvalidArgument, "invalid FileSync exclude pattern: "@ + e),
                (Ok(None), Ok(None)) => res matches Ok(sel) && sel@ is None,
                (Ok(i), Ok(x)) => res matches Ok(sel) && sel@ == Some((i, x)),
            },
    {
        let inclusions = match PatternMatcher::new(inclusions) {
            Ok(m) => m,
            Err(e) => {
                return Err(inclusion_error(e.as_str()));
            },
        };
        let exclusions = match PatternMatcher::new(exclusions) {
            Ok(m) => m,
            Err(e) => {
                return Err(status_with(SyncCode::InvalidArgument, "invalid FileSync exclude pattern: ", e.as_str()));
            },
        };
        if inclusions.is_none() && exclusions.is_none() {
            Ok(ScanSelection::All)
        } else {
            Ok(ScanSelection::Filter { inclusions, exclusions })
        }
    }

    /// Whether the entry at `path` (relative, `/` separators) is sent.
    pub fn is_selected(&self, path: &str) -> (res: bool)
        ensures
            res == match self@ {
                None => true,
                Some((i, x)) => optional_matches(i, path@, true) && !optional_matches(x, path@, false),
            },
    {
        match self {
            ScanSelection::All => true,
            ScanSelection::Filter { inclusions, exclusions } => {
                let included = match inclusions {
                    Some(m) => m.matches_or_parent(path),
                    None => true,
                };
                let excluded = match exclusions {
                    Some(m) => m.matches_or_parent(path),
                    None => false,
                };
                included && !excluded
            },
        }
    }
}

/// Checks the number of filter patterns of a request, before its
/// followpaths are resolved.
pub fn check_pattern_counts(inclusions: &[String], exclusions: &[String]) -> (res: Result<(), SyncStatus>)
    ensures
        match res {
            Ok(()) => inclusions@.len() <= MAX_FILESYNC_PATTERNS && exclusions@.len() <= MAX_FILESYNC_PATTERNS,
            Err(s) => (inclusions@.len() > MAX_FILESYNC_PATTERNS || exclusions@.len() > MAX_FILESYNC_PATTERNS)
                && s@ == (SyncCode::ResourceExhausted, "FileSync request contains too many filter patterns"@),
        },
{
    if inclusions.len() > MAX_FILESYNC_PATTERNS || exclusions.len() > MAX_FILESYNC_PATTERNS {
        Err(status(SyncCode::ResourceExhausted, "FileSync request contains too many filter patterns"))
    } else {
        Ok(())
    }
}

/// Whether a resolved followpath list contains `.` (the whole source).
pub open spec fn follows_everything(follow: Seq<String>) -> bool {
    exists|i: int| 0 <= i < follow.len() && follow[i]@ == "."@
}

/// The selection of a request once its followpaths are resolved: too many
/// patterns in all is an error; a followpath `.` leaves the inclusions as
/// they are; otherwise the followpaths are further inclusion patterns.
pub fn selection_with_follow_paths(inclusions: &[String], exclusions: &[String], follow: &[String]) -> (res: Result<ScanSelection, SyncStatus>)
    ensures
        inclusions@.len() + follow@.len() > MAX_FILESYNC_PATTERNS ==> (res matches Err(s)
            && s@ == (SyncCode::ResourceExhausted, "FileSync request resolves to too many filter patterns"@)),
        inclusions@.len() + follow@.len() <= MAX_FILESYNC_PATTERNS ==> ({
            let wanted = if follows_everything(follow@) { inclusions@ } else { inclusions@ + follow@ };
            match (compiled_patterns(wanted), compiled_patterns(exclusions@)) {
                (Err(e), _) => res matches Err(s)
                    && s@ == (SyncCode::InvalidArgument, ("invalid FileSync in"@ + "clude pattern: "@) + e),
                (Ok(_), Err(e)) => res matches Err(s)
                    && s@ == (SyncCode::InvalidArgument, "invalid FileSync exclude pattern: "@ + e),
                (Ok(None), Ok(None)) => res matches Ok(sel) && sel@ is None,
                (Ok(i), Ok(x)) => res matches Ok(sel) && sel@ == Some((i, x)),
            }
        }),
{
    if inclusions.len() > MAX_FILESYNC_PATTERNS || follow.len() > MAX_FILESYNC_PATTERNS - inclusions.len() {
        return Err(status(SyncCode::ResourceExhausted, "FileSync request resolves to too many filter patterns"));
    }
    let mut everything = false;
    let mut i: usize = 0;
    while i < follow.len()
        invariant
            i <= follow@.len(),
            everything <==> exists|j: int| 0 <= j < i && follow@[j]@ == "."@,
        decreases follow@.len() - i,
    {
        if crate::text::str_equal(follow[i].as_str(), ".") {
            everything = true;
        }
        i = i + 1;
    }
    assert(everything == follows_everything(follow@));
    if everything {
        return ScanSelection::from_patterns(inclusions, exclusions);
    }
    let mut wanted: Vec<String> = Vec::new();
    let mut k: usize = 0;
    while k < inclusions.len()
        invariant
            k <= inclusions@.len(),
            string_views(wanted@) == string_views(inclusions@.take(k as int)),
        decreases inclusions@.len() - k,
    {
        let ghost before = string_views(wanted@);
        let item = owned(inclusions[k].as_str());
        wanted.push(item);
        assert(string_views(wanted@) =~= before.push(inclusions@[k as int]@));
        assert(string_views(inclusions@.take(k + 1)) =~= string_views(inclusions@.take(k as int)).push(inclusions@[k as int]@));
        k = k + 1;
    }
    let mut f: usize = 0;
    while f < follow.len()
        invariant
            f <= follow@.len(),
            string_views(wanted@) == string_views(inclusions@ + follow@.take(f as int)),
        decreases follow@.len() - f,
    {
        let ghost before = string_views(wanted@);
        let item = owned(follow[f].as_str());
        wanted.push(item);
        assert(string_views(wanted@) =~= before.push(follow@[f as int]@));
        assert(string_views(inclusions@ + follow@.take(f + 1)) =~= string_views(inclusions@ + follow@.take(f as int)).push(follow@[f as int]@));
        f = f + 1;
    }
    proof {
        assert(inclusions@.take(inclusions@.len() as int) =~= inclusions@);
        assert(follow@.take(follow@.len() as int) =~= follow@);
        lemma_compiled_patterns_views(wanted@, inclusions@ + follow@);
    }
    ScanSelection::from_patterns(wanted.as_slice(), exclusions)
}

/// Lists with the same text compile to the same patterns.
pub proof fn lemma_compiled_patterns_views(a: Seq<String>, b: Seq<String>)
    requires
        string_views(a) == string_views(b),
    ensures
        compiled_patterns(a) == compiled_patterns(b),
{
}

/// Whether a followpath is malformed: empty, absolute, climbing with `..`,
/// or longer than the limit in bytes.
pub open spec fn bad_follow_path(v: Seq<char>) -> bool {
    ||| v.len() == 0
    ||| v[0] == '/'
    ||| split_spec(v, '/').contains(".."@)
    ||| encode_utf8(v).len() > MAX_FOLLOW_PATH_LENGTH
}

/// The first problem among the followpaths, each checked for its form and
/// then compiled as a pattern; `.` is always accepted.
pub open spec fn follow_paths_error(paths: Seq<Seq<char>>) -> Option<(SyncCode, Seq<char>)>
    decreases paths.len(),
{
    if paths.len() == 0 {
        None
    } else {
        match follow_paths_error(paths.drop_last()) {
            Some(e) => Some(e),
            None => {
                let v = paths.last();
                if v == "."@ {
                    None
                } else if bad_follow_path(v) {
                    Some((SyncCode::InvalidArgument, "invalid FileSync followpath path"@))
                } else {
                    match compile_all(seq![v]) {
                        Err(e) => Some((SyncCode::InvalidArgument, "invalid FileSync followpath pattern: "@ + e)),
                        Ok(_) => None,
                    }
                }
            },
        }
    }
}

fn has_parent_piece(v: &str) -> (res: bool)
    ensures
        res == split_spec(v@, '/').contains(".."@),
{
    let chars = to_chars(v);
    let segs = split_char(chars.as_slice(), '/');
    let ghost sp = split_spec(v@, '/');
    let mut i: usize = 0;
    while i < segs.len()
        invariant
            i <= segs@.len(),
            segs@.len() == sp.len(),
            sp == split_spec(v@, '/'),
            forall|j: int| 0 <= j < segs@.len() ==> #[trigger] segs@[j]@ == sp[j],
            forall|j: int| 0 <= j < i ==> sp[j] != ".."@,
        decreases segs@.len() - i,
    {
        if chars_are(&segs[i], "..") {
            assert(sp[i as int] == ".."@);
            return true;
        }
        i = i + 1;
    }
    false
}

/// Checks the followpaths and the inclusion and exclusion patterns of a request
/// before anything is read.
pub fn validate_options(follow_paths: &[String], inclusions: &[String], exclusions: &[String]) -> (res: Result<(), SyncStatus>)
    ensures
        match follow_paths_error(string_views(follow_paths@)) {
            Some(e) => res matches Err(s) && s@ == e,
            None => match (compiled_patterns(inclusions@), compiled_patterns(exclusions@)) {
                (Err(e), _) => res matches Err(s)
                    && s@ == (SyncCode::InvalidArgument, ("invalid FileSync in"@ + "clude pattern: "@) + e),
                (Ok(_), Err(e)) => res matches Err(s)
                    && s@ == (SyncCode::InvalidArgument, "invalid FileSync exclude pattern: "@ + e),
                _ => res is Ok,
            },
        },
{
    let ghost vals = string_views(follow_paths@);
    let mut i: usize = 0;
    while i < follow_paths.len()
        invariant
            i <= follow_paths@.len(),
            vals == string_views(follow_paths@),
            follow_paths_error(vals.take(i as int)) is None,
        decreases follow_paths@.len() - i,
    {
        assert(vals.take(i + 1).drop_last() =~= vals.take(i as int));
        let v = follow_paths[i].as_str();
        assert(vals.take(i + 1).last() == v@);
        let ghost vi = v@;
        if !crate::text::str_equal(v, ".") {
            let chars = to_chars(v);
            if chars.len() == 0 || chars[0] == '/' || has_parent_piece(v) || v.as_bytes().len() > MAX_FOLLOW_PATH_LENGTH {
                proof {
                    lemma_follow_error_sticks(vals, i + 1, (SyncCode::InvalidArgument, "invalid FileSync followpath path"@));
                }
                return Err(status(SyncCode::InvalidArgument, "invalid FileSync followpath path"));
            }
            let mut one: Vec<String> = Vec::new();
            one.push(owned(v));
            assert(string_views(one@) =~= seq![vi]);
            match PatternMatcher::new(one.as_slice()) {
                Ok(_) => {},
                Err(e) => {
                    proof {
                        lemma_follow_error_sticks(vals, i + 1, (SyncCode::InvalidArgument, "invalid FileSync followpath pattern: "@ + e@));
                    }
                    return Err(status_with(SyncCode::InvalidArgument, "invalid FileSync followpath pattern: ", e.as_str()));
                },
            }
        }
        i = i + 1;
    }
    assert(vals.take(follow_paths@.len() as int) =~= vals);
    match PatternMatcher::new(inclusions) {
        Ok(_) => {},
        Err(e) => {
            return Err(inclusion_error(e.as_str()));
        },
    }
    match PatternMatcher::new(exclusions) {
        Ok(_) => {},
        Err(e) => {
            return Err(status_with(SyncCode::InvalidArgument, "invalid FileSync exclude pattern: ", e.as_str()));
        },
    }
    Ok(())
}

/// Once a prefix of the followpaths has a problem, every longer prefix
/// reports the same one.
pub proof fn lemma_follow_error_sticks(paths: Seq<Seq<char>>, k: int, e: (SyncCode, Seq<char>))
    requires
        0 <= k <= paths.len(),
        follow_paths_error(paths.take(k)) == Some(e),
    ensures
        follow_paths_error(paths) == Some(e),
    decreases paths.len() - k,
{
    if k < paths.len() {
        assert(paths.take(k + 1).drop_last() =~= paths.take(k));
        lemma_follow_error_sticks(paths, k + 1, e);
    } else {
        assert(paths.take(k) =~= paths);
    }
}

} // verus!

verus! {


/// Where the sending session stands.
#[derive(Debug, Copy, Clone, PartialEq, Eq, Structural)]
pub enum SendPhase {
    /// Entries are still being announced.
    Enumerating,
    /// Every entry was announced; file requests are served until FIN.
    AwaitingFin,
    /// The receiver sent FIN; the remaining files are finished.
    Finishing,
}

/// An entry found by the scanner: its stat, its request id and whether it is
/// a regular file, with its path relative to the mount.
pub struct SourceEntry<S> {
    /// The stat announced for the entry.
    pub stat: S,
    /// The request id under which the receiver asks for its data.
    pub position: u32,
    /// Whether the entry is a regular file.
    pub regular: bool,
    /// The path relative to the mount, with `/` separators.
    pub relative: String,
}

/// A file to be read and sent by a worker.
#[derive(Debug, Clone)]
pub struct FileJob {
    /// The request id.
    pub id: u32,
    /// The path relative to the mount.
    pub relative: String,
}

/// What the session asks of the scanner.
#[derive(Debug, Copy, Clone, PartialEq, Eq, Structural)]
pub enum ScanRequest {
    /// Ask the scanner for up to this many more entries.
    Batch(usize),
    /// The scanner has finished: answer with an empty, finished batch once
    /// every entry was announced.
    Completion,
}

/// Something the session waited for.
pub enum SendEvent<S> {
    /// The queued job was handed to the workers.
    JobQueued(u32),
    /// The job queue was closed before the queued job could be handed over.
    JobQueueClosed(u32),
    /// The next pending entry can be announced.
    StatReady,
    /// The scanner answered with entries; `finished` when it has no more.
    ScanBatch { entries: Vec<SourceEntry<S>>, finished: bool },
    /// The scanner failed.
    ScanFailed(SyncStatus),
    /// The finished scanner was joined, with its failure if it had one.
    ScannerJoined(Result<(), String>),
    /// A packet arrived from the receiver.
    Packet { packet_type: i32, id: u32 },
    /// The receiver's stream failed.
    PacketFailed(SyncStatus),
    /// The receiver's stream ended.
    InputEnded,
    /// A worker produced data of a file; empty data ends the file.
    WorkerData { id: u32, data: Vec<u8> },
    /// A worker failed.
    WorkerFailed(SyncStatus),
    /// The workers' output channel closed.
    OutputClosed,
}

/// What the caller must do next.
pub enum SendAction<S> {
    /// Nothing; wait for the next event.
    Wait,
    /// Send a stat packet with this stat.
    EmitStat(S),
    /// Join the finished scanner and report `ScannerJoined`.
    JoinScanner,
    /// Send the empty stat packet that ends the announcements.
    EmitStatTerminator,
    /// Send a data packet; when `then_finish`, then answer FIN and shut the
    /// session down.
    Forward { id: u32, data: Vec<u8>, then_finish: bool },
    /// Answer FIN and shut the session down.
    Finish,
    /// Send an error packet with the message, shut down and fail with it.
    Fail(SyncStatus),
}

/// The model of an event.
pub enum EventView<S> {
    JobQueued(u32),
    JobQueueClosed(u32),
    StatReady,
    ScanBatch(Seq<(S, u32, bool, Seq<char>)>, bool),
    ScanFailed((SyncCode, Seq<char>)),
    ScannerJoined(Option<Seq<char>>),
    Packet(i32, u32),
    PacketFailed((SyncCode, Seq<char>)),
    InputEnded,
    WorkerData(u32, Seq<u8>),
    WorkerFailed((SyncCode, Seq<char>)),
    OutputClosed,
}

/// The model of an action.
pub enum ActionView<S> {
    Wait,
    EmitStat(S),
    JoinScanner,
    EmitStatTerminator,
    Forward(u32, Seq<u8>, bool),
    Finish,
    Fail((SyncCode, Seq<char>)),
}

/// The model of an entry.
pub open spec fn entry_view<S>(e: SourceEntry<S>) -> (S, u32, bool, Seq<char>) {
    (e.stat, e.position, e.regular, e.relative@)
}

/// The model of an event.
pub open spec fn event_view<S>(e: SendEvent<S>) -> EventView<S> {
    match e {
        SendEvent::JobQueued(id) => EventView::JobQueued(id),
        SendEvent::JobQueueClosed(id) => EventView::JobQueueClosed(id),
        SendEvent::StatReady => EventView::StatReady,
        SendEvent::ScanBatch { entries, finished } => EventView::ScanBatch(
            Seq::new(entries@.len(), |i: int| entry_view(entries@[i])),
            finished,
        ),
        SendEvent::ScanFailed(s) => EventView::ScanFailed(s@),
        SendEvent::ScannerJoined(r) => EventView::ScannerJoined(match r {
            Ok(()) => None,
            Err(m) => Some(m@),
        }),
        SendEvent::Packet { packet_type, id } => EventView::Packet(packet_type, id),
        SendEvent::PacketFailed(s) => EventView::PacketFailed(s@),
        SendEvent::InputEnded => EventView::InputEnded,
        SendEvent::WorkerData { id, data } => EventView::WorkerData(id, data@),
        SendEvent::WorkerFailed(s) => EventView::WorkerFailed(s@),
        SendEvent::OutputClosed => EventView::OutputClosed,
    }
}

/// The model of an action.
pub open spec fn action_view<S>(a: SendAction<S>) -> ActionView<S> {
    match a {
        SendAction::Wait => ActionView::Wait,
        SendAction::EmitStat(s) => ActionView::EmitStat(s),
        SendAction::JoinScanner => ActionView::JoinScanner,
        SendAction::EmitStatTerminator => ActionView::EmitStatTerminator,
        SendAction::Forward { id, data, then_finish } => ActionView::Forward(id, data@, then_finish),
        SendAction::Finish => ActionView::Finish,
        SendAction::Fail(s) => ActionView::Fail(s@),
    }
}

/// The state of a sending session, in the model.
#[verifier::ext_equal]
pub struct SendModel<S> {
    /// Where the session stands.
    pub phase: SendPhase,
    /// Announced entries that may still be requested, by request id: whether
    /// each is a regular file, and its path.
    pub positions: Map<u32, (bool, Seq<char>)>,
    /// Requests handed to the workers whose files are not finished yet.
    pub pending_jobs: Set<u32>,
    /// A request waiting to be handed to the workers.
    pub queued: Option<(u32, Seq<char>)>,
    /// Scanned entries not announced yet, in order.
    pub pending: Seq<(S, u32, bool, Seq<char>)>,
    /// Whether the scanner reported its last batch.
    pub completion_pending: bool,
    /// Whether a scanner request is outstanding.
    pub scan_outstanding: bool,
}

/// A failure.
pub open spec fn failed<S>(code: SyncCode, message: Seq<char>) -> ActionView<S> {
    ActionView::Fail((code, message))
}

/// What a packet from the receiver does to the session.
pub open spec fn packet_step<S>(m: SendModel<S>, packet_type: i32, id: u32) -> (SendModel<S>, ActionView<S>) {
    if packet_type == crate::grpc::transfer::PACKET_ERR {
        (m, failed(SyncCode::Aborted, "BuildKit aborted the FileSync transfer"@))
    } else if packet_type == crate::grpc::transfer::PACKET_REQ {
        if m.phase == SendPhase::Finishing {
            (m, failed(SyncCode::FailedPrecondition, "FileSync received PACKET_REQ after PACKET_FIN"@))
        } else if !m.positions.contains_key(id) {
            (m, failed(SyncCode::InvalidArgument, "invalid or repeated FileSync request ID"@))
        } else if !m.positions[id].0 {
            (
                SendModel { positions: m.positions.remove(id), ..m },
                failed(SyncCode::InvalidArgument, "FileSync request does not identify a regular file"@),
            )
        } else {
            (
                SendModel { positions: m.positions.remove(id), queued: Some((id, m.positions[id].1)), ..m },
                ActionView::Wait,
            )
        }
    } else if packet_type == crate::grpc::transfer::PACKET_FIN {
        if m.phase == SendPhase::Enumerating {
            (m, failed(SyncCode::FailedPrecondition, "FileSync received PACKET_FIN before STAT termination"@))
        } else if m.phase == SendPhase::Finishing {
            (m, failed(SyncCode::FailedPrecondition, "FileSync received repeated PACKET_FIN"@))
        } else {
            let m2 = SendModel { phase: SendPhase::Finishing, ..m };
            (m2, if m.pending_jobs.is_empty() { ActionView::Finish } else { ActionView::Wait })
        }
    } else if packet_type == crate::grpc::transfer::PACKET_STAT || packet_type == crate::grpc::transfer::PACKET_DATA {
        (m, failed(SyncCode::InvalidArgument, "unexpected packet type from FileSync receiver"@))
    } else {
        (m, failed(SyncCode::InvalidArgument, "unknown FileSync packet type"@))
    }
}

/// What an event does to the session, as the FileSync protocol prescribes.
pub open spec fn send_step<S>(m: SendModel<S>, e: EventView<S>) -> (SendModel<S>, ActionView<S>) {
    match e {
        EventView::JobQueued(id) => (
            SendModel { queued: None, pending_jobs: m.pending_jobs.insert(id), ..m },
            ActionView::Wait,
        ),
        EventView::JobQueueClosed(id) => (
            m,
            failed(SyncCode::Internal, "FileSync file-job queue closed for request "@ + decimal_text(id as nat)),
        ),
        EventView::StatReady => {
            let e = m.pending[0];
            (
                SendModel { pending: m.pending.skip(1), positions: m.positions.insert(e.1, (e.2, e.3)), ..m },
                ActionView::EmitStat(e.0),
            )
        },
        EventView::ScanBatch(entries, finished) => {
            let m2 = SendModel { scan_outstanding: false, pending: m.pending + entries, ..m };
            if !finished {
                (m2, ActionView::Wait)
            } else if m.completion_pending {
                (SendModel { completion_pending: false, ..m2 }, ActionView::JoinScanner)
            } else {
                (SendModel { completion_pending: true, ..m2 }, ActionView::Wait)
            }
        },
        EventView::ScanFailed(s) => (SendModel { scan_outstanding: false, ..m }, ActionView::Fail(s)),
        EventView::ScannerJoined(r) => match r {
            None => (SendModel { phase: SendPhase::AwaitingFin, ..m }, ActionView::EmitStatTerminator),
            Some(msg) => (m, failed(SyncCode::Internal, "FileSync scanner task failed: "@ + msg)),
        },
        EventView::Packet(t, id) => packet_step(m, t, id),
        EventView::PacketFailed(s) => (m, ActionView::Fail(s)),
        EventView::InputEnded => (m, failed(SyncCode::FailedPrecondition, "FileSync stream ended before PACKET_FIN"@)),
        EventView::WorkerData(id, data) => {
            if data.len() == 0 && !m.pending_jobs.contains(id) {
                (m, failed(SyncCode::Internal, "FileSync worker emitted an unexpected EOF"@))
            } else {
                let jobs = if data.len() == 0 { m.pending_jobs.remove(id) } else { m.pending_jobs };
                (
                    SendModel { pending_jobs: jobs, ..m },
                    ActionView::Forward(id, data, m.phase == SendPhase::Finishing && jobs.is_empty()),
                )
            }
        },
        EventView::WorkerFailed(s) => (m, ActionView::Fail(s)),
        EventView::OutputClosed => (m, failed(SyncCode::Internal, "FileSync output channel closed"@)),
    }
}

/// Whether the session should ask the scanner for more, and how.
pub open spec fn scan_request_step<S>(m: SendModel<S>) -> Option<ScanRequest> {
    let need = if m.completion_pending { m.pending.len() == 0 } else { m.pending.len() < SCAN_BATCH_SIZE };
    if m.phase == SendPhase::Enumerating && !m.scan_outstanding && need {
        Some(if m.completion_pending { ScanRequest::Completion } else { ScanRequest::Batch(SCAN_BATCH_SIZE) })
    } else {
        None
    }
}

/// A file is served at most once: once a request for it was accepted, a
/// second request for the same id is refused.
pub proof fn law_request_served_once<S>(m: SendModel<S>, id: u32)
    requires
        send_step(m, EventView::Packet(crate::grpc::transfer::PACKET_REQ, id)).1 is Wait,
    ensures
        ({
            let m1 = send_step(m, EventView::Packet(crate::grpc::transfer::PACKET_REQ, id)).0;
            send_step(m1, EventView::Packet(crate::grpc::transfer::PACKET_REQ, id)).1
                == failed::<S>(SyncCode::InvalidArgument, "invalid or repeated FileSync request ID"@)
        }),
{
}

/// FIN is refused while entries are still being announced.
pub proof fn law_fin_needs_stat_termination<S>(m: SendModel<S>, id: u32)
    requires
        m.phase == SendPhase::Enumerating,
    ensures
        send_step(m, EventView::Packet(crate::grpc::transfer::PACKET_FIN, id)).1
            == failed::<S>(SyncCode::FailedPrecondition, "FileSync received PACKET_FIN before STAT termination"@),
{
}

/// After an accepted FIN, no file may be requested any more and a second
/// FIN is refused.
pub proof fn law_nothing_after_fin<S>(m: SendModel<S>, fin_id: u32, id: u32)
    requires
        m.phase == SendPhase::AwaitingFin,
    ensures
        ({
            let m1 = send_step(m, EventView::Packet(crate::grpc::transfer::PACKET_FIN, fin_id)).0;
            &&& send_step(m1, EventView::Packet(crate::grpc::transfer::PACKET_REQ, id)).1
                == failed::<S>(SyncCode::FailedPrecondition, "FileSync received PACKET_REQ after PACKET_FIN"@)
            &&& send_step(m1, EventView::Packet(crate::grpc::transfer::PACKET_FIN, fin_id)).1
                == failed::<S>(SyncCode::FailedPrecondition, "FileSync received repeated PACKET_FIN"@)
        }),
{
}

/// The session only finishes after FIN, with no requested file left
/// unfinished.
pub proof fn law_finish_waits_for_files<S>(m: SendModel<S>, e: EventView<S>)
    ensures
        ({
            let (m1, a) = send_step(m, e);
            (a is Finish || a matches ActionView::Forward(_, _, true))
                ==> m1.phase == SendPhase::Finishing && m1.pending_jobs.is_empty()
        }),
{
}

/// Entries are announced in the order the scanner found them: the stat sent
/// is that of the oldest pending entry, which becomes requestable.
pub proof fn law_stats_in_scan_order<S>(m: SendModel<S>)
    requires
        m.pending.len() > 0,
    ensures
        ({
            let (m1, a) = send_step(m, EventView::StatReady);
            &&& a == ActionView::EmitStat(m.pending[0].0)
            &&& m1.pending == m.pending.skip(1)
            &&& m1.positions.contains_key(m.pending[0].1)
        }),
{
}

struct FileTarget {
    regular: bool,
    relative: String,
}

/// The decisions of one FileSync `DiffCopy` session on the sending side: it
/// announces the scanned entries in order, serves each request for a
/// regular file once, and finishes when FIN arrived and every requested file
/// was sent. The caller performs the I/O and reports what happened.
pub struct SendSession<S> {
    phase: SendPhase,
    positions: HashMap<u32, FileTarget>,
    pending_jobs: HashSet<u32>,
    queued: Option<FileJob>,
    pending: VecDeque<SourceEntry<S>>,
    completion_pending: bool,
    scan_outstanding: bool,
}

impl<S> SendSession<S> {
    /// The state of the session.
    pub closed spec fn view(&self) -> SendModel<S> {
        SendModel {
            phase: self.phase,
            positions: self.positions@.map_values(|t: FileTarget| (t.regular, t.relative@)),
            pending_jobs: self.pending_jobs@,
            queued: match self.queued {
                Some(j) => Some((j.id, j.relative@)),
                None => None,
            },
            pending: Seq::new(self.pending@.len(), |i: int| entry_view(self.pending@[i])),
            completion_pending: self.completion_pending,
            scan_outstanding: self.scan_outstanding,
        }
    }

    /// A session that has announced nothing yet.
    pub fn new() -> (res: Self)
        ensures
            res@.phase == SendPhase::Enumerating,
            res@.positions == Map::<u32, (bool, Seq<char>)>::empty(),
            res@.pending_jobs == Set::<u32>::empty(),
            res@.queued is None,
            res@.pending.len() == 0,
            !res@.completion_pending,
            !res@.scan_outstanding,
    {
        let res = SendSession {
            phase: SendPhase::Enumerating,
            positions: HashMap::new(),
            pending_jobs: HashSet::new(),
            queued: None,
            pending: VecDeque::new(),
            completion_pending: false,
            scan_outstanding: false,
        };
        assert(res@.positions =~= Map::<u32, (bool, Seq<char>)>::empty());
        assert(res@.pending =~= Seq::<(S, u32, bool, Seq<char>)>::empty());
        res
    }

    /// The request waiting to be handed to the workers, if any.
    pub fn queued_job(&self) -> (res: Option<FileJob>)
        ensures
            match (res, self@.queued) {
                (Some(j), Some((id, rel))) => j.id == id && j.relative@ == rel,
                (None, None) => true,
                _ => false,
            },
    {
        match &self.queued {
            Some(j) => Some(FileJob { id: j.id, relative: owned(j.relative.as_str()) }),
            None => None,
        }
    }

    /// Whether a scanned entry waits to be announced.
    pub fn has_pending_stat(&self) -> (res: bool)
        ensures
            res == (self@.pending.len() > 0),
    {
        self.pending.len() > 0
    }

    fn fail_with(&self, code: SyncCode, message: &str) -> (res: SendAction<S>)
        ensures
            action_view(res) == failed::<S>(code, message@),
    {
        SendAction::Fail(status(code, message))
    }

    fn take_target(&mut self, id: u32) -> (res: Option<FileTarget>)
        ensures
            final(self)@ == (SendModel { positions: old(self)@.positions.remove(id), ..old(self)@ }),
            (match res {
                Some(t) => old(self)@.positions.contains_key(id) && old(self)@.positions[id] == (t.regular, t.relative@),
                None => !old(self)@.positions.contains_key(id),
            }),
    {
        let ghost before = self@;
        let res = self.positions.remove(&id);
        assert(self@.positions =~= before.positions.remove(id));
        res
    }

    fn packet(&mut self, packet_type: i32, id: u32) -> (res: SendAction<S>)
        ensures
            ({
                let (m, a) = packet_step(old(self)@, packet_type, id);
                final(self)@ == m && action_view(res) == a
            }),
    {
        if packet_type == crate::grpc::transfer::PACKET_ERR {
            self.fail_with(SyncCode::Aborted, "BuildKit aborted the FileSync transfer")
        } else if packet_type == crate::grpc::transfer::PACKET_REQ {
            if self.phase == SendPhase::Finishing {
                return self.fail_with(SyncCode::FailedPrecondition, "FileSync received PACKET_REQ after PACKET_FIN");
            }
            match self.take_target(id) {
                None => self.fail_with(SyncCode::InvalidArgument, "invalid or repeated FileSync request ID"),
                Some(target) => {
                    if !target.regular {
                        self.fail_with(SyncCode::InvalidArgument, "FileSync request does not identify a regular file")
                    } else {
                        let ghost mid = self@;
                        self.queued = Some(FileJob { id, relative: target.relative });
                        assert(self@.positions == mid.positions);
                        assert(self@.pending == mid.pending);
                        assert(self@ == (SendModel { queued: Some((id, target.relative@)), ..mid }));
                        SendAction::Wait
                    }
                },
            }
        } else if packet_type == crate::grpc::transfer::PACKET_FIN {
            if self.phase == SendPhase::Enumerating {
                return self.fail_with(SyncCode::FailedPrecondition, "FileSync received PACKET_FIN before STAT termination");
            }
            if self.phase == SendPhase::Finishing {
                return self.fail_with(SyncCode::FailedPrecondition, "FileSync received repeated PACKET_FIN");
            }
            let ghost mid = self@;
            self.phase = SendPhase::Finishing;
            assert(self@ == (SendModel { phase: SendPhase::Finishing, ..mid }));
            if self.pending_jobs.is_empty() {
                SendAction::Finish
            } else {
                SendAction::Wait
            }
        } else if packet_type == crate::grpc::transfer::PACKET_STAT || packet_type == crate::grpc::transfer::PACKET_DATA {
            self.fail_with(SyncCode::InvalidArgument, "unexpected packet type from FileSync receiver")
        } else {
            self.fail_with(SyncCode::InvalidArgument, "unknown FileSync packet type")
        }
    }

    /// Records what happened and says what to do next.
    pub fn handle(&mut self, event: SendEvent<S>) -> (res: SendAction<S>)
        requires
            event is StatReady ==> old(self)@.pending.len() > 0,
        ensures
            ({
                let (m, a) = send_step(old(self)@, event_view(event));
                final(self)@ == m && action_view(res) == a
            }),
    {
        let ghost before = self@;
        match event {
            SendEvent::JobQueued(id) => {
                self.queued = None;
                self.pending_jobs.insert(id);
                assert(self@.pending_jobs =~= before.pending_jobs.insert(id));
                SendAction::Wait
            },
            SendEvent::JobQueueClosed(id) => {
                let mut message = owned("FileSync file-job queue closed for request ");
                push_decimal(&mut message, id as u64);
                SendAction::Fail(SyncStatus { code: SyncCode::Internal, message })
            },
            SendEvent::StatReady => {
                let entry = self.pending.pop_front();
                match entry {
                    Some(e) => {
                        assert(self@.pending =~= before.pending.skip(1));
                        self.positions.insert(e.position, FileTarget { regular: e.regular, relative: e.relative });
                        assert(self@.positions =~= before.positions.insert(e.position, (e.regular, e.relative@)));
                        SendAction::EmitStat(e.stat)
                    },
                    None => SendAction::Wait,
                }
            },
            SendEvent::ScanBatch { entries, finished } => {
                let ghost added = Seq::new(entries@.len(), |i: int| entry_view(entries@[i]));
                self.scan_outstanding = false;
                let ghost base = self.pending@;
                let ghost snap = *self;
                for e in it: entries
                    invariant
                        it.seq() == entries@,
                        self.phase == snap.phase,
                        self.positions == snap.positions,
                        self.pending_jobs == snap.pending_jobs,
                        self.queued == snap.queued,
                        self.completion_pending == snap.completion_pending,
                        self.scan_outstanding == snap.scan_outstanding,
                        self.pending@ == base + it.seq().take(it.index() as int),
                {
                    self.pending.push_back(e);
                    assert(self.pending@ =~= base + it.seq().take(it.index() + 1));
                }
                assert(self@.pending =~= before.pending + added);
                if !finished {
                    SendAction::Wait
                } else if self.completion_pending {
                    self.completion_pending = false;
                    SendAction::JoinScanner
                } else {
                    self.completion_pending = true;
                    SendAction::Wait
                }
            },
            SendEvent::ScanFailed(s) => {
                self.scan_outstanding = false;
                SendAction::Fail(s)
            },
            SendEvent::ScannerJoined(r) => match r {
                Ok(()) => {
                    self.phase = SendPhase::AwaitingFin;
                    SendAction::EmitStatTerminator
                },
                Err(detail) => SendAction::Fail(status_with(SyncCode::Internal, "FileSync scanner task failed: ", detail.as_str())),
            },
            SendEvent::Packet { packet_type, id } => self.packet(packet_type, id),
            SendEvent::PacketFailed(s) => SendAction::Fail(s),
            SendEvent::InputEnded => self.fail_with(SyncCode::FailedPrecondition, "FileSync stream ended before PACKET_FIN"),
            SendEvent::WorkerData { id, data } => {
                if data.len() == 0 {
                    let removed = self.pending_jobs.remove(&id);
                    assert(self@.pending_jobs =~= before.pending_jobs.remove(id));
                    if !removed {
                        assert(self@.pending_jobs =~= before.pending_jobs);
                        return self.fail_with(SyncCode::Internal, "FileSync worker emitted an unexpected EOF");
                    }
                }
                let then_finish = self.phase == SendPhase::Finishing && self.pending_jobs.is_empty();
                SendAction::Forward { id, data, then_finish }
            },
            SendEvent::WorkerFailed(s) => SendAction::Fail(s),
            SendEvent::OutputClosed => self.fail_with(SyncCode::Internal, "FileSync output channel closed"),
        }
    }

    /// Asks the scanner for more entries when the session needs them.
    pub fn scan_request(&mut self) -> (res: Option<ScanRequest>)
        ensures
            res == scan_request_step(old(self)@),
            final(self)@ == (if res is Some { SendModel { scan_outstanding: true, ..old(self)@ } } else { old(self)@ }),
    {
        let need = if self.completion_pending {
            self.pending.len() == 0
        } else {
            self.pending.len() < SCAN_BATCH_SIZE
        };
        if self.phase == SendPhase::Enumerating && !self.scan_outstanding && need {
            self.scan_outstanding = true;
            if self.completion_pending {
                Some(ScanRequest::Completion)
            } else {
                Some(ScanRequest::Batch(SCAN_BATCH_SIZE))
            }
        } else {
            None
        }
    }
}

} // verus!

verus! {

/// Longest entry path or symlink target sent, in bytes.
pub const MAX_SOURCE_PATH_LENGTH: usize = 4096;

/// What kind of filesystem entry the scanner found.
pub enum SourceKind {
    /// A directory.
    Directory,
    /// A symlink with this target (with `/` separators).
    Symlink(String),
    /// A regular file of this many bytes.
    File(u64),
    /// A device, pipe, socket or other special file.
    Special,
}

/// What the scanner learned about an entry from the filesystem.
pub struct EntryFacts {
    pub kind: SourceKind,
    /// The Unix mode bits.
    pub mode: u32,
    pub uid: u32,
    pub gid: u32,
    /// Modification time: seconds and nanoseconds since the epoch.
    pub mtime_sec: i64,
    pub mtime_nsec: i64,
    /// Number of hard links, device and inode.
    pub nlink: u64,
    pub dev: u64,
    pub ino: u64,
    /// The extended attributes that are sent, by name.
    pub xattrs: Vec<(String, Vec<u8>)>,
}

/// The stat announced for an entry.
pub struct SourceStat {
    pub path: String,
    pub mode: u32,
    pub uid: u32,
    pub gid: u32,
    pub size: i64,
    pub mod_time: i64,
    pub linkname: String,
    /// Extended attributes, by name: those of directories and regular
    /// files; a symlink has none.
    pub xattrs: Vec<(String, Vec<u8>)>,
}

/// Go `fs.FileMode` bit of a directory.
pub const FILE_MODE_DIR: u32 = 0x8000_0000;
/// Go `fs.FileMode` bit of a symlink.
pub const FILE_MODE_SYMLINK: u32 = 0x0800_0000;

/// Whether every component of a relative path is a name.
pub open spec fn all_names(parts: Seq<Seq<char>>) -> bool {
    forall|i: int| 0 <= i < parts.len() ==> #[trigger] parts[i] != "/"@ && parts[i] != "."@ && parts[i] != ".."@
}

/// The modification time in nanoseconds, or 0 when it does not fit.
pub open spec fn mod_time_of(sec: i64, nsec: i64) -> i64 {
    let t = sec * 1_000_000_000 + nsec;
    if i64::MIN <= sec * 1_000_000_000 <= i64::MAX && i64::MIN <= t <= i64::MAX { t as i64 } else { 0 }
}

/// The files already sent that have more than one hard link, by device and
/// inode: the path they were sent under.
pub struct HardlinkIndex {
    entries: Vec<(u64, u64, String)>,
}

impl HardlinkIndex {
    /// The recorded paths by device and inode.
    pub closed spec fn view(&self) -> Map<(u64, u64), Seq<char>> {
        Map::new(
            |k: (u64, u64)| exists|i: int| 0 <= i < self.entries@.len() && self.entries@[i].0 == k.0 && self.entries@[i].1 == k.1,
            |k: (u64, u64)| {
                let i = choose|i: int| 0 <= i < self.entries@.len() && self.entries@[i].0 == k.0 && self.entries@[i].1 == k.1;
                self.entries@[i].2@
            },
        )
    }

    #[verifier::type_invariant]
    spec fn well_formed(&self) -> bool {
        forall|i: int, j: int| 0 <= i < j < self.entries@.len()
            ==> !(self.entries@[i].0 == self.entries@[j].0 && self.entries@[i].1 == self.entries@[j].1)
    }

    /// An empty index.
    pub fn new() -> (res: Self)
        ensures
            res@ == Map::<(u64, u64), Seq<char>>::empty(),
    {
        let res = HardlinkIndex { entries: Vec::new() };
        assert(res@ =~= Map::<(u64, u64), Seq<char>>::empty());
        res
    }

    /// The path recorded for an identity, if any.
    pub fn lookup(&self, dev: u64, ino: u64) -> (res: Option<String>)
        ensures
            match res {
                Some(p) => self@.contains_key((dev, ino)) && self@[(dev, ino)] == p@,
                None => !self@.contains_key((dev, ino)),
            },
    {
        proof {
            use_type_invariant(self);
        }
        let mut i: usize = 0;
        while i < self.entries.len()
            invariant
                i <= self.entries@.len(),
                forall|j: int| 0 <= j < i ==> !(self.entries@[j].0 == dev && self.entries@[j].1 == ino),
            decreases self.entries@.len() - i,
        {
            if self.entries[i].0 == dev && self.entries[i].1 == ino {
                proof {
                    use_type_invariant(self);
                    let k = (dev, ino);
                    assert(self@.contains_key(k));
                    let c = choose|c: int| 0 <= c < self.entries@.len() && self.entries@[c].0 == k.0 && self.entries@[c].1 == k.1;
                    assert(c == i);
                }
                return Some(crate::text::owned(self.entries[i].2.as_str()));
            }
            i = i + 1;
        }
        None
    }

    /// Records the path of an identity that has none yet.
    pub fn record(&mut self, dev: u64, ino: u64, path: String)
        requires
            !old(self)@.contains_key((dev, ino)),
        ensures
            final(self)@ == old(self)@.insert((dev, ino), path@),
    {
        proof {
            use_type_invariant(&*self);
        }
        let ghost before = self@;
        let ghost n = self.entries@.len();
        let mut entries: Vec<(u64, u64, String)> = Vec::new();
        std::mem::swap(&mut entries, &mut self.entries);
        let ghost old_entries = entries@;
        entries.push((dev, ino, path));
        proof {
            assert forall|i: int, j: int| 0 <= i < j < entries@.len()
                implies !(entries@[i].0 == entries@[j].0 && entries@[i].1 == entries@[j].1) by {
                if j == n as int {
                    if entries@[i].0 == dev && entries@[i].1 == ino {
                        assert(old_entries[i] == entries@[i]);
                        assert(before.contains_key((dev, ino)));
                    }
                } else {
                    assert(old_entries[i] == entries@[i] && old_entries[j] == entries@[j]);
                }
            }
        }
        self.entries = entries;
        proof {
            assert forall|k: (u64, u64)| #[trigger] self@.contains_key(k) <==> before.insert((dev, ino), path@).contains_key(k) by {
                if self@.contains_key(k) && k != (dev, ino) {
                    let i = choose|i: int| 0 <= i < self.entries@.len() && self.entries@[i].0 == k.0 && self.entries@[i].1 == k.1;
                    if i == n as int {
                        assert(k == (dev, ino));
                    }
                    assert(old_entries[i] == self.entries@[i]);
                }
                if before.contains_key(k) {
                    let i = choose|i: int| 0 <= i < old_entries.len() && old_entries[i].0 == k.0 && old_entries[i].1 == k.1;
                    assert(self.entries@[i] == old_entries[i]);
                }
                if k == (dev, ino) {
                    assert(self.entries@[n as int].0 == dev);
                }
            }
            assert forall|k: (u64, u64)| #[trigger] self@.contains_key(k) implies self@[k] == before.insert((dev, ino), path@)[k] by {
                let c = choose|c: int| 0 <= c < self.entries@.len() && self.entries@[c].0 == k.0 && self.entries@[c].1 == k.1;
                if k == (dev, ino) {
                    assert(c == n as int);
                } else {
                    assert(c < n);
                    assert(old_entries[c] == self.entries@[c]);
                    let c0 = choose|c0: int| 0 <= c0 < old_entries.len() && old_entries[c0].0 == k.0 && old_entries[c0].1 == k.1;
                    assert(c0 == c);
                }
            }
            assert(self@ =~= before.insert((dev, ino), path@));
        }
    }
}

} // verus!

verus! {

fn has_nul(s: &str) -> (res: bool)
    ensures
        res == s@.contains('\0'),
{
    let chars = to_chars(s);
    let mut i: usize = 0;
    while i < chars.len()
        invariant
            i <= chars@.len(),
            chars@ == s@,
            forall|j: int| 0 <= j < i ==> chars@[j] != '\0',
        decreases chars@.len() - i,
    {
        if chars[i] == '\0' {
            return true;
        }
        i = i + 1;
    }
    false
}

fn mod_time(sec: i64, nsec: i64) -> (res: i64)
    ensures
        res == mod_time_of(sec, nsec),
{
    match sec.checked_mul(1_000_000_000) {
        Some(ns) => match ns.checked_add(nsec) {
            Some(t) => t,
            None => 0,
        },
        None => 0,
    }
}

fn names_only(path: &str) -> (res: bool)
    ensures
        res == all_names(path_parts(path@)),
{
    let parts = path_parts_of(path);
    let ghost pp = path_parts(path@);
    let mut i: usize = 0;
    while i < parts.len()
        invariant
            i <= parts@.len(),
            pp == Seq::new(parts@.len(), |j: int| parts@[j]@),
            pp == path_parts(path@),
            forall|j: int| 0 <= j < i ==> #[trigger] pp[j] != "/"@ && pp[j] != "."@ && pp[j] != ".."@,
        decreases parts@.len() - i,
    {
        if chars_are(&parts[i], "/") || chars_are(&parts[i], ".") || chars_are(&parts[i], "..") {
            assert(pp[i as int] == parts@[i as int]@);
            assert(!(pp[i as int] != "/"@ && pp[i as int] != "."@ && pp[i as int] != ".."@));
            assert(!all_names(pp));
            return false;
        }
        i = i + 1;
    }
    true
}

/// Why the entry at `relative` of the given kind cannot be announced, if it
/// cannot: the path must be a non-empty relative path of names no longer
/// than 4096 bytes; a symlink target must be non-empty, at most 4096 bytes
/// and free of NUL; a file must fit an `i64`; special files are refused.
pub open spec fn stat_refusal(relative: Seq<char>, kind: SourceKind) -> Option<(SyncCode, Seq<char>)> {
    if relative.len() == 0 || encode_utf8(relative).len() > MAX_SOURCE_PATH_LENGTH || !all_names(path_parts(relative)) {
        Some((SyncCode::InvalidArgument, "local source contains an invalid path"@))
    } else {
        match kind {
            SourceKind::Directory => None,
            SourceKind::Symlink(t) => if t@.len() == 0 || encode_utf8(t@).len() > MAX_SOURCE_PATH_LENGTH || t@.contains('\0') {
                Some((SyncCode::InvalidArgument, "local source contains an invalid symlink"@))
            } else {
                None
            },
            SourceKind::File(len) => if len > i64::MAX as u64 {
                Some((SyncCode::ResourceExhausted, "local source file is too large"@))
            } else {
                None
            },
            SourceKind::Special => Some((SyncCode::InvalidArgument,
                "local source contains an unsupported special file: "@ + crate::text::str_debug(relative))),
        }
    }
}

/// Extended attributes as names and values.
pub open spec fn xattr_views(x: Seq<(String, Vec<u8>)>) -> Seq<(Seq<char>, Seq<u8>)> {
    Seq::new(x.len(), |i: int| (x[i].0@, x[i].1@))
}

/// Whether `st` and `regular` are what is announced for the entry at
/// `relative` with `facts`, the hard-link index going from `before` to
/// `after`: a directory gets the directory bit, its permissions and its
/// extended attributes; a symlink the symlink bit, all permissions and its
/// target; a regular file its permissions, size and extended attributes,
/// and, when it has several hard links and one was announced before, that
/// one's path as its link name (else it is recorded).
pub open spec fn stat_made(
    st: SourceStat,
    regular: bool,
    relative: Seq<char>,
    facts: EntryFacts,
    before: Map<(u64, u64), Seq<char>>,
    after: Map<(u64, u64), Seq<char>>,
) -> bool {
    &&& st.path@ == relative
    &&& st.uid == facts.uid && st.gid == facts.gid
    &&& st.mod_time == mod_time_of(facts.mtime_sec, facts.mtime_nsec)
    &&& match facts.kind {
        SourceKind::Directory => st.mode == FILE_MODE_DIR | (facts.mode & 0o777u32) && st.size == 0
            && st.linkname@.len() == 0 && !regular && after == before
            && xattr_views(st.xattrs@) == xattr_views(facts.xattrs@),
        SourceKind::Symlink(t) => st.mode == FILE_MODE_SYMLINK | 0o777u32 && st.size == 0
            && st.linkname@ == t@ && !regular && after == before && st.xattrs@.len() == 0,
        SourceKind::File(len) => st.mode == facts.mode & 0o777u32 && st.size == len && regular
            && xattr_views(st.xattrs@) == xattr_views(facts.xattrs@)
            && if facts.nlink > 1 && before.contains_key((facts.dev, facts.ino)) {
                st.linkname@ == before[(facts.dev, facts.ino)] && after == before
            } else if facts.nlink > 1 {
                st.linkname@.len() == 0 && after == before.insert((facts.dev, facts.ino), relative)
            } else {
                st.linkname@.len() == 0 && after == before
            },
        SourceKind::Special => false,
    }
}

/// A copy of extended attributes.
fn copy_xattrs(x: &Vec<(String, Vec<u8>)>) -> (res: Vec<(String, Vec<u8>)>)
    ensures
        xattr_views(res@) == xattr_views(x@),
{
    let mut out: Vec<(String, Vec<u8>)> = Vec::new();
    let mut i: usize = 0;
    while i < x.len()
        invariant
            i <= x@.len(),
            xattr_views(out@) == xattr_views(x@).take(i as int),
        decreases x@.len() - i,
    {
        let mut value: Vec<u8> = Vec::new();
        let mut k: usize = 0;
        while k < x[i].1.len()
            invariant
                i < x@.len(),
                k <= x@[i as int].1@.len(),
                value@ == x@[i as int].1@.take(k as int),
            decreases x@[i as int].1@.len() - k,
        {
            value.push(x[i].1[k]);
            k = k + 1;
            assert(value@ =~= x@[i as int].1@.take(k as int));
        }
        assert(x@[i as int].1@.take(k as int) =~= x@[i as int].1@);
        let ghost before = xattr_views(out@);
        let name = owned(x[i].0.as_str());
        assert(name@ == x@[i as int].0@);
        out.push((name, value));
        assert(out@.last().0@ == x@[i as int].0@ && out@.last().1@ == x@[i as int].1@);
        assert(xattr_views(out@) =~= before.push(xattr_views(x@)[i as int]));
        assert(xattr_views(x@).take(i + 1) =~= xattr_views(x@).take(i as int).push(xattr_views(x@)[i as int]));
        i = i + 1;
    }
    assert(xattr_views(x@).take(x@.len() as int) =~= xattr_views(x@));
    out
}

/// The stat of a scanned entry at `relative` (with `/` separators), and
/// whether it is a regular file. The path must be a non-empty relative path
/// of names no longer than 4096 bytes. A directory gets the directory bit
/// and its permissions; a symlink the symlink bit, all permissions and its
/// target, which must be non-empty, at most 4096 bytes and free of NUL; a
/// regular file its permissions and size, and when it has several hard
/// links and one was sent before, the path of that one as its link name
/// (else it is recorded in `hardlinks`). Special files are refused.
pub fn source_stat(relative: &str, facts: &EntryFacts, hardlinks: &mut HardlinkIndex) -> (res: Result<(SourceStat, bool), SyncStatus>)
    ensures
        match res {
            Ok((st, regular)) => stat_refusal(relative@, facts.kind) is None
                && stat_made(st, regular, relative@, *facts, old(hardlinks)@, final(hardlinks)@),
            Err(e) => stat_refusal(relative@, facts.kind) == Some(e@) && final(hardlinks)@ == old(hardlinks)@,
        },
{
    if relative.is_empty() || relative.as_bytes().len() > MAX_SOURCE_PATH_LENGTH || !names_only(relative) {
        return Err(status(SyncCode::InvalidArgument, "local source contains an invalid path"));
    }
    let (mode, size, linkname, regular) = match &facts.kind {
        SourceKind::Directory => (FILE_MODE_DIR | (facts.mode & 0o777u32), 0i64, String::new(), false),
        SourceKind::Symlink(t) => {
            if t.as_str().is_empty() || t.as_str().as_bytes().len() > MAX_SOURCE_PATH_LENGTH || has_nul(t.as_str()) {
                return Err(status(SyncCode::InvalidArgument, "local source contains an invalid symlink"));
            }
            (FILE_MODE_SYMLINK | 0o777u32, 0i64, owned(t.as_str()), false)
        },
        SourceKind::File(len) => {
            if *len > 9223372036854775807u64 {
                return Err(status(SyncCode::ResourceExhausted, "local source file is too large"));
            }
            let size = *len as i64;
            let mut linkname = String::new();
            if facts.nlink > 1 {
                match hardlinks.lookup(facts.dev, facts.ino) {
                    Some(first) => {
                        linkname = first;
                    },
                    None => {
                        hardlinks.record(facts.dev, facts.ino, owned(relative));
                    },
                }
            }
            (facts.mode & 0o777u32, size, linkname, true)
        },
        SourceKind::Special => {
            let quoted = crate::text::debug_str(relative);
            return Err(status_with(SyncCode::InvalidArgument, "local source contains an unsupported special file: ", quoted.as_str()));
        },
    };
    let xattrs = match &facts.kind {
        SourceKind::Symlink(_) => Vec::new(),
        _ => copy_xattrs(&facts.xattrs),
    };
    Ok((
        SourceStat {
            path: owned(relative),
            mode,
            uid: facts.uid,
            gid: facts.gid,
            size,
            mod_time: mod_time(facts.mtime_sec, facts.mtime_nsec),
            linkname,
            xattrs,
        },
        regular,
    ))
}

} // verus!

verus! {

/// What `url::form_urlencoded::parse` gives first for the query `query`:
/// the name and value of its first non-empty `&`-separated piece, each
/// percent-decoded (with `+` as space).
pub uninterp spec fn form_first_pair(query: Seq<char>) -> Option<(Seq<char>, Seq<char>)>;

/// Calls `url::form_urlencoded::parse(query.as_bytes()).next()`. The claim
/// is that its outcome is fixed by the query, and that a query that is not
/// empty and does not start with `&` has a first piece.
#[verifier::external_body]
fn form_first(query: &str) -> (res: Option<(String, String)>)
    ensures
        match res {
            Some((n, v)) => form_first_pair(query@) == Some((n@, v@)),
            None => form_first_pair(query@) is None,
        },
        query@.len() > 0 && query@[0] != '&' ==> res is Some,
{
    url::form_urlencoded::parse(query.as_bytes()).next().map(|(n, v)| (n.into_owned(), v.into_owned()))
}

/// The metadata key of the local source's name.
pub const DIR_NAME_METADATA: &'static str = "dir-name";
/// The metadata key of the inclusion patterns.
pub const INCLUDE_PATTERNS_METADATA: &'static str = "include-patterns";
/// The metadata key of the exclusion patterns.
pub const EXCLUDE_PATTERNS_METADATA: &'static str = "exclude-patterns";
/// The metadata key of the followpaths.
pub const FOLLOW_PATHS_METADATA: &'static str = "followpaths";

/// One entry of a request's metadata, in order: its key and its value,
/// `None` when the value is not visible ASCII text.
#[derive(Debug)]
pub struct MetadataEntry {
    pub key: String,
    pub value: Option<String>,
}

/// The entries as key and value texts.
pub open spec fn metadata_view(entries: Seq<MetadataEntry>) -> Seq<(Seq<char>, Option<Seq<char>>)> {
    Seq::new(entries.len(), |i: int| (entries[i].key@, match entries[i].value {
        Some(v) => Some(v@),
        None => None,
    }))
}

/// The value of the first entry under `key`, if there is one.
pub open spec fn first_value(es: Seq<(Seq<char>, Option<Seq<char>>)>, key: Seq<char>) -> Option<Option<Seq<char>>>
    decreases es.len(),
{
    if es.len() == 0 {
        None
    } else if es[0].0 == key {
        Some(es[0].1)
    } else {
        first_value(es.skip(1), key)
    }
}

/// Whether a flag value reads as true: `1`, `true`, `TRUE`, `True`, `t` or
/// `T`.
pub open spec fn flag_set(v: Seq<char>) -> bool {
    v == "1"@ || v == "true"@ || v == "TRUE"@ || v == "True"@ || v == "t"@ || v == "T"@
}

/// Whether the values under `key` are form-encoded: the first value under
/// `<key>-encoded` reads as true.
pub open spec fn values_encoded(es: Seq<(Seq<char>, Option<Seq<char>>)>, key: Seq<char>) -> bool {
    match first_value(es, key + "-encoded"@) {
        Some(Some(v)) => flag_set(v),
        _ => false,
    }
}

/// A form-encoded value, decoded.
pub open spec fn form_value(v: Seq<char>) -> Seq<char> {
    match form_first_pair("value="@ + v) {
        Some((_, x)) => x,
        None => Seq::empty(),
    }
}

/// The values under `key`, in order and decoded when `encoded`; `None`
/// when one of them is not text.
pub open spec fn values_under(es: Seq<(Seq<char>, Option<Seq<char>>)>, key: Seq<char>, encoded: bool) -> Option<Seq<Seq<char>>>
    decreases es.len(),
{
    if es.len() == 0 {
        Some(Seq::empty())
    } else {
        match values_under(es.drop_last(), key, encoded) {
            None => None,
            Some(vs) => if es.last().0 != key {
                Some(vs)
            } else {
                match es.last().1 {
                    None => None,
                    Some(v) => Some(vs.push(if encoded { form_value(v) } else { v })),
                }
            },
        }
    }
}

/// The message for a value under `key` that is not text.
pub open spec fn invalid_metadata_text(key: Seq<char>) -> Seq<char> {
    "invalid "@ + key + " metadata"@
}

fn is_flag_set(v: &str) -> (res: bool)
    ensures
        res == flag_set(v@),
{
    crate::text::str_equal(v, "1") || crate::text::str_equal(v, "true") || crate::text::str_equal(v, "TRUE")
        || crate::text::str_equal(v, "True") || crate::text::str_equal(v, "t") || crate::text::str_equal(v, "T")
}

fn encoded_flag(entries: &[MetadataEntry], key: &str) -> (res: bool)
    ensures
        res == values_encoded(metadata_view(entries@), key@),
{
    let mut flag_key = owned(key);
    push_all(&mut flag_key, "-encoded");
    assert(flag_key@ == key@ + "-encoded"@);
    let ghost es = metadata_view(entries@);
    let mut i: usize = 0;
    assert(es.skip(0) =~= es);
    while i < entries.len()
        invariant
            i <= entries@.len(),
            es == metadata_view(entries@),
            flag_key@ == key@ + "-encoded"@,
            first_value(es.skip(i as int), flag_key@) == first_value(es, flag_key@),
        decreases entries@.len() - i,
    {
        assert(es.skip(i as int)[0] == es[i as int]);
        if crate::text::str_equal(entries[i].key.as_str(), flag_key.as_str()) {
            assert(first_value(es, flag_key@) == Some(es[i as int].1));
            return match &entries[i].value {
                Some(v) => {
                    assert(es[i as int].1 == Some(v@));
                    is_flag_set(v.as_str())
                },
                None => false,
            };
        }
        assert(es.skip(i as int).skip(1) =~= es.skip(i + 1));
        i = i + 1;
    }
    assert(es.skip(i as int).len() == 0);
    false
}

fn decode_form_value(v: &str) -> (res: String)
    ensures
        res@ == form_value(v@),
{
    let mut query = owned("value=");
    push_all(&mut query, v);
    proof {
        reveal_strlit("value=");
    }
    match form_first(query.as_str()) {
        Some((_, value)) => value,
        None => String::new(),
    }
}

/// The values stored under `key`, in order, form-decoded when
/// `<key>-encoded` says so; a value that is not text is refused.
pub fn metadata_values(entries: &[MetadataEntry], key: &str) -> (res: Result<Vec<String>, SyncStatus>)
    ensures
        match values_under(metadata_view(entries@), key@, values_encoded(metadata_view(entries@), key@)) {
            Some(vs) => res matches Ok(v) && Seq::new(v@.len(), |i: int| v@[i]@) == vs,
            None => res matches Err(e) && e@ == (SyncCode::InvalidArgument, invalid_metadata_text(key@)),
        },
{
    let encoded = encoded_flag(entries, key);
    let ghost es = metadata_view(entries@);
    let mut out: Vec<String> = Vec::new();
    let mut i: usize = 0;
    assert(es.take(0) =~= Seq::<(Seq<char>, Option<Seq<char>>)>::empty());
    while i < entries.len()
        invariant
            i <= entries@.len(),
            es == metadata_view(entries@),
            encoded == values_encoded(es, key@),
            values_under(es.take(i as int), key@, encoded) == Some(Seq::new(out@.len(), |j: int| out@[j]@)),
        decreases entries@.len() - i,
    {
        assert(es.take(i + 1).drop_last() =~= es.take(i as int));
        assert(es.take(i + 1).last() == es[i as int]);
        let ghost before = Seq::new(out@.len(), |j: int| out@[j]@);
        if crate::text::str_equal(entries[i].key.as_str(), key) {
            match &entries[i].value {
                None => {
                    let mut message = owned("invalid ");
                    push_all(&mut message, key);
                    push_all(&mut message, " metadata");
                    proof {
                        lemma_values_under_fails(es, key@, encoded, i as int + 1);
                    }
                    return Err(SyncStatus { code: SyncCode::InvalidArgument, message });
                },
                Some(v) => {
                    let item = if encoded { decode_form_value(v.as_str()) } else { owned(v.as_str()) };
                    out.push(item);
                    assert(Seq::new(out@.len(), |j: int| out@[j]@) =~= before.push(if encoded { form_value(v@) } else { v@ }));
                },
            }
        }
        i = i + 1;
    }
    assert(es.take(entries@.len() as int) =~= es);
    Ok(out)
}

/// Once the values fail on a prefix, they fail on every longer prefix.
proof fn lemma_values_under_fails(es: Seq<(Seq<char>, Option<Seq<char>>)>, key: Seq<char>, encoded: bool, n: int)
    requires
        0 <= n <= es.len(),
        values_under(es.take(n), key, encoded) is None,
    ensures
        values_under(es, key, encoded) is None,
    decreases es.len() - n,
{
    if n < es.len() {
        assert(es.take(n + 1).drop_last() =~= es.take(n));
        lemma_values_under_fails(es, key, encoded, n + 1);
    } else {
        assert(es.take(n) =~= es);
    }
}

/// The FileSync options of a request.
#[derive(Debug)]
pub struct FileSyncOptions {
    /// The name of the local source.
    pub dir_name: Option<String>,
    pub include_patterns: Vec<String>,
    pub exclude_patterns: Vec<String>,
    pub follow_paths: Vec<String>,
}

/// The texts of strings.
pub open spec fn text_seq(v: Seq<String>) -> Seq<Seq<char>> {
    Seq::new(v.len(), |i: int| v[i]@)
}

/// The values under a key of the options, as the metadata gives them.
pub open spec fn option_values(es: Seq<(Seq<char>, Option<Seq<char>>)>, key: Seq<char>) -> Option<Seq<Seq<char>>> {
    values_under(es, key, values_encoded(es, key))
}

/// The first key of the options, in the order `dir-name`,
/// `include-patterns`, `exclude-patterns`, `followpaths`, with a value that
/// is not text.
pub open spec fn options_failure(es: Seq<(Seq<char>, Option<Seq<char>>)>) -> Option<Seq<char>> {
    if option_values(es, "dir-name"@) is None {
        Some("dir-name"@)
    } else if option_values(es, "include-patterns"@) is None {
        Some("include-patterns"@)
    } else if option_values(es, "exclude-patterns"@) is None {
        Some("exclude-patterns"@)
    } else if option_values(es, "followpaths"@) is None {
        Some("followpaths"@)
    } else {
        None
    }
}

/// The options the metadata gives: the first value of `dir-name`, and
/// every value of `include-patterns`, `exclude-patterns` and `followpaths`;
/// the first key with a value that is not text is refused (see
/// `options_failure`).
pub fn parse_options(entries: &[MetadataEntry]) -> (res: Result<FileSyncOptions, SyncStatus>)
    ensures
        ({
            let es = metadata_view(entries@);
            match options_failure(es) {
                Some(k) => res matches Err(e) && e@ == (SyncCode::InvalidArgument, invalid_metadata_text(k)),
                None => res matches Ok(o)
                    && (match o.dir_name {
                        Some(n) => option_values(es, "dir-name"@)->Some_0.len() > 0 && n@ == option_values(es, "dir-name"@)->Some_0[0],
                        None => option_values(es, "dir-name"@)->Some_0.len() == 0,
                    })
                    && text_seq(o.include_patterns@) == option_values(es, "include-patterns"@)->Some_0
                    && text_seq(o.exclude_patterns@) == option_values(es, "exclude-patterns"@)->Some_0
                    && text_seq(o.follow_paths@) == option_values(es, "followpaths"@)->Some_0,
            }
        }),
{
    proof {
        reveal_strlit("dir-name");
        reveal_strlit("include-patterns");
        reveal_strlit("exclude-patterns");
        reveal_strlit("followpaths");
    }
    let names = metadata_values(entries, DIR_NAME_METADATA)?;
    let include_patterns = metadata_values(entries, INCLUDE_PATTERNS_METADATA)?;
    let exclude_patterns = metadata_values(entries, EXCLUDE_PATTERNS_METADATA)?;
    let follow_paths = metadata_values(entries, FOLLOW_PATHS_METADATA)?;
    let dir_name = if names.len() > 0 { Some(owned(names[0].as_str())) } else { None };
    Ok(FileSyncOptions { dir_name, include_patterns, exclude_patterns, follow_paths })
}

/// The name of the local source the request asks for; a request without
/// one is refused with `local source name is missing`.
pub fn mount_name(entries: &[MetadataEntry]) -> (res: Result<String, SyncStatus>)
    ensures
        ({
            let es = metadata_view(entries@);
            match options_failure(es) {
                Some(k) => res matches Err(e) && e@ == (SyncCode::InvalidArgument, invalid_metadata_text(k)),
                None => if option_values(es, "dir-name"@)->Some_0.len() > 0 {
                    res matches Ok(n) && n@ == option_values(es, "dir-name"@)->Some_0[0]
                } else {
                    res matches Err(e) && e@ == (SyncCode::NotFound, "local source name is missing"@)
                },
            }
        }),
{
    let options = parse_options(entries)?;
    match options.dir_name {
        Some(n) => Ok(n),
        None => Err(status(SyncCode::NotFound, "local source name is missing")),
    }
}

/// Visits the entry at `relative` that `Scanner::take_step` named, with
/// what the filesystem says of it (`names`: its entry names when it is a
/// directory). An entry the filters leave out is skipped, unless it is a
/// directory: that is entered, its stat waiting to be announced before the
/// first selected entry below it. A selected entry is announced (after the
/// waiting directories) and, when it is a directory, entered. Fails when
/// the entry's stat is refused (see `stat_refusal`) or the walk would pass
/// `MAX_ENTRIES` entries.
pub fn visit_entry(
    scanner: &mut Scanner<SourceStat>,
    relative: String,
    selected: bool,
    facts: &EntryFacts,
    hardlinks: &mut HardlinkIndex,
    names: Vec<String>,
) -> (res: Result<(), SyncStatus>)
    ensures
        final(scanner).selection_view() == old(scanner).selection_view(),
        !selected && !(facts.kind is Directory) ==> (res is Ok && final(scanner)@ == old(scanner)@
            && final(hardlinks)@ == old(hardlinks)@),
        (selected || facts.kind is Directory) ==> match stat_refusal(relative@, facts.kind) {
            Some(e) => res matches Err(s) && s@ == e && final(scanner)@ == old(scanner)@
                && final(hardlinks)@ == old(hardlinks)@,
            None => exists|st: SourceStat, regular: bool|
                #![trigger stat_made(st, regular, relative@, *facts, old(hardlinks)@, final(hardlinks)@)]
                stat_made(st, regular, relative@, *facts, old(hardlinks)@, final(hardlinks)@)
                && match visit_model(old(scanner)@, relative@, selected, st, regular,
                    if facts.kind is Directory { Some(name_views(names@)) } else { None }) {
                    Some(m) => res is Ok && final(scanner)@ == m,
                    None => res matches Err(s) && s@ == (SyncCode::ResourceExhausted, too_many_entries_text())
                        && final(scanner)@ == old(scanner)@,
                },
        },
{
    let is_dir = match facts.kind {
        SourceKind::Directory => true,
        _ => false,
    };
    if !selected && !is_dir {
        return Ok(());
    }
    let made = source_stat(relative.as_str(), facts, hardlinks);
    let (stat, regular) = match made {
        Ok(m) => m,
        Err(e) => {
            return Err(e);
        },
    };
    let ghost st = stat;
    if !selected {
        scanner.defer_directory(stat, regular, relative, names);
        assert(stat_made(st, regular, relative@, *facts, old(hardlinks)@, hardlinks@));
        return Ok(());
    }
    let path = owned(relative.as_str());
    let accepted_res = scanner.accept(stat, regular, path);
    if let Err(e) = accepted_res {
        assert(stat_made(st, regular, relative@, *facts, old(hardlinks)@, hardlinks@));
        return Err(e);
    }
    if is_dir {
        scanner.enter_directory(relative, names);
    }
    assert(stat_made(st, regular, relative@, *facts, old(hardlinks)@, hardlinks@));
    Ok(())
}

/// The local source registered under `name`; an unknown name is refused
/// with `no access allowed to dir "<name>"`. Names are compared exactly.
pub fn lookup_mount<'a, M>(mounts: &'a crate::strmap::StrMap<M>, name: &str) -> (res: Result<&'a M, SyncStatus>)
    ensures
        match res {
            Ok(m) => mounts@.contains_key(name@) && *m == mounts@[name@],
            Err(e) => !mounts@.contains_key(name@)
                && e@ == (SyncCode::NotFound, "no access allowed to dir "@ + crate::text::str_debug(name@)),
        },
{
    match mounts.get(name) {
        Some(m) => Ok(m),
        None => {
            let quoted = crate::text::debug_str(name);
            Err(status_with(SyncCode::NotFound, "no access allowed to dir ", quoted.as_str()))
        },
    }
}

} // verus!
