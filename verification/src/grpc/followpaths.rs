//! Resolution of FileSync followpaths: each followpath is walked component
//! by component from the mount root; a component with wildcards is matched
//! against the directory's entries in byte order, and a symlink met on the
//! way is recorded and followed to its target. The caller reads the
//! filesystem; the resolver decides what is looked at next and what is
//! recorded, and keeps the budgets.

use vstd::prelude::*;
use vstd::utf8::encode_utf8;
use crate::context::{join_path, join_path_text};
use crate::grpc::filesync::{link_target_parts, link_target_parts_of, SyncCode, SyncStatus, MAX_FOLLOW_PATH_LENGTH};
use crate::grpc::patternmatcher::{
    component_glob, component_matches, component_valid, contains_wildcard, glob_valid, has_wildcard, match_component,
};
use crate::grpc::scan::{name_views, sort_names, text_order, MAX_ENTRIES};
use crate::strmap::StrMap;
use crate::text::{debug_str, from_chars, owned, push_all, split_char, split_spec, str_debug, str_equal, to_chars};

verus! {

broadcast use vstd::string::group_string_axioms;

/// Most followpaths in one request.
pub const MAX_FOLLOW_PATHS: usize = 1024;
/// Deepest a followpath and its resolution may go.
pub const MAX_FOLLOW_DEPTH: usize = 256;
/// Most paths one resolution may record.
pub const MAX_FOLLOW_RESOLVED_PATHS: usize = 100000;
/// Most directory entries one resolution may look at.
pub const MAX_FOLLOW_INSPECTED_ENTRIES: usize = 100000;

/// What the caller found at a path it was asked to inspect.
#[derive(Debug, Clone, Copy, PartialEq, Eq, Structural)]
pub enum EntryKind {
    /// Nothing is there.
    Missing,
    /// A symbolic link.
    Symlink,
    /// A directory.
    Directory,
    /// Anything else.
    Other,
}

/// What the resolver needs next.
#[derive(Debug, Clone, PartialEq, Eq)]
pub enum FollowStep {
    /// Nothing: step again.
    Continue,
    /// The entry names of the directory at this path (the root when
    /// empty), answered with `listed`.
    List(String),
    /// What is at this path, answered with `inspected`.
    Inspect(String),
    /// The target of the symlink at this path, answered with `link_read`.
    ReadLink(String),
    /// Resolution is over; these are the resolved followpaths.
    Done(Vec<String>),
}

/// A piece of work of a resolution, in the model.
pub enum TaskView {
    /// Walk the remaining `components` from the directory `current`.
    Walk { current: Seq<char>, components: Seq<Seq<char>>, depth: nat },
    /// Visit, in order, the entries of `current` among `names` that match
    /// the component pattern `pattern`, each followed by the `rest` of the
    /// components.
    Scan { current: Seq<char>, names: Seq<Seq<char>>, pattern: Seq<char>, rest: Seq<Seq<char>>, depth: nat },
    /// Look at the entry `name` of `current`.
    Visit { current: Seq<char>, name: Seq<char>, rest: Seq<Seq<char>>, depth: nat },
    /// Follow the symlink at `path`.
    Link { path: Seq<char>, rest: Seq<Seq<char>>, depth: nat },
}

/// The answer a resolution waits for, in the model.
pub enum AwaitView {
    Nothing,
    Listing { current: Seq<char>, pattern: Seq<char>, rest: Seq<Seq<char>>, depth: nat },
    Entry { path: Seq<char>, rest: Seq<Seq<char>>, depth: nat },
    LinkTarget { path: Seq<char>, rest: Seq<Seq<char>>, depth: nat },
}

/// The state of a resolution, in the model.
pub struct FollowModel {
    /// The followpaths not started yet.
    pub paths: Seq<Seq<char>>,
    /// The work of the current followpath, innermost last.
    pub tasks: Seq<TaskView>,
    /// The symlinks already followed.
    pub visited: Set<Seq<char>>,
    /// The paths recorded so far.
    pub resolved: Seq<Seq<char>>,
    /// The entries looked at so far.
    pub inspected: nat,
    /// The paths recorded under the budget so far.
    pub resolved_count: nat,
    /// The answer awaited.
    pub awaiting: AwaitView,
}

/// What a step asks for, in the model.
pub enum StepView {
    Continue,
    List(Seq<char>),
    Inspect(Seq<char>),
    ReadLink(Seq<char>),
    Done(Seq<Seq<char>>),
}

/// A failure, by code and message.
pub open spec fn failure(code: SyncCode, message: Seq<char>) -> (SyncCode, Seq<char>) {
    (code, message)
}

/// Whether a path is too long to be a followpath.
pub open spec fn too_long(p: Seq<char>) -> bool {
    encode_utf8(p).len() > MAX_FOLLOW_PATH_LENGTH
}

/// Whether `p` lies strictly below `parent`.
pub open spec fn strictly_below(p: Seq<char>, parent: Seq<char>) -> bool {
    p.len() > parent.len() && p.take(parent.len() as int) == parent && p[parent.len() as int] == '/'
}

/// `s` without runs of equal neighbours (each run keeps one element).
pub open spec fn dedup(s: Seq<Seq<char>>) -> Seq<Seq<char>>
    decreases s.len(),
{
    if s.len() == 0 {
        s
    } else {
        let d = dedup(s.drop_last());
        if d.len() > 0 && d.last() == s.last() { d } else { d.push(s.last()) }
    }
}

/// `s` without the paths that lie below the path kept just before them.
pub open spec fn prune_below(s: Seq<Seq<char>>) -> Seq<Seq<char>>
    decreases s.len(),
{
    if s.len() == 0 {
        s
    } else {
        let k = prune_below(s.drop_last());
        if k.len() > 0 && strictly_below(s.last(), k.last()) { k } else { k.push(s.last()) }
    }
}

/// The resolved followpaths handed out: sorted in byte order, without
/// repeats, and without a path below the path kept just before it.
pub open spec fn resolved_patterns(resolved: Seq<Seq<char>>) -> Seq<Seq<char>> {
    prune_below(dedup(resolved.sort_by(text_order())))
}

/// The index of the first of `names` matching the component pattern
/// `pattern`, from `i` on.
pub open spec fn first_match(pattern: Seq<char>, names: Seq<Seq<char>>, i: int) -> Option<int>
    decreases names.len() - i,
{
    if i < 0 || i >= names.len() {
        None
    } else if component_matches(pattern, names[i]) {
        Some(i)
    } else {
        first_match(pattern, names, i + 1)
    }
}

/// The names among directory entries, without those that are not text.
pub open spec fn text_names(entries: Seq<Option<String>>) -> Seq<Seq<char>>
    decreases entries.len(),
{
    if entries.len() == 0 {
        Seq::empty()
    } else {
        let init = text_names(entries.drop_last());
        match entries.last() {
            Some(n) => init.push(n@),
            None => init,
        }
    }
}

/// The names among the components of a resolved link target.
pub open spec fn plain_names(parts: Seq<Seq<char>>) -> Seq<Seq<char>>
    decreases parts.len(),
{
    if parts.len() == 0 {
        parts
    } else {
        let init = plain_names(parts.drop_last());
        if parts.last() == "."@ || parts.last() == "/"@ { init } else { init.push(parts.last()) }
    }
}

/// Records `p` under the budget.
pub open spec fn record(m: FollowModel, p: Seq<char>) -> Result<FollowModel, (SyncCode, Seq<char>)> {
    if m.resolved_count >= MAX_FOLLOW_RESOLVED_PATHS {
        Err(failure(SyncCode::ResourceExhausted, "FileSync followpaths resolved too many paths"@))
    } else if too_long(p) {
        Err(failure(SyncCode::InvalidArgument, "invalid FileSync followpaths path"@))
    } else {
        Ok(FollowModel { resolved: m.resolved.push(p), resolved_count: m.resolved_count + 1, ..m })
    }
}

/// One step of a resolution: the awaited question is asked again; without
/// one, the next followpath is started when no work is left (a followpath
/// `.` ends the resolution with `.` alone), and otherwise the innermost
/// piece of work is done.
pub open spec fn step_spec(m: FollowModel) -> Result<(FollowModel, StepView), (SyncCode, Seq<char>)> {
    match m.awaiting {
        AwaitView::Listing { current, .. } => Ok((m, StepView::List(current))),
        AwaitView::Entry { path, .. } => Ok((m, StepView::Inspect(path))),
        AwaitView::LinkTarget { path, .. } => Ok((m, StepView::ReadLink(path))),
        AwaitView::Nothing => if m.tasks.len() == 0 {
            if m.paths.len() == 0 {
                Ok((m, StepView::Done(resolved_patterns(m.resolved))))
            } else {
                let p = m.paths[0];
                if p == "."@ {
                    Ok((FollowModel { paths: Seq::empty(), resolved: seq!["."@], ..m }, StepView::Done(seq!["."@])))
                } else {
                    match record(m, p) {
                        Err(e) => Err(e),
                        Ok(r) => if split_spec(p, '/').len() > MAX_FOLLOW_DEPTH {
                            Err(failure(SyncCode::ResourceExhausted, "FileSync followpaths path is too deep"@))
                        } else {
                            Ok((FollowModel {
                                paths: m.paths.skip(1),
                                tasks: seq![TaskView::Walk { current: Seq::empty(), components: split_spec(p, '/'), depth: 0 }],
                                ..r
                            }, StepView::Continue))
                        },
                    }
                }
            }
        } else {
            let rest_tasks = m.tasks.drop_last();
            match m.tasks.last() {
                TaskView::Walk { current, components, depth } => if depth > MAX_FOLLOW_DEPTH {
                    Err(failure(SyncCode::ResourceExhausted, "FileSync followpaths resolution is too deep"@))
                } else if components.len() == 0 {
                    if current.len() == 0 {
                        Ok((FollowModel { tasks: rest_tasks, ..m }, StepView::Continue))
                    } else {
                        match record(m, current) {
                            Err(e) => Err(e),
                            Ok(r) => Ok((FollowModel { tasks: rest_tasks, ..r }, StepView::Continue)),
                        }
                    }
                } else {
                    let c = components[0];
                    if has_wildcard(c) {
                        if !glob_valid(component_glob(c)) {
                            Err(failure(SyncCode::InvalidArgument, "invalid FileSync followpath pattern: "@ + str_debug(c)))
                        } else {
                            Ok((FollowModel {
                                tasks: rest_tasks,
                                awaiting: AwaitView::Listing { current, pattern: c, rest: components.skip(1), depth },
                                ..m
                            }, StepView::List(current)))
                        }
                    } else if m.inspected >= MAX_FOLLOW_INSPECTED_ENTRIES {
                        Err(failure(SyncCode::ResourceExhausted, "FileSync followpaths inspected too many entries"@))
                    } else {
                        Ok((FollowModel {
                            tasks: rest_tasks.push(TaskView::Visit { current, name: c, rest: components.skip(1), depth: depth + 1 }),
                            inspected: m.inspected + 1,
                            ..m
                        }, StepView::Continue))
                    }
                },
                TaskView::Scan { current, names, pattern, rest, depth } => match first_match(pattern, names, 0) {
                    None => Ok((FollowModel { tasks: rest_tasks, ..m }, StepView::Continue)),
                    Some(i) => Ok((FollowModel {
                        tasks: rest_tasks
                            .push(TaskView::Scan { current, names: names.skip(i + 1), pattern, rest, depth })
                            .push(TaskView::Visit { current, name: names[i], rest, depth: depth + 1 }),
                        ..m
                    }, StepView::Continue)),
                },
                TaskView::Visit { current, name, rest, depth } => Ok((FollowModel {
                    tasks: rest_tasks,
                    awaiting: AwaitView::Entry { path: join_path(current, name), rest, depth },
                    ..m
                }, StepView::Inspect(join_path(current, name)))),
                TaskView::Link { path, rest, depth } => Ok((FollowModel {
                    tasks: rest_tasks,
                    awaiting: AwaitView::LinkTarget { path, rest, depth },
                    ..m
                }, StepView::ReadLink(path))),
            }
        },
    }
}

/// The answer to a listing: nothing when no listing was asked for; a
/// missing directory matches nothing; otherwise each entry counts against
/// the budget and the text names, in byte order, are matched next.
pub open spec fn listed_spec(m: FollowModel, entries: Option<Seq<Option<String>>>) -> Result<FollowModel, (SyncCode, Seq<char>)> {
    match m.awaiting {
        AwaitView::Listing { current, pattern, rest, depth } => match entries {
            None => Ok(FollowModel { awaiting: AwaitView::Nothing, ..m }),
            Some(es) => if m.inspected + es.len() > MAX_FOLLOW_INSPECTED_ENTRIES {
                Err(failure(SyncCode::ResourceExhausted, "FileSync followpaths inspected too many entries"@))
            } else {
                Ok(FollowModel {
                    awaiting: AwaitView::Nothing,
                    inspected: m.inspected + es.len(),
                    tasks: m.tasks.push(TaskView::Scan {
                        current,
                        names: text_names(es).sort_by(text_order()),
                        pattern,
                        rest,
                        depth,
                    }),
                    ..m
                })
            },
        },
        _ => Ok(m),
    }
}

/// The answer to an inspection: nothing when none was asked for; a missing
/// entry ends its walk; a symlink seen before is skipped, a new one is
/// recorded and followed; a directory is walked further, or recorded when
/// no component is left; anything else is recorded when no component is
/// left.
pub open spec fn inspected_spec(m: FollowModel, kind: EntryKind) -> Result<FollowModel, (SyncCode, Seq<char>)> {
    match m.awaiting {
        AwaitView::Entry { path, rest, depth } => {
            let idle = FollowModel { awaiting: AwaitView::Nothing, ..m };
            if kind == EntryKind::Missing {
                Ok(idle)
            } else if too_long(path) {
                Err(failure(SyncCode::InvalidArgument, "invalid FileSync followpaths path"@))
            } else if kind == EntryKind::Symlink {
                if m.visited.contains(path) {
                    Ok(idle)
                } else {
                    match record(idle, path) {
                        Err(e) => Err(e),
                        Ok(r) => Ok(FollowModel {
                            visited: m.visited.insert(path),
                            tasks: m.tasks.push(TaskView::Link { path, rest, depth }),
                            ..r
                        }),
                    }
                }
            } else if rest.len() == 0 {
                record(idle, path)
            } else if kind == EntryKind::Directory {
                Ok(FollowModel { tasks: m.tasks.push(TaskView::Walk { current: path, components: rest, depth }), ..idle })
            } else {
                Ok(idle)
            }
        },
        _ => Ok(m),
    }
}

/// The answer to a link read: nothing when none was asked for; a target
/// that is the mount root records `.`; any other target is walked from the
/// root, followed by the components left.
pub open spec fn link_read_spec(m: FollowModel, link: Seq<char>) -> FollowModel {
    match m.awaiting {
        AwaitView::LinkTarget { path, rest, depth } => {
            let parts = link_target_parts(path, link);
            if parts.len() == 0 {
                FollowModel { awaiting: AwaitView::Nothing, resolved: m.resolved.push("."@), ..m }
            } else {
                FollowModel {
                    awaiting: AwaitView::Nothing,
                    tasks: m.tasks.push(TaskView::Walk {
                        current: Seq::empty(),
                        components: plain_names(parts) + rest,
                        depth: depth + 1,
                    }),
                    ..m
                }
            }
        },
        _ => m,
    }
}

/// Whether the budgets of a resolution hold.
pub open spec fn within_budgets(m: FollowModel) -> bool {
    m.inspected <= MAX_FOLLOW_INSPECTED_ENTRIES && m.resolved_count <= MAX_FOLLOW_RESOLVED_PATHS
}

/// The budgets hold in every state a resolution reaches: no step or answer
/// takes the count of inspected entries or of recorded paths past its
/// limit.
pub proof fn law_budgets_hold(m: FollowModel, entries: Option<Seq<Option<String>>>, kind: EntryKind, link: Seq<char>)
    requires
        within_budgets(m),
    ensures
        step_spec(m) matches Ok((n, _)) ==> within_budgets(n),
        listed_spec(m, entries) matches Ok(n) ==> within_budgets(n),
        inspected_spec(m, kind) matches Ok(n) ==> within_budgets(n),
        within_budgets(link_read_spec(m, link)),
{
}

/// The resolved followpaths handed out are in strictly increasing byte
/// order.
pub proof fn law_patterns_strictly_sorted(resolved: Seq<Seq<char>>)
    ensures
        forall|i: int, j: int| 0 <= i < j < resolved_patterns(resolved).len()
            ==> text_order()(#[trigger] resolved_patterns(resolved)[i], #[trigger] resolved_patterns(resolved)[j])
                && resolved_patterns(resolved)[i] != resolved_patterns(resolved)[j],
{
    crate::grpc::scan::lemma_text_order_total();
    let s = resolved.sort_by(text_order());
    resolved.lemma_sort_by_ensures(text_order());
    lemma_dedup_sorted(s);
    lemma_prune_keeps_order(dedup(s));
}

/// Removing equal neighbours from a sorted sequence leaves it strictly
/// sorted, with elements taken from it.
proof fn lemma_dedup_sorted(s: Seq<Seq<char>>)
    requires
        vstd::relations::sorted_by(s, text_order()),
    ensures
        forall|i: int, j: int| 0 <= i < j < dedup(s).len() ==> text_order()(#[trigger] dedup(s)[i], #[trigger] dedup(s)[j]) && dedup(s)[i] != dedup(s)[j],
        dedup(s).len() > 0 ==> dedup(s).last() == s.last(),
        dedup(s).len() <= s.len(),
        s.len() > 0 ==> dedup(s).len() > 0,
    decreases s.len(),
{
    if s.len() > 0 {
        let init = s.drop_last();
        assert(vstd::relations::sorted_by(init, text_order()));
        lemma_dedup_sorted(init);
        let d = dedup(init);
        if d.len() > 0 && d.last() == s.last() {
        } else {
            let n = d.push(s.last());
            assert forall|i: int, j: int| 0 <= i < j < n.len() implies text_order()(n[i], n[j]) && n[i] != n[j] by {
                if j == n.len() - 1 {
                    crate::grpc::scan::lemma_text_order_total();
                    if d.len() > 0 {
                        assert(d.last() == init.last());
                        assert(text_order()(init.last(), s.last()));
                        if i < d.len() - 1 {
                            assert(text_order()(d[i], d.last()));
                            crate::grpc::scan::lemma_text_le_transitive(d[i], d.last(), s.last());
                            if d[i] == s.last() {
                                crate::grpc::scan::lemma_text_le_antisymmetric(d[i], d.last());
                            }
                        }
                    }
                } else {
                    assert(n[i] == d[i] && n[j] == d[j]);
                }
            }
        }
    }
}

/// Pruning keeps a strictly sorted sequence strictly sorted.
proof fn lemma_prune_keeps_order(s: Seq<Seq<char>>)
    requires
        forall|i: int, j: int| 0 <= i < j < s.len() ==> text_order()(#[trigger] s[i], #[trigger] s[j]) && s[i] != s[j],
    ensures
        forall|i: int, j: int| 0 <= i < j < prune_below(s).len() ==> text_order()(#[trigger] prune_below(s)[i], #[trigger] prune_below(s)[j]) && prune_below(s)[i] != prune_below(s)[j],
        forall|i: int| 0 <= i < prune_below(s).len() ==> s.contains(#[trigger] prune_below(s)[i]),
    decreases s.len(),
{
    if s.len() > 0 {
        let init = s.drop_last();
        lemma_prune_keeps_order(init);
        let k = prune_below(init);
        assert forall|i: int| 0 <= i < k.len() implies s.contains(#[trigger] k[i]) by {
            let w = choose|w: int| 0 <= w < init.len() && init[w] == k[i];
            assert(s[w] == k[i]);
        }
        if k.len() > 0 && strictly_below(s.last(), k.last()) {
        } else {
            let n = k.push(s.last());
            assert forall|i: int, j: int| 0 <= i < j < n.len() implies text_order()(n[i], n[j]) && n[i] != n[j] by {
                if j == n.len() - 1 {
                    let w = choose|w: int| 0 <= w < init.len() && init[w] == k[i];
                    assert(s[w] == n[i]);
                    assert(text_order()(s[w], s[s.len() - 1]) && s[w] != s[s.len() - 1]);
                } else {
                    assert(n[i] == k[i] && n[j] == k[j]);
                }
            }
            assert forall|i: int| 0 <= i < n.len() implies s.contains(#[trigger] n[i]) by {
                if i == n.len() - 1 {
                    assert(s[s.len() - 1] == n[i]);
                } else {
                    assert(n[i] == k[i]);
                }
            }
        }
    }
}


enum Task {
    Walk { current: String, components: Vec<String>, depth: usize },
    Scan { current: String, names: Vec<String>, pattern: String, rest: Vec<String>, depth: usize },
    Visit { current: String, name: String, rest: Vec<String>, depth: usize },
    Link { path: String, rest: Vec<String>, depth: usize },
}

enum Waiting {
    Nothing,
    Listing { current: String, pattern: String, rest: Vec<String>, depth: usize },
    Entry { path: String, rest: Vec<String>, depth: usize },
    LinkTarget { path: String, rest: Vec<String>, depth: usize },
}

spec fn task_view(t: Task) -> TaskView {
    match t {
        Task::Walk { current, components, depth } => TaskView::Walk {
            current: current@,
            components: name_views(components@),
            depth: depth as nat,
        },
        Task::Scan { current, names, pattern, rest, depth } => TaskView::Scan {
            current: current@,
            names: name_views(names@),
            pattern: pattern@,
            rest: name_views(rest@),
            depth: depth as nat,
        },
        Task::Visit { current, name, rest, depth } => TaskView::Visit {
            current: current@,
            name: name@,
            rest: name_views(rest@),
            depth: depth as nat,
        },
        Task::Link { path, rest, depth } => TaskView::Link { path: path@, rest: name_views(rest@), depth: depth as nat },
    }
}

spec fn await_view(w: Waiting) -> AwaitView {
    match w {
        Waiting::Nothing => AwaitView::Nothing,
        Waiting::Listing { current, pattern, rest, depth } => AwaitView::Listing {
            current: current@,
            pattern: pattern@,
            rest: name_views(rest@),
            depth: depth as nat,
        },
        Waiting::Entry { path, rest, depth } => AwaitView::Entry { path: path@, rest: name_views(rest@), depth: depth as nat },
        Waiting::LinkTarget { path, rest, depth } => AwaitView::LinkTarget {
            path: path@,
            rest: name_views(rest@),
            depth: depth as nat,
        },
    }
}

spec fn task_depth_ok(t: Task) -> bool {
    match t {
        Task::Walk { depth, .. } => depth <= MAX_FOLLOW_DEPTH + 2,
        Task::Scan { depth, pattern, .. } => depth <= MAX_FOLLOW_DEPTH && glob_valid(component_glob(pattern@)),
        Task::Visit { depth, .. } => depth <= MAX_FOLLOW_DEPTH + 1,
        Task::Link { depth, .. } => depth <= MAX_FOLLOW_DEPTH + 1,
    }
}

spec fn await_depth_ok(w: Waiting) -> bool {
    match w {
        Waiting::Nothing => true,
        Waiting::Listing { depth, pattern, .. } => depth <= MAX_FOLLOW_DEPTH && glob_valid(component_glob(pattern@)),
        Waiting::Entry { depth, .. } => depth <= MAX_FOLLOW_DEPTH + 1,
        Waiting::LinkTarget { depth, .. } => depth <= MAX_FOLLOW_DEPTH + 1,
    }
}

/// What a step asks for, in the model.
pub open spec fn step_view(s: FollowStep) -> StepView {
    match s {
        FollowStep::Continue => StepView::Continue,
        FollowStep::List(p) => StepView::List(p@),
        FollowStep::Inspect(p) => StepView::Inspect(p@),
        FollowStep::ReadLink(p) => StepView::ReadLink(p@),
        FollowStep::Done(v) => StepView::Done(name_views(v@)),
    }
}

/// The resolution of the followpaths of a FileSync request (see the
/// module's description).
pub struct FollowResolver {
    paths: Vec<String>,
    next_path: usize,
    tasks: Vec<Task>,
    visited: StrMap<()>,
    resolved: Vec<String>,
    inspected: usize,
    resolved_count: usize,
    awaiting: Waiting,
}

fn fail(code: SyncCode, message: &str) -> (res: SyncStatus)
    ensures
        res@ == (code, message@),
{
    SyncStatus { code, message: owned(message) }
}

fn copy_names(v: &Vec<String>, from: usize) -> (res: Vec<String>)
    requires
        from <= v@.len(),
    ensures
        name_views(res@) == name_views(v@).skip(from as int),
{
    let mut out: Vec<String> = Vec::new();
    let mut i: usize = from;
    assert(name_views(out@) =~= name_views(v@).subrange(from as int, from as int));
    while i < v.len()
        invariant
            from <= i <= v@.len(),
            name_views(out@) == name_views(v@).subrange(from as int, i as int),
        decreases v@.len() - i,
    {
        let ghost before = name_views(out@);
        let item = owned(v[i].as_str());
        out.push(item);
        assert(name_views(out@) =~= before.push(v@[i as int]@));
        assert(name_views(out@) =~= name_views(v@).subrange(from as int, i + 1));
        i = i + 1;
    }
    assert(name_views(v@).subrange(from as int, v@.len() as int) =~= name_views(v@).skip(from as int));
    out
}

fn append_names(a: Vec<String>, b: &Vec<String>) -> (res: Vec<String>)
    ensures
        name_views(res@) == name_views(a@) + name_views(b@),
{
    let mut out = a;
    let ghost start = name_views(out@);
    let mut i: usize = 0;
    assert(start + name_views(b@).take(0) =~= start);
    while i < b.len()
        invariant
            i <= b@.len(),
            name_views(out@) == start + name_views(b@).take(i as int),
        decreases b@.len() - i,
    {
        let ghost before = name_views(out@);
        let item = owned(b[i].as_str());
        out.push(item);
        assert(name_views(out@) =~= before.push(b@[i as int]@));
        assert(name_views(out@) =~= start + name_views(b@).take(i + 1));
        i = i + 1;
    }
    assert(name_views(b@).take(b@.len() as int) =~= name_views(b@));
    out
}

fn split_components(p: &str) -> (res: Vec<String>)
    ensures
        name_views(res@) == split_spec(p@, '/'),
{
    let chars = to_chars(p);
    let pieces = split_char(chars.as_slice(), '/');
    let mut out: Vec<String> = Vec::new();
    let mut i: usize = 0;
    while i < pieces.len()
        invariant
            i <= pieces@.len(),
            pieces@.len() == split_spec(p@, '/').len(),
            forall|k: int| 0 <= k < pieces@.len() ==> #[trigger] pieces@[k]@ == split_spec(p@, '/')[k],
            name_views(out@) == split_spec(p@, '/').take(i as int),
        decreases pieces@.len() - i,
    {
        let ghost before = name_views(out@);
        let item = from_chars(pieces[i].as_slice());
        out.push(item);
        assert(name_views(out@) =~= before.push(pieces@[i as int]@));
        assert(name_views(out@) =~= split_spec(p@, '/').take(i + 1));
        i = i + 1;
    }
    assert(split_spec(p@, '/').take(pieces@.len() as int) =~= split_spec(p@, '/'));
    out
}

fn is_too_long(p: &str) -> (res: bool)
    ensures
        res == too_long(p@),
{
    p.as_bytes().len() > MAX_FOLLOW_PATH_LENGTH
}

fn record_check(count: usize, p: &str) -> (res: Result<(), SyncStatus>)
    ensures
        count >= MAX_FOLLOW_RESOLVED_PATHS ==> (res matches Err(e)
            && e@ == (SyncCode::ResourceExhausted, "FileSync followpaths resolved too many paths"@)),
        count < MAX_FOLLOW_RESOLVED_PATHS && too_long(p@) ==> (res matches Err(e)
            && e@ == (SyncCode::InvalidArgument, "invalid FileSync followpaths path"@)),
        count < MAX_FOLLOW_RESOLVED_PATHS && !too_long(p@) ==> res is Ok,
{
    if count >= MAX_FOLLOW_RESOLVED_PATHS {
        Err(fail(SyncCode::ResourceExhausted, "FileSync followpaths resolved too many paths"))
    } else if is_too_long(p) {
        Err(fail(SyncCode::InvalidArgument, "invalid FileSync followpaths path"))
    } else {
        Ok(())
    }
}

fn sorted_text_names(entries: Vec<Option<String>>) -> (res: Vec<String>)
    ensures
        name_views(res@) == text_names(entries@).sort_by(text_order()),
{
    let mut names: Vec<String> = Vec::new();
    let mut i: usize = 0;
    assert(entries@.take(0) =~= Seq::<Option<String>>::empty());
    while i < entries.len()
        invariant
            i <= entries@.len(),
            name_views(names@) == text_names(entries@.take(i as int)),
        decreases entries@.len() - i,
    {
        assert(entries@.take(i + 1).drop_last() =~= entries@.take(i as int));
        match &entries[i] {
            Some(n) => {
                let ghost before = name_views(names@);
                names.push(owned(n.as_str()));
                assert(name_views(names@) =~= before.push(n@));
            },
            None => {},
        }
        i = i + 1;
    }
    assert(entries@.take(entries@.len() as int) =~= entries@);
    sort_names(names)
}

fn plain_names_of(parts: &Vec<Vec<char>>) -> (res: Vec<String>)
    ensures
        name_views(res@) == plain_names(Seq::new(parts@.len(), |j: int| parts@[j]@)),
{
    let ghost all = Seq::new(parts@.len(), |j: int| parts@[j]@);
    let mut out: Vec<String> = Vec::new();
    let mut i: usize = 0;
    assert(all.take(0) =~= Seq::<Seq<char>>::empty());
    while i < parts.len()
        invariant
            i <= parts@.len(),
            all == Seq::new(parts@.len(), |j: int| parts@[j]@),
            name_views(out@) == plain_names(all.take(i as int)),
        decreases parts@.len() - i,
    {
        assert(all.take(i + 1).drop_last() =~= all.take(i as int));
        assert(all.take(i + 1).last() == parts@[i as int]@);
        let piece = from_chars(parts[i].as_slice());
        if !(str_equal(piece.as_str(), ".") || str_equal(piece.as_str(), "/")) {
            let ghost before = name_views(out@);
            out.push(piece);
            assert(name_views(out@) =~= before.push(parts@[i as int]@));
        }
        i = i + 1;
    }
    assert(all.take(parts@.len() as int) =~= all);
    out
}

fn is_strictly_below(p: &str, parent: &str) -> (res: bool)
    ensures
        res == strictly_below(p@, parent@),
{
    let pc = to_chars(p);
    let qc = to_chars(parent);
    if pc.len() <= qc.len() {
        return false;
    }
    let mut i: usize = 0;
    while i < qc.len()
        invariant
            i <= qc@.len() < pc@.len(),
            pc@ == p@,
            qc@ == parent@,
            forall|k: int| 0 <= k < i ==> pc@[k] == qc@[k],
        decreases qc@.len() - i,
    {
        if pc[i] != qc[i] {
            assert(pc@.take(qc@.len() as int)[i as int] != qc@[i as int]);
            return false;
        }
        i = i + 1;
    }
    assert(pc@.take(qc@.len() as int) =~= qc@);
    pc[qc.len()] == '/'
}

fn resolved_patterns_of(resolved: &Vec<String>) -> (res: Vec<String>)
    ensures
        name_views(res@) == resolved_patterns(name_views(resolved@)),
{
    let sorted = sort_names(copy_names(resolved, 0));
    let ghost s = name_views(sorted@);
    assert(name_views(resolved@).skip(0) =~= name_views(resolved@));
    let mut deduped: Vec<String> = Vec::new();
    let mut i: usize = 0;
    assert(s.take(0) =~= Seq::<Seq<char>>::empty());
    while i < sorted.len()
        invariant
            i <= sorted@.len(),
            s == name_views(sorted@),
            name_views(deduped@) == dedup(s.take(i as int)),
        decreases sorted@.len() - i,
    {
        assert(s.take(i + 1).drop_last() =~= s.take(i as int));
        let ghost before = name_views(deduped@);
        if deduped.len() > 0 && str_equal(deduped[deduped.len() - 1].as_str(), sorted[i].as_str()) {
        } else {
            deduped.push(owned(sorted[i].as_str()));
            assert(name_views(deduped@) =~= before.push(s[i as int]));
        }
        i = i + 1;
    }
    assert(s.take(sorted@.len() as int) =~= s);
    let ghost d = name_views(deduped@);
    let mut kept: Vec<String> = Vec::new();
    let mut j: usize = 0;
    assert(d.take(0) =~= Seq::<Seq<char>>::empty());
    while j < deduped.len()
        invariant
            j <= deduped@.len(),
            d == name_views(deduped@),
            name_views(kept@) == prune_below(d.take(j as int)),
        decreases deduped@.len() - j,
    {
        assert(d.take(j + 1).drop_last() =~= d.take(j as int));
        let ghost before = name_views(kept@);
        if kept.len() > 0 && is_strictly_below(deduped[j].as_str(), kept[kept.len() - 1].as_str()) {
        } else {
            kept.push(owned(deduped[j].as_str()));
            assert(name_views(kept@) =~= before.push(d[j as int]));
        }
        j = j + 1;
    }
    assert(d.take(deduped@.len() as int) =~= d);
    kept
}

fn first_match_index(pattern: &str, names: &Vec<String>) -> (res: Option<usize>)
    requires
        glob_valid(component_glob(pattern@)),
    ensures
        match res {
            Some(i) => i < names@.len() && first_match(pattern@, name_views(names@), 0) == Some(i as int),
            None => first_match(pattern@, name_views(names@), 0) is None,
        },
{
    let mut i: usize = 0;
    while i < names.len()
        invariant
            i <= names@.len(),
            glob_valid(component_glob(pattern@)),
            first_match(pattern@, name_views(names@), 0) == first_match(pattern@, name_views(names@), i as int),
        decreases names@.len() - i,
    {
        if match_component(pattern, names[i].as_str()) {
            return Some(i);
        }
        i = i + 1;
    }
    None
}

impl FollowResolver {
    /// The state of the resolution.
    pub closed spec fn view(&self) -> FollowModel {
        FollowModel {
            paths: name_views(self.paths@).skip(self.next_path as int),
            tasks: Seq::new(self.tasks@.len(), |i: int| task_view(self.tasks@[i])),
            visited: self.visited@.dom(),
            resolved: name_views(self.resolved@),
            inspected: self.inspected as nat,
            resolved_count: self.resolved_count as nat,
            awaiting: await_view(self.awaiting),
        }
    }

    /// The resolver's well-formedness: the budgets hold and no depth can
    /// overflow.
    pub closed spec fn wf(&self) -> bool {
        &&& self.next_path <= self.paths@.len()
        &&& self.inspected <= MAX_FOLLOW_INSPECTED_ENTRIES
        &&& self.resolved_count <= MAX_FOLLOW_RESOLVED_PATHS
        &&& forall|i: int| 0 <= i < self.tasks@.len() ==> task_depth_ok(#[trigger] self.tasks@[i])
        &&& await_depth_ok(self.awaiting)
    }

    /// A resolution of `paths`; more than `MAX_FOLLOW_PATHS` followpaths are
    /// refused.
    pub fn new(paths: Vec<String>) -> (res: Result<Self, SyncStatus>)
        ensures
            paths@.len() > MAX_FOLLOW_PATHS <==> res is Err,
            res matches Err(e) ==> e@ == (SyncCode::ResourceExhausted, "FileSync request contains too many followpaths"@),
            res matches Ok(r) ==> r.wf() && r@ == (FollowModel {
                paths: name_views(paths@),
                tasks: Seq::empty(),
                visited: Set::empty(),
                resolved: Seq::empty(),
                inspected: 0,
                resolved_count: 0,
                awaiting: AwaitView::Nothing,
            }),
    {
        if paths.len() > MAX_FOLLOW_PATHS {
            return Err(fail(SyncCode::ResourceExhausted, "FileSync request contains too many followpaths"));
        }
        let res = FollowResolver {
            paths,
            next_path: 0,
            tasks: Vec::new(),
            visited: StrMap::new(),
            resolved: Vec::new(),
            inspected: 0,
            resolved_count: 0,
            awaiting: Waiting::Nothing,
        };
        assert(res@.paths =~= name_views(res.paths@));
        assert(res@.tasks =~= Seq::<TaskView>::empty());
        assert(res@.visited =~= Set::<Seq<char>>::empty());
        assert(res@.resolved =~= Seq::<Seq<char>>::empty());
        Ok(res)
    }

    /// Takes one step (see `step_spec`); a failure changes nothing.
    pub fn step(&mut self) -> (res: Result<FollowStep, SyncStatus>)
        requires
            old(self).wf(),
        ensures
            final(self).wf(),
            match step_spec(old(self)@) {
                Ok((m, v)) => res matches Ok(s) && step_view(s) == v && final(self)@ == m,
                Err(e) => res matches Err(s) && s@ == e && final(self)@ == old(self)@,
            },
    {
        let ghost m = self@;
        match &self.awaiting {
            Waiting::Listing { current, .. } => {
                return Ok(FollowStep::List(owned(current.as_str())));
            },
            Waiting::Entry { path, .. } => {
                return Ok(FollowStep::Inspect(owned(path.as_str())));
            },
            Waiting::LinkTarget { path, .. } => {
                return Ok(FollowStep::ReadLink(owned(path.as_str())));
            },
            Waiting::Nothing => {},
        }
        if self.tasks.len() == 0 {
            if self.next_path >= self.paths.len() {
                assert(m.paths.len() == 0);
                return Ok(FollowStep::Done(resolved_patterns_of(&self.resolved)));
            }
            assert(m.paths[0] == self.paths@[self.next_path as int]@);
            let p = owned(self.paths[self.next_path].as_str());
            if str_equal(p.as_str(), ".") {
                self.next_path = self.paths.len();
                let mut only: Vec<String> = Vec::new();
                only.push(owned("."));
                let mut answer: Vec<String> = Vec::new();
                answer.push(owned("."));
                self.resolved = only;
                proof {
                    assert(self@.paths =~= Seq::<Seq<char>>::empty());
                    assert(name_views(self.resolved@) =~= seq!["."@]);
                    assert(name_views(answer@) =~= seq!["."@]);
                }
                return Ok(FollowStep::Done(answer));
            }
            record_check(self.resolved_count, p.as_str())?;
            let components = split_components(p.as_str());
            if components.len() > MAX_FOLLOW_DEPTH {
                return Err(fail(SyncCode::ResourceExhausted, "FileSync followpaths path is too deep"));
            }
            let ghost before_resolved = name_views(self.resolved@);
            self.resolved.push(p);
            self.resolved_count = self.resolved_count + 1;
            self.next_path = self.next_path + 1;
            self.tasks.push(Task::Walk { current: String::new(), components, depth: 0 });
            proof {
                assert(name_views(self.resolved@) =~= before_resolved.push(m.paths[0]));
                assert(self@.paths =~= m.paths.skip(1));
                assert(self@.tasks =~= seq![TaskView::Walk { current: Seq::empty(), components: split_spec(m.paths[0], '/'), depth: 0 }]);
            }
            return Ok(FollowStep::Continue);
        }
        let ghost all_tasks = self.tasks@;
        let popped = self.tasks.pop();
        let task = match popped {
            Some(t) => t,
            None => {
                return Ok(FollowStep::Continue);
            },
        };
        proof {
            assert(task == all_tasks.last());
            assert(Seq::new(self.tasks@.len(), |i: int| task_view(self.tasks@[i])) =~= m.tasks.drop_last());
            assert(task_depth_ok(all_tasks[all_tasks.len() - 1]));
        }
        match task {
            Task::Walk { current, components, depth } => {
                if depth > MAX_FOLLOW_DEPTH {
                    self.tasks.push(Task::Walk { current, components, depth });
                    assert(self@.tasks =~= m.tasks);
                    return Err(fail(SyncCode::ResourceExhausted, "FileSync followpaths resolution is too deep"));
                }
                if components.len() == 0 {
                    if to_chars(current.as_str()).len() == 0 {
                        return Ok(FollowStep::Continue);
                    }
                    match record_check(self.resolved_count, current.as_str()) {
                        Err(e) => {
                            self.tasks.push(Task::Walk { current, components, depth });
                            assert(self@.tasks =~= m.tasks);
                            return Err(e);
                        },
                        Ok(()) => {},
                    }
                    let ghost before_resolved = name_views(self.resolved@);
                    let ghost cv = current@;
                    self.resolved.push(current);
                    self.resolved_count = self.resolved_count + 1;
                    assert(name_views(self.resolved@) =~= before_resolved.push(cv));
                    return Ok(FollowStep::Continue);
                }
                let c = owned(components[0].as_str());
                assert(name_views(components@)[0] == c@);
                if contains_wildcard(c.as_str()) {
                    if !component_valid(c.as_str()) {
                        let mut message = owned("invalid FileSync followpath pattern: ");
                        let shown = debug_str(c.as_str());
                        push_all(&mut message, shown.as_str());
                        self.tasks.push(Task::Walk { current, components, depth });
                        assert(self@.tasks =~= m.tasks);
                        return Err(SyncStatus { code: SyncCode::InvalidArgument, message });
                    }
                    let rest = copy_names(&components, 1);
                    let listed = owned(current.as_str());
                    self.awaiting = Waiting::Listing { current, pattern: c, rest, depth };
                    return Ok(FollowStep::List(listed));
                }
                if self.inspected >= MAX_FOLLOW_INSPECTED_ENTRIES {
                    self.tasks.push(Task::Walk { current, components, depth });
                    assert(self@.tasks =~= m.tasks);
                    return Err(fail(SyncCode::ResourceExhausted, "FileSync followpaths inspected too many entries"));
                }
                let rest = copy_names(&components, 1);
                self.inspected = self.inspected + 1;
                let ghost before_tasks = self@.tasks;
                let visit = Task::Visit { current, name: c, rest, depth: depth + 1 };
                let ghost vv = task_view(visit);
                self.tasks.push(visit);
                assert(self@.tasks =~= before_tasks.push(vv));
                Ok(FollowStep::Continue)
            },
            Task::Scan { current, names, pattern, rest, depth } => {
                match first_match_index(pattern.as_str(), &names) {
                    None => Ok(FollowStep::Continue),
                    Some(i) => {
                        let count = names.len();
                        assert(i < count);
                        let remaining = copy_names(&names, i + 1);
                        let name = owned(names[i].as_str());
                        let rest_copy = copy_names(&rest, 0);
                        let here = owned(current.as_str());
                        let ghost before_tasks = self@.tasks;
                        let scan = Task::Scan { current, names: remaining, pattern, rest, depth };
                        let visit = Task::Visit { current: here, name, rest: rest_copy, depth: depth + 1 };
                        let ghost sv = task_view(scan);
                        let ghost vv = task_view(visit);
                        proof {
                            assert(name_views(rest_copy@) =~= name_views(rest@));
                        }
                        self.tasks.push(scan);
                        self.tasks.push(visit);
                        assert(self@.tasks =~= before_tasks.push(sv).push(vv));
                        Ok(FollowStep::Continue)
                    },
                }
            },
            Task::Visit { current, name, rest, depth } => {
                let path = join_path_text(current.as_str(), name.as_str());
                let asked = owned(path.as_str());
                self.awaiting = Waiting::Entry { path, rest, depth };
                Ok(FollowStep::Inspect(asked))
            },
            Task::Link { path, rest, depth } => {
                let asked = owned(path.as_str());
                self.awaiting = Waiting::LinkTarget { path, rest, depth };
                Ok(FollowStep::ReadLink(asked))
            },
        }
    }

    /// Answers a listing with the directory's entries, each its name or
    /// `None` when the name is not text (`None` for a missing directory; see
    /// `listed_spec`); a failure changes nothing.
    pub fn listed(&mut self, entries: Option<Vec<Option<String>>>) -> (res: Result<(), SyncStatus>)
        requires
            old(self).wf(),
        ensures
            final(self).wf(),
            match listed_spec(old(self)@, match entries { Some(es) => Some(es@), None => None }) {
                Ok(m) => res is Ok && final(self)@ == m,
                Err(e) => res matches Err(s) && s@ == e && final(self)@ == old(self)@,
            },
    {
        let ghost m = self@;
        let mut waiting = Waiting::Nothing;
        std::mem::swap(&mut waiting, &mut self.awaiting);
        match waiting {
            Waiting::Listing { current, pattern, rest, depth } => {
                match entries {
                    None => {
                        return Ok(());
                    },
                    Some(es) => {
                        if es.len() > MAX_FOLLOW_INSPECTED_ENTRIES - self.inspected {
                            self.awaiting = Waiting::Listing { current, pattern, rest, depth };
                            return Err(fail(SyncCode::ResourceExhausted, "FileSync followpaths inspected too many entries"));
                        }
                        self.inspected = self.inspected + es.len();
                        let names = sorted_text_names(es);
                        let ghost before_tasks = self@.tasks;
                        let scan = Task::Scan { current, names, pattern, rest, depth };
                        let ghost sv = task_view(scan);
                        self.tasks.push(scan);
                        assert(self@.tasks =~= before_tasks.push(sv));
                        Ok(())
                    },
                }
            },
            other => {
                self.awaiting = other;
                Ok(())
            },
        }
    }

    /// Answers an inspection with what is at the path (see
    /// `inspected_spec`); a failure changes nothing.
    pub fn inspected(&mut self, kind: EntryKind) -> (res: Result<(), SyncStatus>)
        requires
            old(self).wf(),
        ensures
            final(self).wf(),
            match inspected_spec(old(self)@, kind) {
                Ok(m) => res is Ok && final(self)@ == m,
                Err(e) => res matches Err(s) && s@ == e && final(self)@ == old(self)@,
            },
    {
        let ghost m = self@;
        let mut waiting = Waiting::Nothing;
        std::mem::swap(&mut waiting, &mut self.awaiting);
        let (path, rest, depth) = match waiting {
            Waiting::Entry { path, rest, depth } => (path, rest, depth),
            other => {
                self.awaiting = other;
                return Ok(());
            },
        };
        if kind == EntryKind::Missing {
            return Ok(());
        }
        if is_too_long(path.as_str()) {
            self.awaiting = Waiting::Entry { path, rest, depth };
            return Err(fail(SyncCode::InvalidArgument, "invalid FileSync followpaths path"));
        }
        if kind == EntryKind::Symlink {
            if self.visited.contains_key(path.as_str()) {
                return Ok(());
            }
            match record_check(self.resolved_count, path.as_str()) {
                Err(e) => {
                    self.awaiting = Waiting::Entry { path, rest, depth };
                    return Err(e);
                },
                Ok(()) => {},
            }
            let ghost before_resolved = name_views(self.resolved@);
            let ghost before_tasks = self@.tasks;
            let ghost pv = path@;
            self.visited.insert(owned(path.as_str()), ());
            self.resolved.push(owned(path.as_str()));
            self.resolved_count = self.resolved_count + 1;
            let link = Task::Link { path, rest, depth };
            let ghost lv = task_view(link);
            self.tasks.push(link);
            proof {
                assert(name_views(self.resolved@) =~= before_resolved.push(pv));
                assert(self@.tasks =~= before_tasks.push(lv));
                assert(self@.visited =~= m.visited.insert(pv));
            }
            return Ok(());
        }
        if rest.len() == 0 {
            match record_check(self.resolved_count, path.as_str()) {
                Err(e) => {
                    self.awaiting = Waiting::Entry { path, rest, depth };
                    return Err(e);
                },
                Ok(()) => {},
            }
            let ghost before_resolved = name_views(self.resolved@);
            let ghost pv = path@;
            self.resolved.push(path);
            self.resolved_count = self.resolved_count + 1;
            assert(name_views(self.resolved@) =~= before_resolved.push(pv));
            return Ok(());
        }
        if kind == EntryKind::Directory {
            let ghost before_tasks = self@.tasks;
            let walk = Task::Walk { current: path, components: rest, depth };
            let ghost wv = task_view(walk);
            self.tasks.push(walk);
            assert(self@.tasks =~= before_tasks.push(wv));
        }
        Ok(())
    }

    /// Answers a link read with the symlink's target (see
    /// `link_read_spec`).
    pub fn link_read(&mut self, link: &str)
        requires
            old(self).wf(),
        ensures
            final(self).wf(),
            final(self)@ == link_read_spec(old(self)@, link@),
    {
        let ghost m = self@;
        let mut waiting = Waiting::Nothing;
        std::mem::swap(&mut waiting, &mut self.awaiting);
        let (path, rest, depth) = match waiting {
            Waiting::LinkTarget { path, rest, depth } => (path, rest, depth),
            other => {
                self.awaiting = other;
                return;
            },
        };
        let parts = link_target_parts_of(path.as_str(), link);
        if parts.len() == 0 {
            let ghost before_resolved = name_views(self.resolved@);
            self.resolved.push(owned("."));
            proof {
                reveal_strlit(".");
                assert(name_views(self.resolved@) =~= before_resolved.push("."@));
            }
            return;
        }
        let names = plain_names_of(&parts);
        let components = append_names(names, &rest);
        let ghost before_tasks = self@.tasks;
        let walk = Task::Walk { current: String::new(), components, depth: depth + 1 };
        let ghost wv = task_view(walk);
        self.tasks.push(walk);
        assert(self@.tasks =~= before_tasks.push(wv));
    }
}

} // verus!