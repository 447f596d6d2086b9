//! The walk of a local source for FileSync: depth first, each directory's
//! entries in byte order; entries the filters leave out are skipped, but a
//! directory that is left out is still entered, and announced just before
//! the first entry below it that is selected. The caller reads the
//! filesystem; the walk decides what is visited and announced, and in which
//! order.

use vstd::prelude::*;
use vstd::relations::sorted_by;
use crate::grpc::filesync::{entry_view, optional_matches, ScanSelection, SourceEntry, SyncCode, SyncStatus};
use crate::grpc::patternmatcher::PatternView;
use crate::text::owned;
use std::collections::VecDeque;

verus! {

broadcast use {vstd::string::group_string_axioms, vstd::std_specs::vecdeque::group_vec_dequeue_axioms};

/// Whether `a` comes before `b` or equals it, comparing characters in
/// order (for UTF-8 text this is the byte order).
pub open spec fn text_le(a: Seq<char>, b: Seq<char>) -> bool
    decreases a.len(),
{
    if a.len() == 0 {
        true
    } else if b.len() == 0 {
        false
    } else if a[0] != b[0] {
        a[0] < b[0]
    } else {
        text_le(a.skip(1), b.skip(1))
    }
}

pub proof fn lemma_text_le_total(a: Seq<char>, b: Seq<char>)
    ensures
        text_le(a, b) || text_le(b, a),
    decreases a.len(),
{
    if a.len() > 0 && b.len() > 0 && a[0] == b[0] {
        lemma_text_le_total(a.skip(1), b.skip(1));
    }
}

pub proof fn lemma_text_le_transitive(a: Seq<char>, b: Seq<char>, c: Seq<char>)
    requires
        text_le(a, b),
        text_le(b, c),
    ensures
        text_le(a, c),
    decreases a.len(),
{
    if a.len() > 0 && b.len() > 0 && c.len() > 0 && a[0] == b[0] && b[0] == c[0] {
        lemma_text_le_transitive(a.skip(1), b.skip(1), c.skip(1));
    }
}

/// Byte order never puts two different names each before the other.
pub proof fn lemma_text_le_antisymmetric(a: Seq<char>, b: Seq<char>)
    requires
        text_le(a, b),
        text_le(b, a),
    ensures
        a == b,
    decreases a.len(),
{
    if a.len() > 0 && b.len() > 0 {
        lemma_text_le_antisymmetric(a.skip(1), b.skip(1));
        assert(a =~= seq![a[0]] + a.skip(1));
        assert(b =~= seq![b[0]] + b.skip(1));
    }
}

/// Every name comes before or equals itself.
pub proof fn lemma_text_le_reflexive(a: Seq<char>)
    ensures
        text_le(a, a),
    decreases a.len(),
{
    if a.len() > 0 {
        lemma_text_le_reflexive(a.skip(1));
    }
}

/// Byte order is a total order on names.
pub proof fn lemma_text_order_total()
    ensures
        vstd::relations::total_ordering(text_order()),
{
    assert forall|x: Seq<char>| #[trigger] text_order()(x, x) by {
        lemma_text_le_reflexive(x);
    }
    assert forall|x: Seq<char>, y: Seq<char>| #[trigger] text_order()(x, y) && #[trigger] text_order()(y, x) implies x == y by {
        lemma_text_le_antisymmetric(x, y);
    }
    assert forall|x: Seq<char>, y: Seq<char>, z: Seq<char>| #[trigger] text_order()(x, y) && #[trigger] text_order()(y, z) implies text_order()(x, z) by {
        lemma_text_le_transitive(x, y, z);
    }
    assert forall|x: Seq<char>, y: Seq<char>| #[trigger] text_order()(x, y) || #[trigger] text_order()(y, x) by {
        lemma_text_le_total(x, y);
    }
}

fn text_le_exec(a: &String, b: &String) -> (res: bool)
    ensures
        res == text_le(a@, b@),
{
    let ac = crate::text::to_chars(a.as_str());
    let bc = crate::text::to_chars(b.as_str());
    let mut i: usize = 0;
    assert(ac@.skip(0) =~= ac@);
    assert(bc@.skip(0) =~= bc@);
    while i < ac.len() && i < bc.len() && ac[i] == bc[i]
        invariant
            i <= ac@.len(),
            i <= bc@.len(),
            ac@ == a@,
            bc@ == b@,
            text_le(ac@.skip(i as int), bc@.skip(i as int)) == text_le(a@, b@),
        decreases ac@.len() - i,
    {
        assert(ac@.skip(i as int).skip(1) =~= ac@.skip(i + 1));
        assert(bc@.skip(i as int).skip(1) =~= bc@.skip(i + 1));
        i = i + 1;
    }
    if i == ac.len() {
        true
    } else if i == bc.len() {
        false
    } else {
        ac[i] < bc[i]
    }
}

/// The byte order of names, as a relation.
pub open spec fn text_order() -> spec_fn(Seq<char>, Seq<char>) -> bool {
    |x: Seq<char>, y: Seq<char>| text_le(x, y)
}

/// The characters of each string.
pub open spec fn name_views(v: Seq<String>) -> Seq<Seq<char>> {
    Seq::new(v.len(), |i: int| v[i]@)
}

/// Sorts directory entry names in byte order.
pub fn sort_names(names: Vec<String>) -> (res: Vec<String>)
    ensures
        sorted_by(name_views(res@), text_order()),
        name_views(res@).to_multiset() == name_views(names@).to_multiset(),
        name_views(res@) == name_views(names@).sort_by(text_order()),
{
    broadcast use vstd::seq_lib::group_to_multiset_ensures;
    let mut out: Vec<String> = Vec::new();
    let mut rest = names;
    let ghost all = name_views(rest@);
    proof {
        assert(name_views(out@) =~= Seq::<Seq<char>>::empty());
    }
    while rest.len() > 0
        invariant
            sorted_by(name_views(out@), text_order()),
            name_views(out@).to_multiset().add(name_views(rest@).to_multiset()) == all.to_multiset(),
        decreases rest@.len(),
    {
        let ghost rest_before = name_views(rest@);
        let ghost out_before = name_views(out@);
        let x = rest.pop().unwrap();
        proof {
            assert(rest_before =~= name_views(rest@).push(x@));
        }
        let mut k: usize = 0;
        while k < out.len() && text_le_exec(&out[k], &x)
            invariant
                k <= out@.len(),
                out_before == name_views(out@),
                forall|j: int| 0 <= j < k ==> text_le(#[trigger] out_before[j], x@),
            decreases out@.len() - k,
        {
            k = k + 1;
        }
        proof {
            if k < out@.len() {
                assert(!text_le(out_before[k as int], x@));
                lemma_text_le_total(out_before[k as int], x@);
            }
        }
        out.insert(k, x);
        proof {
            let nv = name_views(out@);
            assert(nv =~= out_before.insert(k as int, x@));
            assert forall|i: int, j: int| 0 <= i < j < nv.len() implies #[trigger] text_order()(nv[i], nv[j]) by {
                if j < k {
                    assert(nv[i] == out_before[i] && nv[j] == out_before[j]);
                    assert(text_order()(out_before[i], out_before[j]));
                } else if j == k {
                    assert(nv[i] == out_before[i]);
                } else if i == k {
                    assert(nv[j] == out_before[j - 1]);
                    assert(text_le(x@, out_before[k as int]));
                    if j - 1 > k {
                        assert(text_order()(out_before[k as int], out_before[j - 1]));
                        lemma_text_le_transitive(x@, out_before[k as int], out_before[j - 1]);
                    }
                } else if i < k {
                    assert(nv[i] == out_before[i] && nv[j] == out_before[j - 1]);
                    assert(text_order()(out_before[i], out_before[j - 1]));
                } else {
                    assert(nv[i] == out_before[i - 1] && nv[j] == out_before[j - 1]);
                    assert(text_order()(out_before[i - 1], out_before[j - 1]));
                }
            }
            vstd::seq_lib::to_multiset_insert(out_before, k as int, x@);
            vstd::seq_lib::to_multiset_build(name_views(rest@), x@);
        }
    }
    proof {
        assert(name_views(rest@) =~= Seq::<Seq<char>>::empty());
        assert(name_views(rest@).to_multiset() =~= vstd::multiset::Multiset::empty());
        lemma_text_order_total();
        all.lemma_sort_by_ensures(text_order());
        assert(name_views(out@).to_multiset().add(vstd::multiset::Multiset::empty()) =~= name_views(out@).to_multiset());
        assert(name_views(out@).to_multiset() == all.to_multiset());
        vstd::seq_lib::lemma_sorted_unique(name_views(out@), all.sort_by(text_order()), text_order());
    }
    out
}

} // verus!

verus! {

/// Most entries a local source may have.
pub const MAX_ENTRIES: usize = 100000;

/// The message when a source has too many entries.
pub open spec fn too_many_entries_text() -> Seq<char> {
    "local source has too many entries"@
}

/// Counts the directory entries inspected during a scan.
pub struct ScanBudget {
    inspected: usize,
}

impl ScanBudget {
    /// The number inspected so far.
    pub closed spec fn view(&self) -> nat {
        self.inspected as nat
    }

    /// A budget with nothing inspected.
    pub fn new() -> (res: Self)
        ensures
            res@ == 0,
    {
        ScanBudget { inspected: 0 }
    }

    /// Counts one more inspected entry; more than `MAX_ENTRIES` fails.
    pub fn inspect(&mut self) -> (res: Result<(), SyncStatus>)
        ensures
            old(self)@ >= MAX_ENTRIES ==> (res matches Err(s) && s@ == (SyncCode::ResourceExhausted, too_many_entries_text())
                && final(self)@ == old(self)@),
            old(self)@ < MAX_ENTRIES ==> res is Ok && final(self)@ == old(self)@ + 1,
    {
        if self.inspected >= MAX_ENTRIES {
            return Err(SyncStatus { code: SyncCode::ResourceExhausted, message: owned("local source has too many entries") });
        }
        self.inspected = self.inspected + 1;
        Ok(())
    }
}

/// Checks a batch size asked of the scanner.
pub fn check_batch_limit(limit: usize) -> (res: Result<(), SyncStatus>)
    ensures
        limit > 0 <==> res is Ok,
        res matches Err(s) ==> s@ == (SyncCode::InvalidArgument, "FileSync scanner batch limit must be positive"@),
{
    if limit == 0 {
        Err(SyncStatus { code: SyncCode::InvalidArgument, message: owned("FileSync scanner batch limit must be positive") })
    } else {
        Ok(())
    }
}

/// A directory being walked, in the model: its path, its entry names in
/// order, how many were visited, and whether it was left out by the filters
/// (and so waits to be announced).
pub struct FrameView {
    pub relative: Seq<char>,
    pub names: Seq<Seq<char>>,
    pub next: nat,
    pub pending: bool,
}

/// The state of a walk, in the model.
pub struct ScanModel<S> {
    /// The directories being walked, innermost last.
    pub frames: Seq<FrameView>,
    /// The request id of the next announced entry.
    pub position: nat,
    /// Directories left out by the filters, waiting to be announced.
    pub pending: Seq<(S, bool, Seq<char>)>,
    /// Entries ready to be handed out, in order.
    pub ready: Seq<(S, u32, bool, Seq<char>)>,
}

struct ScanFrame {
    relative: String,
    names: Vec<String>,
    next_name: usize,
    pending: bool,
}

struct PendingDir<S> {
    stat: S,
    regular: bool,
    relative: String,
}

/// The path of entry `name` inside the directory `dir`.
pub open spec fn child_path(dir: Seq<char>, name: Seq<char>) -> Seq<char> {
    crate::context::join_path(dir, name)
}

/// Whether filters with the given model select `path`.
pub open spec fn selects(
    selection: Option<(Option<Seq<PatternView>>, Option<Seq<PatternView>>)>,
    path: Seq<char>,
) -> bool {
    match selection {
        None => true,
        Some((i, x)) => optional_matches(i, path, true) && !optional_matches(x, path, false),
    }
}

/// The walk once the directories whose entries were all visited are closed,
/// innermost first; a directory left out by the filters takes the last
/// waiting announcement with it, if one is left.
pub open spec fn close_finished<S>(
    frames: Seq<FrameView>,
    pending: Seq<(S, bool, Seq<char>)>,
) -> (Seq<FrameView>, Seq<(S, bool, Seq<char>)>)
    decreases frames.len(),
{
    if frames.len() == 0 {
        (frames, pending)
    } else {
        let top = frames.last();
        if top.next < top.names.len() {
            (frames, pending)
        } else {
            close_finished(
                frames.drop_last(),
                if top.pending && pending.len() > 0 { pending.drop_last() } else { pending },
            )
        }
    }
}

/// The entries announced for the waiting directories `pending`, numbered
/// from `start`.
pub open spec fn announced<S>(pending: Seq<(S, bool, Seq<char>)>, start: nat) -> Seq<(S, u32, bool, Seq<char>)> {
    Seq::new(pending.len(), |i: int| (pending[i].0, (start + i) as u32, pending[i].1, pending[i].2))
}

/// The ready entries carry consecutive request ids that end just below the
/// next one.
pub open spec fn numbered_in_order<S>(m: ScanModel<S>) -> bool {
    &&& m.ready.len() <= m.position
    &&& forall|i: int| 0 <= i < m.ready.len() ==> (#[trigger] m.ready[i]).1 == m.position - m.ready.len() + i
}

/// The walk with the directory `relative` entered: a new innermost frame
/// over its names in order, none visited yet.
pub open spec fn with_frame<S>(m: ScanModel<S>, relative: Seq<char>, names: Seq<Seq<char>>, pending: bool) -> ScanModel<S> {
    ScanModel {
        frames: m.frames.push(FrameView { relative, names: names.sort_by(text_order()), next: 0, pending }),
        ..m
    }
}

/// The walk once a selected entry is announced: the waiting directories
/// first, then the entry, each under the next request id.
pub open spec fn accepted<S>(m: ScanModel<S>, stat: S, regular: bool, relative: Seq<char>) -> ScanModel<S> {
    ScanModel {
        ready: m.ready + announced(m.pending, m.position)
            .push((stat, (m.position + m.pending.len()) as u32, regular, relative)),
        pending: Seq::empty(),
        position: m.position + m.pending.len() + 1,
        ..m
    }
}

/// How many ready entries go into a batch that holds `have` entries, up to
/// `limit`, when `ready` are waiting.
pub open spec fn fill_count(have: nat, limit: nat, ready: nat) -> nat {
    let room: nat = if have < limit { (limit - have) as nat } else { 0 };
    if room < ready { room } else { ready }
}

/// The walk with its ready entries replaced by `r`.
pub open spec fn with_ready<S>(m: ScanModel<S>, r: Seq<(S, u32, bool, Seq<char>)>) -> ScanModel<S> {
    ScanModel { ready: r, ..m }
}

/// What `Scanner::advance` does, in the model: the walk with its finished
/// directories closed and the next name taken, and that entry's path;
/// `None` once the walk is over.
pub open spec fn advance_model<S>(m: ScanModel<S>) -> (ScanModel<S>, Option<Seq<char>>) {
    let (cf, cp) = close_finished(m.frames, m.pending);
    if cf.len() == 0 {
        (ScanModel { frames: cf, pending: cp, ..m }, None)
    } else {
        let top = cf.last();
        (
            ScanModel { frames: cf.update(cf.len() - 1, FrameView { next: top.next + 1, ..top }), pending: cp, ..m },
            Some(child_path(top.relative, top.names[top.next as int])),
        )
    }
}

/// What visiting the entry at `path` does, in the model (see
/// `visit_entry`), given whether the filters select it, its stat, whether it
/// is a regular file, and its entry names when it is a directory; `None`
/// when announcing it would pass `MAX_ENTRIES` entries.
pub open spec fn visit_model<S>(
    m: ScanModel<S>,
    path: Seq<char>,
    selected: bool,
    stat: S,
    regular: bool,
    names: Option<Seq<Seq<char>>>,
) -> Option<ScanModel<S>> {
    if !selected {
        match names {
            Some(ns) => Some(with_frame(ScanModel { pending: m.pending.push((stat, regular, path)), ..m }, path, ns, true)),
            None => Some(m),
        }
    } else if m.position + m.pending.len() >= MAX_ENTRIES {
        None
    } else {
        match names {
            Some(ns) => Some(with_frame(accepted(m, stat, regular, path), path, ns, false)),
            None => Some(accepted(m, stat, regular, path)),
        }
    }
}

/// The whole walk from `m` in one go, the filesystem answering `info` for
/// each path (its stat, whether it is a regular file, and its entry names
/// when it is a directory): the walk once it is over, whose ready entries
/// are everything announced; `None` when announcing would pass
/// `MAX_ENTRIES` or the walk needs more than `fuel` visits.
pub open spec fn walk<S>(
    m: ScanModel<S>,
    sel: Option<(Option<Seq<PatternView>>, Option<Seq<PatternView>>)>,
    info: spec_fn(Seq<char>) -> (S, bool, Option<Seq<Seq<char>>>),
    fuel: nat,
) -> Option<ScanModel<S>>
    decreases fuel,
{
    let (m1, next) = advance_model(m);
    match next {
        None => Some(m1),
        Some(path) => if fuel == 0 {
            None
        } else {
            let (st, reg, names) = info(path);
            match visit_model(m1, path, selects(sel, path), st, reg, names) {
                None => None,
                Some(m2) => walk(m2, sel, info, (fuel - 1) as nat),
            }
        },
    }
}

/// The entries handed out, batch after batch, when the walk from `m` is
/// driven with `Scanner::take_step` and `visit_entry` with batches of
/// `limit` (never cancelled), the batch being filled holding `b`; `None`
/// as for `walk`.
pub open spec fn batched<S>(
    m: ScanModel<S>,
    b: Seq<(S, u32, bool, Seq<char>)>,
    limit: nat,
    sel: Option<(Option<Seq<PatternView>>, Option<Seq<PatternView>>)>,
    info: spec_fn(Seq<char>) -> (S, bool, Option<Seq<Seq<char>>>),
    fuel: nat,
) -> Option<Seq<(S, u32, bool, Seq<char>)>>
    decreases fuel, m.ready.len(),
    when 0 < limit && b.len() < limit
{
    let n = fill_count(b.len(), limit, m.ready.len());
    let b1 = b + m.ready.take(n as int);
    let m1 = with_ready(m, m.ready.skip(n as int));
    if b1.len() >= limit {
        match batched(m1, Seq::empty(), limit, sel, info, fuel) {
            Some(rest) => Some(b1 + rest),
            None => None,
        }
    } else {
        let (m2, next) = advance_model(m1);
        match next {
            None => Some(b1),
            Some(path) => if fuel == 0 {
                None
            } else {
                let (st, reg, names) = info(path);
                match visit_model(m2, path, selects(sel, path), st, reg, names) {
                    None => None,
                    Some(m3) => batched(m3, b1, limit, sel, info, (fuel - 1) as nat),
                }
            },
        }
    }
}

proof fn lemma_walk_prefix<S>(
    m: ScanModel<S>,
    r: Seq<(S, u32, bool, Seq<char>)>,
    sel: Option<(Option<Seq<PatternView>>, Option<Seq<PatternView>>)>,
    info: spec_fn(Seq<char>) -> (S, bool, Option<Seq<Seq<char>>>),
    fuel: nat,
)
    ensures
        walk(with_ready(m, r + m.ready), sel, info, fuel) == match walk(m, sel, info, fuel) {
            Some(w) => Some(with_ready(w, r + w.ready)),
            None => None,
        },
    decreases fuel,
{
    let mr = with_ready(m, r + m.ready);
    let (m1, next) = advance_model(m);
    let (m1r, nextr) = advance_model(mr);
    assert(m1r == with_ready(m1, r + m1.ready));
    assert(nextr == next);
    match next {
        None => {},
        Some(path) => {
            if fuel > 0 {
                let (st, reg, names) = info(path);
                let v = visit_model(m1, path, selects(sel, path), st, reg, names);
                let vr = visit_model(m1r, path, selects(sel, path), st, reg, names);
                match v {
                    None => {
                        assert(vr is None);
                    },
                    Some(m2) => {
                        assert(vr == Some(with_ready(m2, r + m2.ready))) by {
                            if selects(sel, path) {
                                let a = accepted(m1, st, reg, path);
                                let ar = accepted(m1r, st, reg, path);
                                assert(ar.ready =~= r + a.ready);
                                assert(ar == with_ready(a, r + a.ready));
                            }
                        }
                        lemma_walk_prefix(m2, r, sel, info, (fuel - 1) as nat);
                    },
                }
            }
        },
    }
}

proof fn lemma_batched_walk<S>(
    m: ScanModel<S>,
    b: Seq<(S, u32, bool, Seq<char>)>,
    limit: nat,
    sel: Option<(Option<Seq<PatternView>>, Option<Seq<PatternView>>)>,
    info: spec_fn(Seq<char>) -> (S, bool, Option<Seq<Seq<char>>>),
    fuel: nat,
)
    requires
        0 < limit,
        b.len() < limit,
    ensures
        walk(m, sel, info, fuel) matches Some(w) ==> batched(m, b, limit, sel, info, fuel) == Some(b + w.ready),
    decreases fuel, m.ready.len(),
{
    let n = fill_count(b.len(), limit, m.ready.len());
    let b1 = b + m.ready.take(n as int);
    let m1 = with_ready(m, m.ready.skip(n as int));
    assert(m.ready.take(n as int) + m1.ready =~= m.ready);
    assert(with_ready(m1, m.ready.take(n as int) + m1.ready) == m);
    lemma_walk_prefix(m1, m.ready.take(n as int), sel, info, fuel);
    if b1.len() >= limit {
        lemma_batched_walk(m1, Seq::empty(), limit, sel, info, fuel);
        if let Some(w) = walk(m, sel, info, fuel) {
            let w1 = walk(m1, sel, info, fuel)->0;
            assert(Seq::<(S, u32, bool, Seq<char>)>::empty() + w1.ready =~= w1.ready);
            assert(b1 + w1.ready =~= b + w.ready);
        }
    } else {
        assert(n == m.ready.len());
        assert(m1.ready =~= Seq::<(S, u32, bool, Seq<char>)>::empty());
        let (m2, next) = advance_model(m1);
        match next {
            None => {
                if let Some(w) = walk(m, sel, info, fuel) {
                    assert(w.ready =~= m.ready.take(n as int) + m2.ready);
                    assert(b1 =~= b + w.ready);
                }
            },
            Some(path) => {
                if fuel > 0 {
                    let (st, reg, names) = info(path);
                    match visit_model(m2, path, selects(sel, path), st, reg, names) {
                        None => {},
                        Some(m3) => {
                            lemma_batched_walk(m3, b1, limit, sel, info, (fuel - 1) as nat);
                            if let Some(w) = walk(m, sel, info, fuel) {
                                let w1 = walk(m1, sel, info, fuel)->0;
                                assert(w1 == walk(m3, sel, info, (fuel - 1) as nat)->0);
                                assert(b1 + w1.ready =~= b + w.ready);
                            }
                        },
                    }
                }
            },
        }
    }
}

/// How the entries are cut into batches does not change them: whatever
/// the filesystem answers, a walk that ends hands out, batch after batch,
/// exactly the entries it announces, in order, for every batch limit.
pub proof fn law_batch_limit_does_not_change_the_entries<S>(
    m: ScanModel<S>,
    sel: Option<(Option<Seq<PatternView>>, Option<Seq<PatternView>>)>,
    info: spec_fn(Seq<char>) -> (S, bool, Option<Seq<Seq<char>>>),
    fuel: nat,
    limit1: nat,
    limit2: nat,
)
    requires
        limit1 > 0,
        limit2 > 0,
        walk(m, sel, info, fuel) is Some,
    ensures
        batched(m, Seq::empty(), limit1, sel, info, fuel) == batched(m, Seq::empty(), limit2, sel, info, fuel),
        batched(m, Seq::empty(), limit1, sel, info, fuel) == Some(walk(m, sel, info, fuel)->0.ready),
{
    let e = Seq::<(S, u32, bool, Seq<char>)>::empty();
    lemma_batched_walk(m, e, limit1, sel, info, fuel);
    lemma_batched_walk(m, e, limit2, sel, info, fuel);
    let w = walk(m, sel, info, fuel)->0;
    assert(e + w.ready =~= w.ready);
}

/// What the caller does after a step of taking a batch.
pub enum TakeStep {
    /// The batch holds the number of entries asked for; more may follow.
    Full,
    /// The walk is over or was cancelled: the batch is the last.
    Finished,
    /// Inspect the entry at this path, which the filters select or not,
    /// and visit it.
    Inspect(String, bool),
}

spec fn frame_view(f: ScanFrame) -> FrameView {
    FrameView { relative: f.relative@, names: name_views(f.names@), next: f.next_name as nat, pending: f.pending }
}

spec fn frames_view(frames: Seq<ScanFrame>) -> Seq<FrameView> {
    Seq::new(frames.len(), |i: int| frame_view(frames[i]))
}

spec fn frames_ok(frames: Seq<ScanFrame>) -> bool {
    forall|i: int| 0 <= i < frames.len() ==> {
        let f = #[trigger] frames[i];
        &&& f.next_name <= f.names@.len()
        &&& sorted_by(name_views(f.names@), text_order())
    }
}

spec fn pending_view<S>(p: Seq<PendingDir<S>>) -> Seq<(S, bool, Seq<char>)> {
    Seq::new(p.len(), |i: int| (p[i].stat, p[i].regular, p[i].relative@))
}

/// The model of each entry of `r`.
pub open spec fn ready_view<S>(r: Seq<SourceEntry<S>>) -> Seq<(S, u32, bool, Seq<char>)> {
    Seq::new(r.len(), |i: int| entry_view(r[i]))
}

/// Closes finished directories and takes the next name of the innermost
/// open one, returning its path.
fn next_name<S>(frames: &mut Vec<ScanFrame>, pending: &mut VecDeque<PendingDir<S>>) -> (res: Option<String>)
    requires
        frames_ok(old(frames)@),
    ensures
        frames_ok(final(frames)@),
        ({
            let (cf, cp) = close_finished(frames_view(old(frames)@), pending_view(old(pending)@));
            &&& pending_view(final(pending)@) == cp
            &&& cf.len() == 0 ==> res is None && final(frames)@.len() == 0
            &&& cf.len() > 0 ==> {
                let top = cf.last();
                &&& res matches Some(path) && path@ == child_path(top.relative, top.names[top.next as int])
                &&& frames_view(final(frames)@) == cf.update(cf.len() - 1, FrameView { next: top.next + 1, ..top })
            }
        }),
    decreases old(frames)@.len(),
{
    let ghost f0 = frames_view(frames@);
    let ghost p0 = pending_view(pending@);
    let popped = frames.pop();
    match popped {
        None => {
            proof {
                assert(f0.len() == 0);
            }
            None
        },
        Some(mut f) => {
            proof {
                assert(frames_view(frames@) =~= f0.drop_last());
                assert(frame_view(f) == f0.last());
                assert(frames_ok(frames@));
            }
            if f.next_name < f.names.len() {
                let path = crate::context::join_path_text(f.relative.as_str(), f.names[f.next_name].as_str());
                f.next_name = f.next_name + 1;
                let ghost fv = frame_view(f);
                frames.push(f);
                proof {
                    assert(frames_view(frames@) =~= f0.update(f0.len() - 1, fv));
                    assert forall|i: int| 0 <= i < frames@.len() implies {
                        let g = #[trigger] frames@[i];
                        &&& g.next_name <= g.names@.len()
                        &&& sorted_by(name_views(g.names@), text_order())
                    } by {
                        if i < frames@.len() - 1 {
                            assert(frames@[i] == old(frames)@[i]);
                        } else {
                            assert(old(frames)@[i].names == frames@[i].names);
                        }
                    }
                }
                Some(path)
            } else {
                if f.pending {
                    let _ = pending.pop_back();
                    proof {
                        if p0.len() > 0 {
                            assert(pending_view(pending@) =~= p0.drop_last());
                        } else {
                            assert(pending_view(pending@) =~= p0);
                        }
                    }
                }
                next_name(frames, pending)
            }
        },
    }
}

/// The walk of a local source (see the module's description).
pub struct Scanner<S> {
    selection: ScanSelection,
    frames: Vec<ScanFrame>,
    position: u32,
    pending: VecDeque<PendingDir<S>>,
    ready: VecDeque<SourceEntry<S>>,
}

impl<S> Scanner<S> {
    /// The state of the walk.
    pub closed spec fn view(&self) -> ScanModel<S> {
        ScanModel {
            frames: frames_view(self.frames@),
            position: self.position as nat,
            pending: pending_view(self.pending@),
            ready: ready_view(self.ready@),
        }
    }

    /// The filters of the walk.
    pub closed spec fn selection_view(&self) -> Option<(Option<Seq<PatternView>>, Option<Seq<PatternView>>)> {
        self.selection@
    }

    #[verifier::type_invariant]
    spec fn well_formed(&self) -> bool {
        &&& frames_ok(self.frames@)
        &&& self.position as nat <= MAX_ENTRIES
        &&& numbered_in_order(self@)
    }

    /// A walk of the root directory, whose entry names (in any order) the
    /// caller listed.
    pub fn new(selection: ScanSelection, root_names: Vec<String>) -> (res: Self)
        ensures
            res@.frames.len() == 1,
            res@.frames[0].relative.len() == 0,
            res@.frames[0].next == 0,
            !res@.frames[0].pending,
            sorted_by(res@.frames[0].names, text_order()),
            res@.frames[0].names == name_views(root_names@).sort_by(text_order()),
            res@.position == 0,
            res@.pending.len() == 0,
            res@.ready.len() == 0,
            res.selection_view() == selection@,
    {
        let names = sort_names(root_names);
        let mut frames: Vec<ScanFrame> = Vec::new();
        frames.push(ScanFrame { relative: String::new(), names, next_name: 0, pending: false });
        let res = Scanner { selection, frames, position: 0, pending: VecDeque::new(), ready: VecDeque::new() };
        assert(res@.pending =~= Seq::<(S, bool, Seq<char>)>::empty());
        assert(res@.ready =~= Seq::<(S, u32, bool, Seq<char>)>::empty());
        res
    }

    /// How many directories are being walked.
    pub fn depth(&self) -> (res: usize)
        ensures
            res == self@.frames.len(),
    {
        self.frames.len()
    }

    /// Whether the filters select `relative`.
    pub fn is_selected(&self, relative: &str) -> (res: bool)
        ensures
            res == selects(self.selection_view(), relative@),
    {
        self.selection.is_selected(relative)
    }

    /// The next entry to visit: directories whose names were all visited
    /// are closed first (a directory left out by the filters drops the last
    /// waiting announcement, if one is left), then the next name of the
    /// innermost open directory is taken. Gives its path and whether the
    /// filters select it, or `None` once the walk is over.
    pub fn advance(&mut self) -> (res: Option<(String, bool)>)
        ensures
            final(self).selection_view() == old(self).selection_view(),
            numbered_in_order(final(self)@),
            ({
                let (cf, cp) = close_finished(old(self)@.frames, old(self)@.pending);
                let top = cf.last();
                &&& final(self)@.position == old(self)@.position
                &&& final(self)@.ready == old(self)@.ready
                &&& final(self)@.pending == cp
                &&& cf.len() == 0 ==> res is None && final(self)@.frames.len() == 0
                &&& cf.len() > 0 ==> {
                    &&& res matches Some((path, selected))
                        && path@ == child_path(top.relative, top.names[top.next as int])
                        && selected == selects(old(self).selection_view(), path@)
                    &&& final(self)@.frames == cf.update(cf.len() - 1, FrameView { next: top.next + 1, ..top })
                }
            }),
    {
        proof {
            use_type_invariant(&*self);
        }
        let mut frames: Vec<ScanFrame> = Vec::new();
        std::mem::swap(&mut frames, &mut self.frames);
        let mut pending: VecDeque<PendingDir<S>> = VecDeque::new();
        std::mem::swap(&mut pending, &mut self.pending);
        let next = next_name(&mut frames, &mut pending);
        self.frames = frames;
        self.pending = pending;
        match next {
            None => None,
            Some(path) => {
                let selected = self.selection.is_selected(path.as_str());
                Some((path, selected))
            },
        }
    }

    fn push_frame(&mut self, relative: String, names: Vec<String>, pending: bool)
        ensures
            final(self).selection_view() == old(self).selection_view(),
            final(self)@.position == old(self)@.position,
            final(self)@.ready == old(self)@.ready,
            final(self)@.pending == old(self)@.pending,
            final(self)@.frames.len() == old(self)@.frames.len() + 1,
            final(self)@.frames.drop_last() == old(self)@.frames,
            final(self)@.frames.last().relative == relative@,
            final(self)@.frames.last().next == 0,
            final(self)@.frames.last().pending == pending,
            sorted_by(final(self)@.frames.last().names, text_order()),
            final(self)@.frames.last().names == name_views(names@).sort_by(text_order()),
    {
        proof {
            use_type_invariant(&*self);
        }
        let sorted = sort_names(names);
        let mut frames: Vec<ScanFrame> = Vec::new();
        std::mem::swap(&mut frames, &mut self.frames);
        let ghost f0 = frames@;
        frames.push(ScanFrame { relative, names: sorted, next_name: 0, pending });
        proof {
            assert(frames_view(frames@).drop_last() =~= frames_view(f0));
            assert forall|i: int| 0 <= i < frames@.len() implies {
                let g = #[trigger] frames@[i];
                &&& g.next_name <= g.names@.len()
                &&& sorted_by(name_views(g.names@), text_order())
            } by {
                if i < f0.len() {
                    assert(frames@[i] == f0[i]);
                }
            }
        }
        self.frames = frames;
    }

    /// Enters the selected directory `relative`, whose entry names (in any
    /// order) the caller listed.
    pub fn enter_directory(&mut self, relative: String, names: Vec<String>)
        ensures
            final(self).selection_view() == old(self).selection_view(),
            numbered_in_order(final(self)@),
            final(self)@.position == old(self)@.position,
            final(self)@.ready == old(self)@.ready,
            final(self)@.pending == old(self)@.pending,
            final(self)@.frames.len() == old(self)@.frames.len() + 1,
            final(self)@.frames.drop_last() == old(self)@.frames,
            final(self)@.frames.last().relative == relative@,
            final(self)@.frames.last().next == 0,
            !final(self)@.frames.last().pending,
            sorted_by(final(self)@.frames.last().names, text_order()),
            final(self)@.frames.last().names == name_views(names@).sort_by(text_order()),
            final(self)@ == with_frame(old(self)@, relative@, name_views(names@), false),
    {
        let ghost m0 = self@;
        let ghost r = relative@;
        let ghost n = name_views(names@);
        self.push_frame(relative, names, false);
        proof {
            use_type_invariant(&*self);
            assert(self@.frames =~= m0.frames.push(FrameView { relative: r, names: n.sort_by(text_order()), next: 0, pending: false }));
        }
    }

    /// Enters the directory `relative` that the filters left out: it waits
    /// to be announced, with `stat` and `regular`, before the first selected
    /// entry below it.
    pub fn defer_directory(&mut self, stat: S, regular: bool, relative: String, names: Vec<String>)
        ensures
            final(self).selection_view() == old(self).selection_view(),
            numbered_in_order(final(self)@),
            final(self)@.position == old(self)@.position,
            final(self)@.ready == old(self)@.ready,
            final(self)@.pending == old(self)@.pending.push((stat, regular, relative@)),
            final(self)@.frames.len() == old(self)@.frames.len() + 1,
            final(self)@.frames.drop_last() == old(self)@.frames,
            final(self)@.frames.last().relative == relative@,
            final(self)@.frames.last().next == 0,
            final(self)@.frames.last().pending,
            sorted_by(final(self)@.frames.last().names, text_order()),
            final(self)@.frames.last().names == name_views(names@).sort_by(text_order()),
            final(self)@ == with_frame(
                ScanModel { pending: old(self)@.pending.push((stat, regular, relative@)), ..old(self)@ },
                relative@, name_views(names@), true),
    {
        proof {
            use_type_invariant(&*self);
        }
        let ghost m0 = self@;
        let ghost r = relative@;
        let ghost n = name_views(names@);
        let path = owned(relative.as_str());
        let mut pending: VecDeque<PendingDir<S>> = VecDeque::new();
        std::mem::swap(&mut pending, &mut self.pending);
        let ghost p0 = pending_view(pending@);
        pending.push_back(PendingDir { stat, regular, relative: path });
        proof {
            assert(pending_view(pending@) =~= p0.push((stat, regular, relative@)));
        }
        self.pending = pending;
        self.push_frame(relative, names, true);
        proof {
            use_type_invariant(&*self);
            assert(self@.frames =~= m0.frames.push(FrameView { relative: r, names: n.sort_by(text_order()), next: 0, pending: true }));
        }
    }

    /// Announces a selected entry: first the directories waiting to be
    /// announced, in the order they were entered, then the entry itself,
    /// each under the next request id. Fails, changing nothing, when that
    /// would take the walk past `MAX_ENTRIES` entries.
    pub fn accept(&mut self, stat: S, regular: bool, relative: String) -> (res: Result<(), SyncStatus>)
        ensures
            final(self).selection_view() == old(self).selection_view(),
            numbered_in_order(final(self)@),
            old(self)@.position + old(self)@.pending.len() >= MAX_ENTRIES <==> res is Err,
            res matches Err(e) ==> e@ == (SyncCode::ResourceExhausted, too_many_entries_text()) && final(self)@ == old(self)@,
            res is Ok ==> final(self)@ == accepted(old(self)@, stat, regular, relative@),
    {
        proof {
            use_type_invariant(&*self);
        }
        let k = self.pending.len();
        let start = self.position;
        if k >= MAX_ENTRIES - start as usize {
            return Err(SyncStatus { code: SyncCode::ResourceExhausted, message: owned("local source has too many entries") });
        }
        let ghost s0 = self@;
        let mut pending: VecDeque<PendingDir<S>> = VecDeque::new();
        std::mem::swap(&mut pending, &mut self.pending);
        let mut ready: VecDeque<SourceEntry<S>> = VecDeque::new();
        std::mem::swap(&mut ready, &mut self.ready);
        let ghost p0 = pending_view(pending@);
        let ghost r0 = ready_view(ready@);
        let mut position = start;
        proof {
            assert(p0 == s0.pending);
            assert(p0.skip(0) =~= p0);
            assert(announced(p0.take(0), start as nat) =~= Seq::<(S, u32, bool, Seq<char>)>::empty());
            assert(r0 + announced(p0.take(0), start as nat) =~= r0);
        }
        while pending.len() > 0
            invariant
                start as nat + k < MAX_ENTRIES,
                k == p0.len(),
                start <= position,
                position as nat <= start as nat + k,
                pending_view(pending@) == p0.skip(position - start),
                ready_view(ready@) == r0 + announced(p0.take(position - start), start as nat),
            decreases pending@.len(),
        {
            let ghost taken: int = position - start;
            let ghost before = pending@;
            let ghost rbefore = ready_view(ready@);
            proof {
                assert(pending_view(before).len() == before.len());
            }
            let popped = pending.pop_front();
            if let Some(d) = popped {
                proof {
                    assert(taken < k);
                    assert(p0[taken] == (d.stat, d.regular, d.relative@)) by {
                        assert(p0.skip(taken)[0] == pending_view(before)[0]);
                    }
                }
                ready.push_back(SourceEntry { stat: d.stat, position, regular: d.regular, relative: d.relative });
                proof {
                    assert(pending_view(pending@) =~= p0.skip(taken + 1)) by {
                        assert forall|i: int| 0 <= i < pending@.len() implies #[trigger] pending_view(pending@)[i] == p0.skip(taken + 1)[i] by {
                            assert(pending@[i] == before[i + 1]);
                            assert(p0.skip(taken)[i + 1] == pending_view(before)[i + 1]);
                        }
                    }
                    assert(announced(p0.take(taken + 1), start as nat) =~= announced(p0.take(taken), start as nat).push(
                        (p0[taken].0, (start + taken) as u32, p0[taken].1, p0[taken].2)));
                    assert(ready_view(ready@) =~= rbefore.push(
                        (p0[taken].0, (start + taken) as u32, p0[taken].1, p0[taken].2)));
                }
                position = position + 1;
            }
        }
        proof {
            assert(pending_view(pending@).len() == pending@.len());
            assert(p0.take(k as int) =~= p0);
        }
        let ghost rb = ready_view(ready@);
        ready.push_back(SourceEntry { stat, position, regular, relative });
        proof {
            assert(ready_view(ready@) =~= rb.push((stat, position, regular, relative@)));
        }
        position = position + 1;
        self.position = position;
        self.ready = ready;
        self.pending = pending;
        proof {
            assert(self@.pending =~= Seq::<(S, bool, Seq<char>)>::empty());
            let m = self@;
            assert forall|i: int| 0 <= i < m.ready.len() implies (#[trigger] m.ready[i]).1 == m.position - m.ready.len() + i by {
                if i < r0.len() {
                    assert(m.ready[i] == s0.ready[i]);
                } else if i < r0.len() + k {
                    assert(m.ready[i] == announced(p0, start as nat)[i - r0.len()]);
                }
            }
        }
        Ok(())
    }

    /// Moves ready entries into `entries` until it holds `limit`.
    pub fn fill(&mut self, entries: &mut Vec<SourceEntry<S>>, limit: usize)
        ensures
            final(self).selection_view() == old(self).selection_view(),
            numbered_in_order(final(self)@),
            ({
                let room = if old(entries)@.len() < limit { limit - old(entries)@.len() } else { 0 };
                let n = if room < old(self)@.ready.len() { room } else { old(self)@.ready.len() as int };
                &&& ready_view(final(entries)@) == ready_view(old(entries)@) + old(self)@.ready.take(n)
                &&& final(self)@ == (ScanModel { ready: old(self)@.ready.skip(n), ..old(self)@ })
            }),
    {
        proof {
            use_type_invariant(&*self);
        }
        let ghost start = ready_view(entries@);
        let ghost ready0 = self@.ready;
        let ghost s0 = self@;
        let ghost room = if entries@.len() < limit { limit - entries@.len() } else { 0 };
        let ghost n = if room < ready0.len() { room } else { ready0.len() as int };
        let ghost mut taken: int = 0;
        let mut ready: VecDeque<SourceEntry<S>> = VecDeque::new();
        std::mem::swap(&mut ready, &mut self.ready);
        assert(ready0 == ready_view(ready@));
        assert(ready0.skip(0) =~= ready0);
        assert(ready0.take(0) =~= Seq::<(S, u32, bool, Seq<char>)>::empty());
        assert(start + ready0.take(0) =~= start);
        while entries.len() < limit && ready.len() > 0
            invariant
                0 <= taken <= n,
                entries@.len() == start.len() + taken,
                ready_view(entries@) == start + ready0.take(taken),
                ready_view(ready@) == ready0.skip(taken),
                room == (if start.len() < limit { limit - start.len() } else { 0 }),
                n == (if room < ready0.len() { room } else { ready0.len() as int }),
            decreases ready@.len(),
        {
            let ghost before = ready_view(entries@);
            let ghost rbefore = ready@;
            proof {
                assert(ready_view(rbefore).len() == rbefore.len());
                assert(rbefore.len() == ready0.len() - taken);
                assert(taken < n);
            }
            let popped = ready.pop_front();
            if let Some(e) = popped {
                proof {
                    assert(ready@ =~= rbefore.subrange(1, rbefore.len() as int));
                    assert(entry_view(e) == ready0[taken]) by {
                        assert(ready0.skip(taken)[0] == ready_view(rbefore)[0]);
                    }
                }
                entries.push(e);
                proof {
                    assert(ready_view(entries@) =~= before.push(ready0[taken]));
                    assert(ready0.take(taken + 1) =~= ready0.take(taken).push(ready0[taken]));
                    assert forall|i: int| 0 <= i < ready@.len() implies #[trigger] ready_view(ready@)[i] == ready0.skip(taken + 1)[i] by {
                        assert(ready@[i] == rbefore[i + 1]);
                        assert(ready0.skip(taken)[i + 1] == ready_view(rbefore)[i + 1]);
                    }
                    assert(ready_view(ready@) =~= ready0.skip(taken + 1));
                    taken = taken + 1;
                }
            }
        }
        proof {
            assert(ready_view(ready@).len() == ready@.len());
        }
        self.ready = ready;
        assert(self@ =~= (ScanModel { ready: ready0.skip(taken), ..s0 }));
        assert(taken == n);
    }

    /// One step of taking a batch of at most `limit` entries into `batch`:
    /// ready entries are moved in first; a batch that is then full is
    /// handed out, and so is the last one once the walk is cancelled or
    /// over; otherwise the next entry to inspect is named. A zero `limit` is
    /// refused, changing nothing.
    pub fn take_step(&mut self, batch: &mut Vec<SourceEntry<S>>, limit: usize, cancelled: bool) -> (res: Result<TakeStep, SyncStatus>)
        ensures
            final(self).selection_view() == old(self).selection_view(),
            numbered_in_order(final(self)@),
            limit == 0 ==> (res matches Err(s)
                && s@ == (SyncCode::InvalidArgument, "FileSync scanner batch limit must be positive"@)
                && final(self)@ == old(self)@ && final(batch)@ == old(batch)@),
            limit > 0 ==> ({
                let n = fill_count(old(batch)@.len(), limit as nat, old(self)@.ready.len());
                let m1 = ScanModel { ready: old(self)@.ready.skip(n as int), ..old(self)@ };
                let (cf, cp) = close_finished(m1.frames, m1.pending);
                let top = cf.last();
                &&& old(batch)@.len() + n < limit && !cancelled ==> ({
                    let (m2, next) = advance_model(m1);
                    &&& final(self)@ == m2
                    &&& match next {
                        None => res matches Ok(TakeStep::Finished),
                        Some(p) => res matches Ok(TakeStep::Inspect(path, selected))
                            && path@ == p && selected == selects(old(self).selection_view(), p),
                    }
                })
                &&& ready_view(final(batch)@) == ready_view(old(batch)@) + old(self)@.ready.take(n as int)
                &&& if old(batch)@.len() + n >= limit {
                    res matches Ok(TakeStep::Full) && final(self)@ == m1
                } else if cancelled {
                    res matches Ok(TakeStep::Finished) && final(self)@ == m1
                } else if cf.len() == 0 {
                    &&& res matches Ok(TakeStep::Finished)
                    &&& final(self)@.frames.len() == 0
                    &&& final(self)@.pending == cp
                    &&& final(self)@.ready == m1.ready
                    &&& final(self)@.position == m1.position
                } else {
                    &&& res matches Ok(TakeStep::Inspect(path, selected))
                        && path@ == child_path(top.relative, top.names[top.next as int])
                        && selected == selects(old(self).selection_view(), path@)
                    &&& final(self)@ == (ScanModel {
                        frames: cf.update(cf.len() - 1, FrameView { next: top.next + 1, ..top }),
                        pending: cp,
                        ..m1
                    })
                }
            }),
    {
        proof {
            use_type_invariant(&*self);
        }
        if limit == 0 {
            return Err(SyncStatus { code: SyncCode::InvalidArgument, message: owned("FileSync scanner batch limit must be positive") });
        }
        let ghost b0 = batch@;
        self.fill(batch, limit);
        proof {
            assert(ready_view(batch@).len() == batch@.len());
            assert(ready_view(b0).len() == b0.len());
        }
        if batch.len() >= limit {
            return Ok(TakeStep::Full);
        }
        if cancelled {
            return Ok(TakeStep::Finished);
        }
        let ghost m1 = self@;
        match self.advance() {
            None => {
                proof {
                    let (cf, cp) = close_finished(m1.frames, m1.pending);
                    assert(self@.frames =~= cf);
                    assert(self@ == advance_model(m1).0);
                }
                Ok(TakeStep::Finished)
            },
            Some((path, selected)) => Ok(TakeStep::Inspect(path, selected)),
        }
    }
}

} // verus!
