//! The focus history: recording focus events into the most-recently-used
//! list and deriving per-level timestamp maps from it.
//!
//! Reading and writing the history file, its lock and the clock are the
//! caller's part; these functions compute the new history from the old.

use vstd::prelude::*;
use crate::strmap::StrMap;
use crate::text::str_eq;

verus! {

/// The entity kind that was focused. Entries are tagged with it so that
/// pane-level, tab-level and workspace-level timestamps stay independent.
#[derive(Debug, Clone, Copy, PartialEq, Eq, Structural)]
pub enum MruKind {
    Pane,
    Tab,
    Workspace,
}

/// One focus event of the history.
#[derive(Debug, Clone)]
pub struct MruEntry {
    pub kind: MruKind,
    /// The entity ID: pane_id, tab_id, or workspace_id depending on `kind`.
    pub id: String,
    /// The workspace that the focused entity belongs to.
    pub workspace_id: String,
    pub focused_at: u64,
    /// Human-readable name for the entity (tab label, pane label, workspace label).
    pub name: Option<String>,
    /// Human-readable workspace label for context.
    pub workspace_name: Option<String>,
}

/// The mathematical value of an [`MruEntry`].
pub struct EntryView {
    pub kind: MruKind,
    pub id: Seq<char>,
    pub workspace_id: Seq<char>,
    pub focused_at: u64,
    pub name: Option<Seq<char>>,
    pub workspace_name: Option<Seq<char>>,
}

impl DeepView for MruEntry {
    type V = EntryView;

    open spec fn deep_view(&self) -> EntryView {
        EntryView {
            kind: self.kind,
            id: self.id@,
            workspace_id: self.workspace_id@,
            focused_at: self.focused_at,
            name: self.name.deep_view(),
            workspace_name: self.workspace_name.deep_view(),
        }
    }
}

/// The most entries the history keeps.
pub const MRU_CAPACITY: usize = 300;

/// The directory the history and the last category live in:
/// `HERDR_PLUGIN_STATE_DIR` where it is set (an empty value included), else
/// `/tmp/herdr-recent-navigator`.
pub open spec fn state_dir_of(env: Option<Seq<char>>) -> Seq<char> {
    match env {
        Some(s) => s,
        None => "/tmp/herdr-recent-navigator"@,
    }
}

/// The state directory, from the value of `HERDR_PLUGIN_STATE_DIR` if any.
pub fn state_dir_or_default(env: Option<String>) -> (res: String)
    ensures
        res@ == state_dir_of(env.deep_view()),
{
    match env {
        Some(s) => s,
        None => "/tmp/herdr-recent-navigator".to_owned(),
    }
}

/// The entry records a focus of entity `id` of kind `kind`.
pub open spec fn is_event_of(e: EntryView, kind: MruKind, id: Seq<char>) -> bool {
    e.kind == kind && e.id == id
}

/// The first entry of `s` for the entity, if any.
pub open spec fn first_of(s: Seq<EntryView>, kind: MruKind, id: Seq<char>) -> Option<EntryView>
    decreases s.len(),
{
    if s.len() == 0 {
        None
    } else {
        match first_of(s.drop_last(), kind, id) {
            Some(e) => Some(e),
            None => if is_event_of(s.last(), kind, id) {
                Some(s.last())
            } else {
                None
            },
        }
    }
}

/// `s` without the entries for the entity, in order.
pub open spec fn without(s: Seq<EntryView>, kind: MruKind, id: Seq<char>) -> Seq<EntryView>
    decreases s.len(),
{
    if s.len() == 0 {
        seq![]
    } else {
        let prev = without(s.drop_last(), kind, id);
        if is_event_of(s.last(), kind, id) {
            prev
        } else {
            prev.push(s.last())
        }
    }
}

/// `a`, or when absent `b`.
pub open spec fn or_else(a: Option<Seq<char>>, b: Option<Seq<char>>) -> Option<Seq<char>> {
    match a {
        Some(x) => Some(x),
        None => b,
    }
}

/// The entry a focus event adds: names not given are taken over from the
/// entity's previous entry.
pub open spec fn new_entry(
    old: Option<EntryView>,
    kind: MruKind,
    id: Seq<char>,
    workspace_id: Seq<char>,
    now: u64,
    name: Option<Seq<char>>,
    workspace_name: Option<Seq<char>>,
) -> EntryView {
    EntryView {
        kind,
        id,
        workspace_id,
        focused_at: now,
        name: or_else(name, match old {
            Some(o) => o.name,
            None => None,
        }),
        workspace_name: or_else(workspace_name, match old {
            Some(o) => o.workspace_name,
            None => None,
        }),
    }
}

/// The history after a focus event: the event first, then the earlier
/// entries of other entities in their order, cut to the capacity.
pub open spec fn recorded(
    s: Seq<EntryView>,
    kind: MruKind,
    id: Seq<char>,
    workspace_id: Seq<char>,
    now: u64,
    name: Option<Seq<char>>,
    workspace_name: Option<Seq<char>>,
) -> Seq<EntryView> {
    let all = seq![new_entry(first_of(s, kind, id), kind, id, workspace_id, now, name, workspace_name)]
        + without(s, kind, id);
    if all.len() <= MRU_CAPACITY {
        all
    } else {
        all.take(MRU_CAPACITY as int)
    }
}

fn same_kind(a: MruKind, b: MruKind) -> (res: bool)
    ensures
        res == (a == b),
{
    match (a, b) {
        (MruKind::Pane, MruKind::Pane) => true,
        (MruKind::Tab, MruKind::Tab) => true,
        (MruKind::Workspace, MruKind::Workspace) => true,
        _ => false,
    }
}

fn clone_name(o: &Option<String>) -> (res: Option<String>)
    ensures
        res.deep_view() == o.deep_view(),
{
    match o {
        Some(s) => Some(s.clone()),
        None => None,
    }
}

/// Records a focus event in the history `entries` (most recent first) at
/// time `now`, with the entity's names when the caller has them.
///
/// The entity's earlier entry is replaced by the new one at the front; a
/// name not given is kept from that earlier entry; the history is cut to
/// [`MRU_CAPACITY`] entries.
pub fn record_event_with_names(
    entries: Vec<MruEntry>,
    kind: MruKind,
    id: &str,
    workspace_id: &str,
    now: u64,
    name: Option<String>,
    workspace_name: Option<String>,
) -> (res: Vec<MruEntry>)
    ensures
        res.deep_view() == recorded(
            entries.deep_view(),
            kind,
            id@,
            workspace_id@,
            now,
            name.deep_view(),
            workspace_name.deep_view(),
        ),
{
    let ghost s = entries.deep_view();
    let mut rest = entries;
    let mut kept: Vec<MruEntry> = Vec::new();
    let mut old: Option<MruEntry> = None;
    let ghost mut done: int = 0;
    assert(rest.deep_view() =~= s.skip(0));
    while rest.len() > 0
        invariant
            0 <= done <= s.len(),
            rest.deep_view() == s.skip(done),
            kept.deep_view() == without(s.take(done), kind, id@),
            old.deep_view() == first_of(s.take(done), kind, id@),
        decreases rest@.len(),
    {
        let ghost rv = rest@;
        let ghost kv = kept.deep_view();
        let e = rest.remove(0);
        proof {
            assert(rv.len() == s.skip(done).len());
            assert(e.deep_view() == s.skip(done)[0]);
            assert(s.skip(done)[0] == s[done]);
            assert(rest.deep_view() =~= s.skip(done).drop_first());
            assert(s.skip(done).drop_first() =~= s.skip(done + 1));
            assert(s.take(done + 1).drop_last() =~= s.take(done));
            assert(s.take(done + 1).last() == s[done]);
        }
        if same_kind(e.kind, kind) && str_eq(e.id.as_str(), id) {
            if old.is_none() {
                old = Some(e);
            }
        } else {
            kept.push(e);
            assert(kept.deep_view() =~= kv.push(e.deep_view()));
        }
        proof {
            done = done + 1;
        }
    }
    assert(s.take(s.len() as int) =~= s);
    let entry_name = match name {
        Some(n) => Some(n),
        None => match &old {
            Some(o) => clone_name(&o.name),
            None => None,
        },
    };
    let entry_ws_name = match workspace_name {
        Some(n) => Some(n),
        None => match &old {
            Some(o) => clone_name(&o.workspace_name),
            None => None,
        },
    };
    let entry = MruEntry {
        kind,
        id: id.to_owned(),
        workspace_id: workspace_id.to_owned(),
        focused_at: now,
        name: entry_name,
        workspace_name: entry_ws_name,
    };
    let ghost kv = kept.deep_view();
    kept.insert(0, entry);
    assert(kept.deep_view() =~= seq![entry.deep_view()] + kv);
    let ghost all = kept.deep_view();
    kept.truncate(MRU_CAPACITY);
    assert(all.len() > MRU_CAPACITY ==> kept.deep_view() =~= all.take(MRU_CAPACITY as int));
    assert(all.len() <= MRU_CAPACITY ==> kept.deep_view() =~= all);
    kept
}

/// Records a focus event without names (see [`record_event_with_names`]).
pub fn record_event(entries: Vec<MruEntry>, kind: MruKind, id: &str, workspace_id: &str, now: u64) -> (res: Vec<MruEntry>)
    ensures
        res.deep_view() == recorded(entries.deep_view(), kind, id@, workspace_id@, now, None, None),
{
    record_event_with_names(entries, kind, id, workspace_id, now, None, None)
}

/// The timestamps of the entities of one kind: for each, the time of its
/// first entry, the most recent one in a most-recent-first history.
pub open spec fn ts_map_of(s: Seq<EntryView>, kind: MruKind) -> Map<Seq<char>, u64>
    decreases s.len(),
{
    if s.len() == 0 {
        Map::empty()
    } else {
        let m = ts_map_of(s.drop_last(), kind);
        let e = s.last();
        if e.kind == kind && !m.contains_key(e.id) {
            m.insert(e.id, e.focused_at)
        } else {
            m
        }
    }
}

/// Builds the three timestamp maps (pane, tab, workspace) of a history.
///
/// Each maps an entity to its most recent focus time, the first one in the
/// most-recent-first history, so that each category sorts by its own
/// level's timestamps only.
pub fn build_timestamp_maps(entries: &[MruEntry]) -> (res: (StrMap<u64>, StrMap<u64>, StrMap<u64>))
    ensures
        res.0@ == ts_map_of(entries.deep_view(), MruKind::Pane),
        res.1@ == ts_map_of(entries.deep_view(), MruKind::Tab),
        res.2@ == ts_map_of(entries.deep_view(), MruKind::Workspace),
{
    let ghost s = entries.deep_view();
    let mut pane_ts: StrMap<u64> = StrMap::new();
    let mut tab_ts: StrMap<u64> = StrMap::new();
    let mut ws_ts: StrMap<u64> = StrMap::new();
    let mut i: usize = 0;
    while i < entries.len()
        invariant
            i <= entries@.len(),
            s == entries.deep_view(),
            pane_ts@ == ts_map_of(s.take(i as int), MruKind::Pane),
            tab_ts@ == ts_map_of(s.take(i as int), MruKind::Tab),
            ws_ts@ == ts_map_of(s.take(i as int), MruKind::Workspace),
        decreases entries@.len() - i,
    {
        let e = &entries[i];
        proof {
            assert(s.take(i + 1).drop_last() =~= s.take(i as int));
            assert(s.take(i + 1).last() == e.deep_view());
        }
        let ts = e.focused_at;
        match e.kind {
            MruKind::Pane => {
                if !pane_ts.contains_key(e.id.as_str()) {
                    pane_ts.insert(e.id.clone(), ts);
                }
            },
            MruKind::Tab => {
                if !tab_ts.contains_key(e.id.as_str()) {
                    tab_ts.insert(e.id.clone(), ts);
                }
            },
            MruKind::Workspace => {
                if !ws_ts.contains_key(e.id.as_str()) {
                    ws_ts.insert(e.id.clone(), ts);
                }
            },
        }
        i = i + 1;
    }
    assert(s.take(entries@.len() as int) =~= s);
    (pane_ts, tab_ts, ws_ts)
}

// ── Laws ──

/// No entity has two entries in `s`.
pub open spec fn no_duplicates(s: Seq<EntryView>) -> bool {
    forall|i: int, j: int|
        0 <= i < j < s.len() ==> !is_event_of(#[trigger] s[j], s[i].kind, #[trigger] s[i].id)
}

/// The entries left after removing an entity's entries are entries of `s`
/// of other entities, and no more than `s` holds.
pub proof fn lemma_without(s: Seq<EntryView>, kind: MruKind, id: Seq<char>)
    ensures
        without(s, kind, id).len() <= s.len(),
        forall|j: int|
            0 <= j < without(s, kind, id).len() ==> !is_event_of(#[trigger] without(s, kind, id)[j], kind, id),
        forall|j: int|
            0 <= j < without(s, kind, id).len() ==> exists|i: int|
                0 <= i < s.len() && s[i] == #[trigger] without(s, kind, id)[j],
        no_duplicates(s) ==> no_duplicates(without(s, kind, id)),
    decreases s.len(),
{
    if s.len() > 0 {
        let p = s.drop_last();
        lemma_without(p, kind, id);
        let w = without(s, kind, id);
        let wp = without(p, kind, id);
        assert forall|j: int| 0 <= j < w.len() implies exists|i: int| 0 <= i < s.len() && s[i] == #[trigger] w[j] by {
            if j < wp.len() {
                assert(w[j] == wp[j]);
                let i = choose|i: int| 0 <= i < p.len() && p[i] == wp[j];
                assert(s[i] == w[j]);
            } else {
                assert(s[s.len() - 1] == w[j]);
            }
        }
        if no_duplicates(s) {
            assert(no_duplicates(p)) by {
                assert forall|i: int, j: int| 0 <= i < j < p.len() implies !is_event_of(#[trigger] p[j], p[i].kind, #[trigger] p[i].id) by {
                    assert(p[i] == s[i] && p[j] == s[j]);
                }
            }
            assert forall|a: int, b: int| 0 <= a < b < w.len() implies !is_event_of(#[trigger] w[b], w[a].kind, #[trigger] w[a].id) by {
                if b < wp.len() {
                    assert(w[a] == wp[a] && w[b] == wp[b]);
                } else {
                    assert(w[a] == wp[a]);
                    let i = choose|i: int| 0 <= i < p.len() && p[i] == wp[a];
                    assert(s[i] == w[a]);
                    assert(w[b] == s[s.len() - 1]);
                }
            }
        }
    }
}

/// Recording a focus event puts the event first, with the given kind, id,
/// workspace and time, and names that fall back to the entity's previous
/// entry; no other entry of the entity stays; the history never exceeds
/// [`MRU_CAPACITY`] entries, nor grows by more than one.
pub proof fn lemma_record_event(
    s: Seq<EntryView>,
    kind: MruKind,
    id: Seq<char>,
    workspace_id: Seq<char>,
    now: u64,
    name: Option<Seq<char>>,
    workspace_name: Option<Seq<char>>,
)
    ensures
        ({
            let r = recorded(s, kind, id, workspace_id, now, name, workspace_name);
            &&& r.len() >= 1
            &&& r[0].kind == kind && r[0].id == id && r[0].workspace_id == workspace_id
            &&& r[0].focused_at == now
            &&& (name is None && first_of(s, kind, id) is Some) ==> r[0].name == first_of(s, kind, id)->0.name
            &&& (workspace_name is None && first_of(s, kind, id) is Some) ==> r[0].workspace_name == first_of(
                s,
                kind,
                id,
            )->0.workspace_name
            &&& forall|j: int| 1 <= j < r.len() ==> !is_event_of(#[trigger] r[j], kind, id)
            &&& r.len() <= MRU_CAPACITY
            &&& r.len() <= s.len() + 1
        }),
{
    lemma_without(s, kind, id);
    let r = recorded(s, kind, id, workspace_id, now, name, workspace_name);
    let w = without(s, kind, id);
    assert forall|j: int| 1 <= j < r.len() implies !is_event_of(#[trigger] r[j], kind, id) by {
        assert(r[j] == w[j - 1]);
    }
}

/// A history in which no entity has two entries keeps that property when
/// an event is recorded.
pub proof fn lemma_record_event_no_duplicates(
    s: Seq<EntryView>,
    kind: MruKind,
    id: Seq<char>,
    workspace_id: Seq<char>,
    now: u64,
    name: Option<Seq<char>>,
    workspace_name: Option<Seq<char>>,
)
    requires
        no_duplicates(s),
    ensures
        no_duplicates(recorded(s, kind, id, workspace_id, now, name, workspace_name)),
{
    lemma_without(s, kind, id);
    let r = recorded(s, kind, id, workspace_id, now, name, workspace_name);
    let w = without(s, kind, id);
    assert forall|a: int, b: int| 0 <= a < b < r.len() implies !is_event_of(#[trigger] r[b], r[a].kind, #[trigger] r[a].id) by {
        assert(r[b] == w[b - 1]);
        if a > 0 {
            assert(r[a] == w[a - 1]);
        }
    }
}

proof fn lemma_ts_map_absent(s: Seq<EntryView>, kind: MruKind, id: Seq<char>)
    requires
        forall|j: int| 0 <= j < s.len() ==> !is_event_of(#[trigger] s[j], kind, id),
    ensures
        !ts_map_of(s, kind).contains_key(id),
    decreases s.len(),
{
    if s.len() > 0 {
        let p = s.drop_last();
        assert forall|j: int| 0 <= j < p.len() implies !is_event_of(#[trigger] p[j], kind, id) by {
            assert(p[j] == s[j]);
        }
        lemma_ts_map_absent(p, kind, id);
        assert(!is_event_of(s[s.len() - 1], kind, id));
    }
}

proof fn lemma_ts_map_at(s: Seq<EntryView>, kind: MruKind, id: Seq<char>, i: int)
    requires
        0 <= i < s.len(),
        is_event_of(s[i], kind, id),
        forall|j: int| 0 <= j < i ==> !is_event_of(#[trigger] s[j], kind, id),
    ensures
        ts_map_of(s, kind).contains_key(id),
        ts_map_of(s, kind)[id] == s[i].focused_at,
    decreases s.len(),
{
    let p = s.drop_last();
    if i < p.len() {
        assert forall|j: int| 0 <= j < i implies !is_event_of(#[trigger] p[j], kind, id) by {
            assert(p[j] == s[j]);
        }
        assert(p[i] == s[i]);
        lemma_ts_map_at(p, kind, id, i);
    } else {
        assert forall|j: int| 0 <= j < p.len() implies !is_event_of(#[trigger] p[j], kind, id) by {
            assert(p[j] == s[j]);
        }
        lemma_ts_map_absent(p, kind, id);
    }
}

/// The timestamp map of a kind holds exactly the entities of that kind with
/// an entry, each with the time of its first (most recent) entry.
pub proof fn lemma_ts_map_first_wins(s: Seq<EntryView>, kind: MruKind, id: Seq<char>)
    ensures
        ts_map_of(s, kind).contains_key(id) <==> exists|i: int| 0 <= i < s.len() && is_event_of(#[trigger] s[i], kind, id),
        forall|i: int|
            0 <= i < s.len() && is_event_of(#[trigger] s[i], kind, id) && (forall|j: int|
                0 <= j < i ==> !is_event_of(#[trigger] s[j], kind, id)) ==> ts_map_of(s, kind)[id] == s[i].focused_at,
{
    assert forall|i: int|
        0 <= i < s.len() && is_event_of(#[trigger] s[i], kind, id) && (forall|j: int|
            0 <= j < i ==> !is_event_of(#[trigger] s[j], kind, id)) implies ts_map_of(s, kind)[id] == s[i].focused_at by {
        lemma_ts_map_at(s, kind, id, i);
    }
    if exists|i: int| 0 <= i < s.len() && is_event_of(#[trigger] s[i], kind, id) {
        let i = choose|i: int| 0 <= i < s.len() && is_event_of(#[trigger] s[i], kind, id);
        lemma_first_event(s, kind, id, i);
    } else {
        lemma_ts_map_absent(s, kind, id);
    }
}

/// Some entry of the entity exists, so a first one does, and the map holds it.
proof fn lemma_first_event(s: Seq<EntryView>, kind: MruKind, id: Seq<char>, i: int)
    requires
        0 <= i < s.len(),
        is_event_of(s[i], kind, id),
    ensures
        ts_map_of(s, kind).contains_key(id),
    decreases i,
{
    if exists|j: int| 0 <= j < i && is_event_of(#[trigger] s[j], kind, id) {
        let j = choose|j: int| 0 <= j < i && is_event_of(#[trigger] s[j], kind, id);
        lemma_first_event(s, kind, id, j);
    } else {
        lemma_ts_map_at(s, kind, id, i);
    }
}

/// After a focus event is recorded, the timestamp map of its kind gives the
/// entity the event's time.
pub proof fn lemma_record_then_timestamp(
    s: Seq<EntryView>,
    kind: MruKind,
    id: Seq<char>,
    workspace_id: Seq<char>,
    now: u64,
    name: Option<Seq<char>>,
    workspace_name: Option<Seq<char>>,
)
    ensures
        ts_map_of(recorded(s, kind, id, workspace_id, now, name, workspace_name), kind).contains_key(id),
        ts_map_of(recorded(s, kind, id, workspace_id, now, name, workspace_name), kind)[id] == now,
{
    let r = recorded(s, kind, id, workspace_id, now, name, workspace_name);
    lemma_record_event(s, kind, id, workspace_id, now, name, workspace_name);
    lemma_ts_map_first_wins(r, kind, id);
    assert(is_event_of(r[0], kind, id));
}

} // verus!
