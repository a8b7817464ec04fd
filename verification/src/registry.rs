//! The set of scheduled notifications, each filed under a group key and an id.
//! At most one notification holds a given (key, id) slot; a group exists exactly
//! while some notification is filed under its key.

use vstd::prelude::*;
use crate::text::same_text;

verus! {

/// A notification waiting for its time.
#[derive(Clone, Debug)]
pub struct ScheduledNotification {
    pub id: String,
    pub key: String,
    /// The notification's type ("default" unless the request names one).
    pub kind: String,
    /// When to dispatch it, in milliseconds since the Unix epoch.
    pub run_at: i64,
    /// The JSON document to send, as text.
    pub data: String,
    /// How many dispatches have failed so far.
    pub attempts: u32,
}

/// The value of a [`ScheduledNotification`].
pub struct NoteView {
    pub id: Seq<char>,
    pub key: Seq<char>,
    pub kind: Seq<char>,
    pub run_at: i64,
    pub data: Seq<char>,
    pub attempts: u32,
}

impl View for ScheduledNotification {
    type V = NoteView;

    open spec fn view(&self) -> NoteView {
        NoteView {
            id: self.id@,
            key: self.key@,
            kind: self.kind@,
            run_at: self.run_at,
            data: self.data@,
            attempts: self.attempts,
        }
    }
}

impl ScheduledNotification {
    /// A copy of this notification.
    pub fn copy(&self) -> (r: Self)
        ensures
            r@ == self@,
    {
        ScheduledNotification {
            id: self.id.clone(),
            key: self.key.clone(),
            kind: self.kind.clone(),
            run_at: self.run_at,
            data: self.data.clone(),
            attempts: self.attempts,
        }
    }
}

/// The values of a list of notifications.
pub open spec fn notes_view(v: Seq<ScheduledNotification>) -> Seq<NoteView> {
    v.map_values(|n: ScheduledNotification| n@)
}

/// Whether `n` is filed under group `key` with id `id`.
pub open spec fn in_slot(n: NoteView, key: Seq<char>, id: Seq<char>) -> bool {
    n.key == key && n.id == id
}

/// Whether no two notifications of `s` share a slot.
pub open spec fn unique_slots(s: Seq<NoteView>) -> bool {
    forall|i: int, j: int|
        0 <= i < s.len() && 0 <= j < s.len() && i != j ==> !in_slot(s[i], s[j].key, s[j].id)
}

/// Holds the notifications that are not in slot (`key`, `id`).
pub open spec fn not_in_slot(key: Seq<char>, id: Seq<char>) -> spec_fn(NoteView) -> bool {
    |n: NoteView| !in_slot(n, key, id)
}

/// Holds the notifications in slot (`key`, `id`).
pub open spec fn in_slot_pred(key: Seq<char>, id: Seq<char>) -> spec_fn(NoteView) -> bool {
    |n: NoteView| in_slot(n, key, id)
}

/// Holds the notifications of group `key`.
pub open spec fn in_group(key: Seq<char>) -> spec_fn(NoteView) -> bool {
    |n: NoteView| n.key == key
}

/// Holds the notifications outside group `key`.
pub open spec fn not_in_group(key: Seq<char>) -> spec_fn(NoteView) -> bool {
    |n: NoteView| n.key != key
}

/// Holds the notifications of group `key` whose id is not among `keep`.
pub open spec fn dropped_from_group(key: Seq<char>, keep: Seq<Seq<char>>) -> spec_fn(NoteView) -> bool {
    |n: NoteView| n.key == key && !keep.contains(n.id)
}

/// Holds the notifications that [`dropped_from_group`] does not hold.
pub open spec fn kept_in_group(key: Seq<char>, keep: Seq<Seq<char>>) -> spec_fn(NoteView) -> bool {
    |n: NoteView| !(n.key == key && !keep.contains(n.id))
}

/// `s` with `n` filed in `n`'s slot, replacing what was there.
pub open spec fn upsert(s: Seq<NoteView>, n: NoteView) -> Seq<NoteView> {
    s.filter(not_in_slot(n.key, n.id)).push(n)
}

/// `s` with each of `ns` filed in turn.
pub open spec fn upsert_all(s: Seq<NoteView>, ns: Seq<NoteView>) -> Seq<NoteView>
    decreases ns.len(),
{
    if ns.len() == 0 {
        s
    } else {
        upsert(upsert_all(s, ns.drop_last()), ns.last())
    }
}

/// The notification in slot (`key`, `id`) of `s`, if any.
pub open spec fn lookup(s: Seq<NoteView>, key: Seq<char>, id: Seq<char>) -> Option<NoteView> {
    if exists|i: int| 0 <= i < s.len() && in_slot(s[i], key, id) {
        Some(s[choose|i: int| 0 <= i < s.len() && in_slot(s[i], key, id)])
    } else {
        None
    }
}

/// A filter keeps distinct slots distinct.
pub proof fn lemma_filter_unique(s: Seq<NoteView>, p: spec_fn(NoteView) -> bool)
    requires
        unique_slots(s),
    ensures
        unique_slots(s.filter(p)),
    decreases s.len(),
{
    reveal(Seq::filter);
    if s.len() > 0 {
        let t = s.drop_last();
        assert(unique_slots(t));
        lemma_filter_unique(t, p);
        if p(s.last()) {
            let f = t.filter(p);
            assert forall|j: int| 0 <= j < f.len() implies !in_slot(f[j], s.last().key, s.last().id) by {
                assert(f.contains(f[j]));
                t.lemma_filter_contains_rev(p, f[j]);
                let k = choose|k: int| 0 <= k < t.len() && t[k] == f[j];
                assert(s[k] == t[k]);
                assert(!in_slot(s[k], s[s.len() - 1].key, s[s.len() - 1].id));
            }
            assert(s.filter(p) == f.push(s.last()));
        }
    }
}

/// In a registry, the notifications in one slot are the one that [`lookup`] finds, or none.
pub proof fn lemma_slot_filter(s: Seq<NoteView>, key: Seq<char>, id: Seq<char>)
    requires
        unique_slots(s),
    ensures
        s.filter(in_slot_pred(key, id)) == match lookup(s, key, id) {
            Some(n) => seq![n],
            None => Seq::<NoteView>::empty(),
        },
    decreases s.len(),
{
    reveal(Seq::filter);
    let p = in_slot_pred(key, id);
    if s.len() == 0 {
        assert(s.filter(p) =~= Seq::<NoteView>::empty());
    } else {
        let t = s.drop_last();
        let last = s.last();
        assert(unique_slots(t));
        lemma_slot_filter(t, key, id);
        if in_slot(last, key, id) {
            assert(lookup(t, key, id) is None) by {
                if exists|i: int| 0 <= i < t.len() && in_slot(t[i], key, id) {
                    let i = choose|i: int| 0 <= i < t.len() && in_slot(t[i], key, id);
                    assert(s[i] == t[i]);
                    assert(!in_slot(s[i], s[s.len() - 1].key, s[s.len() - 1].id));
                }
            }
            assert(in_slot(s[s.len() - 1], key, id));
            let c = choose|i: int| 0 <= i < s.len() && in_slot(s[i], key, id);
            assert(c == s.len() - 1) by {
                if c != s.len() - 1 {
                    assert(!in_slot(s[c], s[s.len() - 1].key, s[s.len() - 1].id));
                }
            }
            assert(s.filter(p) =~= seq![last]);
        } else {
            assert(s.filter(p) == t.filter(p));
            if exists|i: int| 0 <= i < s.len() && in_slot(s[i], key, id) {
                let i = choose|i: int| 0 <= i < s.len() && in_slot(s[i], key, id);
                assert(t[i] == s[i]);
                assert(exists|i: int| 0 <= i < t.len() && in_slot(t[i], key, id));
                let c = choose|i: int| 0 <= i < t.len() && in_slot(t[i], key, id);
                assert(c == i) by {
                    if c != i {
                        assert(s[c] == t[c]);
                        assert(!in_slot(s[c], s[i].key, s[i].id));
                    }
                }
                assert(lookup(s, key, id) == lookup(t, key, id));
            } else {
                assert(lookup(t, key, id) is None) by {
                    if exists|i: int| 0 <= i < t.len() && in_slot(t[i], key, id) {
                        let i = choose|i: int| 0 <= i < t.len() && in_slot(t[i], key, id);
                        assert(s[i] == t[i]);
                    }
                }
            }
        }
    }
}

/// Filing a notification keeps slots distinct.
pub proof fn lemma_upsert_unique(s: Seq<NoteView>, n: NoteView)
    requires
        unique_slots(s),
    ensures
        unique_slots(upsert(s, n)),
{
    let p = not_in_slot(n.key, n.id);
    lemma_filter_unique(s, p);
    let f = s.filter(p);
    assert forall|j: int| 0 <= j < f.len() implies !in_slot(f[j], n.key, n.id) by {
        s.lemma_filter_pred(p, j);
    }
}

/// Filing notifications in turn keeps slots distinct.
pub proof fn lemma_upsert_all_unique(s: Seq<NoteView>, ns: Seq<NoteView>)
    requires
        unique_slots(s),
    ensures
        unique_slots(upsert_all(s, ns)),
    decreases ns.len(),
{
    if ns.len() > 0 {
        lemma_upsert_all_unique(s, ns.drop_last());
        lemma_upsert_unique(upsert_all(s, ns.drop_last()), ns.last());
    }
}

/// After a notification is filed, its slot holds it.
pub proof fn law_lookup_after_upsert(s: Seq<NoteView>, n: NoteView)
    ensures
        lookup(upsert(s, n), n.key, n.id) == Some(n),
{
    let p = not_in_slot(n.key, n.id);
    let f = s.filter(p);
    let u = upsert(s, n);
    assert(in_slot(u[u.len() - 1], n.key, n.id));
    let c = choose|i: int| 0 <= i < u.len() && in_slot(u[i], n.key, n.id);
    assert(c == u.len() - 1) by {
        if c != u.len() - 1 {
            assert(u[c] == f[c]);
            s.lemma_filter_pred(p, c);
        }
    }
}

/// What a filter keeps: lookups in other slots are unchanged when the filter keeps
/// everything in those slots and drops everything in `(key, id)` or keeps it too.
proof fn lemma_lookup_filter(s: Seq<NoteView>, p: spec_fn(NoteView) -> bool, key: Seq<char>, id: Seq<char>)
    requires
        unique_slots(s),
        forall|n: NoteView| in_slot(n, key, id) ==> #[trigger] p(n),
    ensures
        lookup(s.filter(p), key, id) == lookup(s, key, id),
{
    lemma_filter_unique(s, p);
    let f = s.filter(p);
    if exists|i: int| 0 <= i < s.len() && in_slot(s[i], key, id) {
        let i = choose|i: int| 0 <= i < s.len() && in_slot(s[i], key, id);
        s.lemma_filter_contains(p, i);
        let k = choose|k: int| 0 <= k < f.len() && f[k] == s[i];
        assert(in_slot(f[k], key, id));
        let cf = choose|k: int| 0 <= k < f.len() && in_slot(f[k], key, id);
        assert(f[cf] == f[k]) by {
            if cf != k {
                assert(!in_slot(f[cf], f[k].key, f[k].id));
            }
        }
    } else {
        if exists|k: int| 0 <= k < f.len() && in_slot(f[k], key, id) {
            let k = choose|k: int| 0 <= k < f.len() && in_slot(f[k], key, id);
            assert(f.contains(f[k]));
            s.lemma_filter_contains_rev(p, f[k]);
        }
    }
}

/// Filing a notification leaves every other slot as it was.
pub proof fn law_upsert_keeps_other_slots(s: Seq<NoteView>, n: NoteView, key: Seq<char>, id: Seq<char>)
    requires
        unique_slots(s),
        !(key == n.key && id == n.id),
    ensures
        lookup(upsert(s, n), key, id) == lookup(s, key, id),
{
    let p = not_in_slot(n.key, n.id);
    lemma_lookup_filter(s, p, key, id);
    let f = s.filter(p);
    lemma_filter_unique(s, p);
    let u = f.push(n);
    if exists|i: int| 0 <= i < f.len() && in_slot(f[i], key, id) {
        let i = choose|i: int| 0 <= i < f.len() && in_slot(f[i], key, id);
        assert(u[i] == f[i]);
        let c = choose|j: int| 0 <= j < u.len() && in_slot(u[j], key, id);
        assert(c < f.len());
        assert(u[c] == f[c]);
    } else {
        if exists|j: int| 0 <= j < u.len() && in_slot(u[j], key, id) {
            let j = choose|j: int| 0 <= j < u.len() && in_slot(u[j], key, id);
            assert(j < f.len());
            assert(u[j] == f[j]);
        }
    }
}

/// After a slot is cancelled it is empty, and every other slot is as it was.
pub proof fn law_cancel_empties_slot(s: Seq<NoteView>, key: Seq<char>, id: Seq<char>, key2: Seq<char>, id2: Seq<char>)
    requires
        unique_slots(s),
    ensures
        lookup(s.filter(not_in_slot(key, id)), key, id) is None,
        !(key2 == key && id2 == id) ==> lookup(s.filter(not_in_slot(key, id)), key2, id2) == lookup(s, key2, id2),
{
    let p = not_in_slot(key, id);
    let f = s.filter(p);
    if exists|k: int| 0 <= k < f.len() && in_slot(f[k], key, id) {
        let k = choose|k: int| 0 <= k < f.len() && in_slot(f[k], key, id);
        s.lemma_filter_pred(p, k);
    }
    if !(key2 == key && id2 == id) {
        lemma_lookup_filter(s, p, key2, id2);
    }
}

/// After a group is cancelled no notification is filed under its key, and every slot
/// of another group is as it was.
pub proof fn law_cancel_group_empties_group(s: Seq<NoteView>, key: Seq<char>, key2: Seq<char>, id2: Seq<char>)
    requires
        unique_slots(s),
    ensures
        forall|i: int| 0 <= i < s.filter(not_in_group(key)).len() ==> (#[trigger] s.filter(not_in_group(key))[i]).key != key,
        key2 != key ==> lookup(s.filter(not_in_group(key)), key2, id2) == lookup(s, key2, id2),
{
    let p = not_in_group(key);
    assert forall|i: int| 0 <= i < s.filter(p).len() implies (#[trigger] s.filter(p)[i]).key != key by {
        s.lemma_filter_pred(p, i);
    }
    if key2 != key {
        lemma_lookup_filter(s, p, key2, id2);
    }
}

/// Filing the same notification twice is the same as filing it once.
pub proof fn law_upsert_idempotent(s: Seq<NoteView>, n: NoteView)
    ensures
        upsert(upsert(s, n), n) == upsert(s, n),
{
    reveal(Seq::filter);
    let p = not_in_slot(n.key, n.id);
    let u = upsert(s, n);
    let f = s.filter(p);
    assert(u.drop_last() =~= f);
    assert(u.filter(p) == f.filter(p));
    lemma_filter_all(f, p);
}

/// A filter that holds of every element keeps the whole sequence.
proof fn lemma_filter_all(f: Seq<NoteView>, p: spec_fn(NoteView) -> bool)
    requires
        forall|i: int| 0 <= i < f.len() ==> p(#[trigger] f[i]),
    ensures
        f.filter(p) == f,
    decreases f.len(),
{
    reveal(Seq::filter);
    if f.len() > 0 {
        lemma_filter_all(f.drop_last(), p);
        assert(f.drop_last().push(f.last()) =~= f);
    }
}

/// Filing every notification of a list with distinct slots, in order, into an empty
/// registry gives back the list: what is saved is what is loaded.
pub proof fn law_restore_snapshot(s: Seq<NoteView>)
    requires
        unique_slots(s),
    ensures
        upsert_all(Seq::empty(), s) == s,
    decreases s.len(),
{
    if s.len() > 0 {
        let t = s.drop_last();
        assert(unique_slots(t));
        law_restore_snapshot(t);
        let p = not_in_slot(s.last().key, s.last().id);
        assert forall|i: int| 0 <= i < t.len() implies p(#[trigger] t[i]) by {
            assert(s[i] == t[i]);
            assert(!in_slot(s[i], s[s.len() - 1].key, s[s.len() - 1].id));
        }
        lemma_filter_all(t, p);
        assert(t.push(s.last()) =~= s);
    }
}

/// A slot is filled after filing a list exactly when it was filled before or some
/// notification of the list is for it; slots that no notification of the list is for
/// are as they were.
pub proof fn lemma_lookup_upsert_all(s: Seq<NoteView>, ns: Seq<NoteView>, key: Seq<char>, id: Seq<char>)
    requires
        unique_slots(s),
    ensures
        lookup(upsert_all(s, ns), key, id) is Some <==> (lookup(s, key, id) is Some || exists|j: int|
            0 <= j < ns.len() && in_slot(#[trigger] ns[j], key, id)),
        (forall|j: int| 0 <= j < ns.len() ==> !in_slot(#[trigger] ns[j], key, id)) ==> lookup(upsert_all(s, ns), key, id)
            == lookup(s, key, id),
    decreases ns.len(),
{
    if ns.len() > 0 {
        let t = ns.drop_last();
        let n = ns.last();
        lemma_lookup_upsert_all(s, t, key, id);
        lemma_upsert_all_unique(s, t);
        if key == n.key && id == n.id {
            law_lookup_after_upsert(upsert_all(s, t), n);
            assert(in_slot(ns[ns.len() - 1], key, id));
        } else {
            law_upsert_keeps_other_slots(upsert_all(s, t), n, key, id);
            if exists|j: int| 0 <= j < ns.len() && in_slot(#[trigger] ns[j], key, id) {
                let j = choose|j: int| 0 <= j < ns.len() && in_slot(#[trigger] ns[j], key, id);
                assert(j < t.len());
                assert(t[j] == ns[j]);
            }
            if exists|j: int| 0 <= j < t.len() && in_slot(#[trigger] t[j], key, id) {
                let j = choose|j: int| 0 <= j < t.len() && in_slot(#[trigger] t[j], key, id);
                assert(ns[j] == t[j]);
            }
        }
    }
}

/// The ids of a list of notifications.
pub open spec fn slot_ids(s: Seq<NoteView>) -> Seq<Seq<char>> {
    s.map_values(|n: NoteView| n.id)
}

/// Replacing a group by a list of notifications of that group (dropping the group's
/// notifications whose ids are not in the list, then filing the list) leaves the group
/// holding exactly the list's ids, and every other group as it was.
pub proof fn law_replace_group(s: Seq<NoteView>, key: Seq<char>, ns: Seq<NoteView>, id: Seq<char>, key2: Seq<char>)
    requires
        unique_slots(s),
        forall|j: int| 0 <= j < ns.len() ==> (#[trigger] ns[j]).key == key,
    ensures
        lookup(upsert_all(s.filter(kept_in_group(key, slot_ids(ns))), ns), key, id) is Some <==> slot_ids(ns).contains(id),
        key2 != key ==> lookup(upsert_all(s.filter(kept_in_group(key, slot_ids(ns))), ns), key2, id) == lookup(s, key2, id),
{
    let p = kept_in_group(key, slot_ids(ns));
    let f = s.filter(p);
    lemma_filter_unique(s, p);
    lemma_lookup_upsert_all(f, ns, key, id);
    if lookup(f, key, id) is Some {
        let k = choose|k: int| 0 <= k < f.len() && in_slot(f[k], key, id);
        s.lemma_filter_pred(p, k);
    }
    if slot_ids(ns).contains(id) {
        let j = choose|j: int| 0 <= j < slot_ids(ns).len() && slot_ids(ns)[j] == id;
        assert(in_slot(ns[j], key, id));
    }
    if exists|j: int| 0 <= j < ns.len() && in_slot(#[trigger] ns[j], key, id) {
        let j = choose|j: int| 0 <= j < ns.len() && in_slot(#[trigger] ns[j], key, id);
        assert(slot_ids(ns)[j] == id);
    }
    if key2 != key {
        lemma_lookup_upsert_all(f, ns, key2, id);
        assert forall|n: NoteView| in_slot(n, key2, id) implies #[trigger] p(n) by {}
        lemma_lookup_filter(s, p, key2, id);
    }
}

/// Which notifications a removal takes out.
enum Selection {
    Slot { key: String, id: String },
    Group { key: String },
    GroupExcept { key: String, keep: Vec<String> },
}

/// What a removal selection holds, as a predicate on notifications.
spec fn selection_pred(sel: Selection) -> spec_fn(NoteView) -> bool {
    match sel {
        Selection::Slot { key, id } => in_slot_pred(key@, id@),
        Selection::Group { key } => in_group(key@),
        Selection::GroupExcept { key, keep } => dropped_from_group(key@, keep@.map_values(|s: String| s@)),
    }
}

/// The complement of [`selection_pred`].
spec fn selection_keep(sel: Selection) -> spec_fn(NoteView) -> bool {
    |n: NoteView| !selection_pred(sel)(n)
}

/// Whether `id` is one of `ids`.
fn contains_text(ids: &Vec<String>, id: &str) -> (r: bool)
    ensures
        r == ids@.map_values(|s: String| s@).contains(id@),
{
    let ghost v = ids@.map_values(|s: String| s@);
    let mut i: usize = 0;
    while i < ids.len()
        invariant
            i <= ids@.len(),
            v == ids@.map_values(|s: String| s@),
            forall|j: int| 0 <= j < i ==> v[j] != id@,
        decreases ids@.len() - i,
    {
        if same_text(ids[i].as_str(), id) {
            assert(v[i as int] == id@);
            return true;
        }
        i = i + 1;
    }
    assert(!v.contains(id@)) by {
        if v.contains(id@) {
            let j = choose|j: int| 0 <= j < v.len() && v[j] == id@;
        }
    }
    false
}

/// A copy of a list of strings.
pub fn copy_strings(v: &Vec<String>) -> (r: Vec<String>)
    ensures
        r@ == v@,
{
    let mut r: Vec<String> = Vec::new();
    let mut i: usize = 0;
    while i < v.len()
        invariant
            i <= v@.len(),
            r@ =~= v@.take(i as int),
        decreases v@.len() - i,
    {
        r.push(v[i].clone());
        i = i + 1;
    }
    assert(v@.take(v@.len() as int) =~= v@);
    r
}

/// Whether the selection takes out `n`.
fn selects(sel: &Selection, n: &ScheduledNotification) -> (r: bool)
    ensures
        r == selection_pred(*sel)(n@),
{
    match sel {
        Selection::Slot { key, id } => same_text(n.key.as_str(), key.as_str()) && same_text(n.id.as_str(), id.as_str()),
        Selection::Group { key } => same_text(n.key.as_str(), key.as_str()),
        Selection::GroupExcept { key, keep } => same_text(n.key.as_str(), key.as_str()) && !contains_text(keep, n.id.as_str()),
    }
}

/// The scheduled notifications, at most one per (group key, id) slot.
pub struct NotificationRegistry {
    entries: Vec<ScheduledNotification>,
}

impl View for NotificationRegistry {
    type V = Seq<NoteView>;

    closed spec fn view(&self) -> Seq<NoteView> {
        notes_view(self.entries@)
    }
}

impl NotificationRegistry {
    #[verifier::type_invariant]
    pub(crate) open spec fn slots_distinct(&self) -> bool {
        unique_slots(self@)
    }

    /// An empty registry.
    pub fn new() -> (r: Self)
        ensures
            r@ == Seq::<NoteView>::empty(),
            unique_slots(r@),
    {
        let r = NotificationRegistry { entries: Vec::new() };
        assert(r@ =~= Seq::<NoteView>::empty());
        r
    }

    /// How many notifications are filed.
    pub fn len(&self) -> (n: usize)
        ensures
            n == self@.len(),
            unique_slots(self@),
    {
        proof {
            use_type_invariant(self);
        }
        self.entries.len()
    }

    /// The `i`th notification, in filing order.
    pub fn entry(&self, i: usize) -> (n: &ScheduledNotification)
        requires
            i < self@.len(),
        ensures
            n@ == self@[i as int],
    {
        &self.entries[i]
    }

    /// Copies of all filed notifications, in filing order (what is written to disk).
    pub fn snapshot(&self) -> (v: Vec<ScheduledNotification>)
        ensures
            notes_view(v@) == self@,
            unique_slots(self@),
    {
        proof {
            use_type_invariant(self);
        }
        let mut v: Vec<ScheduledNotification> = Vec::new();
        let mut i: usize = 0;
        while i < self.entries.len()
            invariant
                i <= self.entries@.len(),
                notes_view(v@) =~= self@.take(i as int),
            decreases self.entries@.len() - i,
        {
            let c = self.entries[i].copy();
            v.push(c);
            assert(self@[i as int] == self.entries@[i as int]@);
            assert(notes_view(v@) =~= self@.take(i as int).push(c@));
            assert(self@.take(i + 1) =~= self@.take(i as int).push(self@[i as int]));
            i = i + 1;
        }
        assert(self@.take(self@.len() as int) =~= self@);
        v
    }

    /// Where slot (`key`, `id`) stands, if it is filled.
    fn position(&self, key: &str, id: &str) -> (r: Option<usize>)
        ensures
            match r {
                Some(i) => i < self@.len() && in_slot(self@[i as int], key@, id@),
                None => forall|i: int| 0 <= i < self@.len() ==> !in_slot(self@[i], key@, id@),
            },
    {
        let mut i: usize = 0;
        while i < self.entries.len()
            invariant
                i <= self.entries@.len(),
                forall|j: int| 0 <= j < i ==> !in_slot(self@[j], key@, id@),
            decreases self.entries@.len() - i,
        {
            if same_text(self.entries[i].key.as_str(), key) && same_text(self.entries[i].id.as_str(), id) {
                return Some(i);
            }
            i = i + 1;
        }
        None
    }

    /// The notification in slot (`key`, `id`), if any.
    pub fn get(&self, key: &str, id: &str) -> (r: Option<&ScheduledNotification>)
        ensures
            match r {
                Some(n) => lookup(self@, key@, id@) == Some(n@),
                None => lookup(self@, key@, id@) is None,
            },
    {
        proof {
            use_type_invariant(self);
        }
        match self.position(key, id) {
            Some(i) => {
                proof {
                    let j = choose|j: int| 0 <= j < self@.len() && in_slot(self@[j], key@, id@);
                    assert(j == i as int);
                }
                Some(&self.entries[i])
            },
            None => None,
        }
    }

    /// Whether some notification is filed under group `key`.
    pub fn contains_group(&self, key: &str) -> (r: bool)
        ensures
            r == exists|i: int| 0 <= i < self@.len() && self@[i].key == key@,
    {
        let mut i: usize = 0;
        while i < self.entries.len()
            invariant
                i <= self.entries@.len(),
                forall|j: int| 0 <= j < i ==> self@[j].key != key@,
            decreases self.entries@.len() - i,
        {
            if same_text(self.entries[i].key.as_str(), key) {
                assert(self@[i as int].key == key@);
                return true;
            }
            i = i + 1;
        }
        false
    }

    /// How many notifications group `key` holds.
    pub fn group_len(&self, key: &str) -> (n: usize)
        ensures
            n == self@.filter(in_group(key@)).len(),
    {
        let ghost p = in_group(key@);
        let mut n: usize = 0;
        let mut i: usize = 0;
        assert(self@.take(0) =~= Seq::<NoteView>::empty());
        assert(Seq::<NoteView>::empty().filter(p) =~= Seq::<NoteView>::empty()) by {
            reveal(Seq::filter);
        }
        while i < self.entries.len()
            invariant
                i <= self.entries@.len(),
                n == self@.take(i as int).filter(p).len(),
                n <= i,
                p == in_group(key@),
            decreases self.entries@.len() - i,
        {
            let ghost before = self@.take(i as int);
            assert(self@.take(i + 1) =~= before.push(self@[i as int]));
            proof {
                before.lemma_filter_push(self@[i as int], p);
            }
            if same_text(self.entries[i].key.as_str(), key) {
                n = n + 1;
            }
            i = i + 1;
        }
        assert(self@.take(self@.len() as int) =~= self@);
        n
    }

    /// Takes out the notifications that `sel` selects, and returns them in filing order.
    fn remove_selected(&mut self, sel: &Selection) -> (removed: Vec<ScheduledNotification>)
        ensures
            final(self)@ == old(self)@.filter(selection_keep(*sel)),
            notes_view(removed@) == old(self)@.filter(selection_pred(*sel)),
    {
        proof {
            use_type_invariant(&*self);
        }
        let ghost old_view = self@;
        let ghost keep = selection_keep(*sel);
        let ghost take = selection_pred(*sel);
        let mut entries: Vec<ScheduledNotification> = Vec::new();
        std::mem::swap(&mut entries, &mut self.entries);
        assert(notes_view(entries@) == old_view);
        let mut kept: Vec<ScheduledNotification> = Vec::new();
        let mut removed: Vec<ScheduledNotification> = Vec::new();
        let mut i: usize = 0;
        assert(old_view.take(0) =~= Seq::<NoteView>::empty());
        assert(Seq::<NoteView>::empty().filter(keep) =~= Seq::<NoteView>::empty()) by {
            reveal(Seq::filter);
        }
        assert(Seq::<NoteView>::empty().filter(take) =~= Seq::<NoteView>::empty()) by {
            reveal(Seq::filter);
        }
        while i < entries.len()
            invariant
                i <= entries@.len(),
                notes_view(entries@) == old_view,
                notes_view(kept@) == old_view.take(i as int).filter(keep),
                notes_view(removed@) == old_view.take(i as int).filter(take),
                keep == selection_keep(*sel),
                take == selection_pred(*sel),
            decreases entries@.len() - i,
        {
            let ghost before = old_view.take(i as int);
            let ghost x = old_view[i as int];
            assert(old_view.take(i + 1) =~= before.push(x));
            proof {
                before.lemma_filter_push(x, keep);
                before.lemma_filter_push(x, take);
            }
            let n = entries[i].copy();
            if selects(sel, &n) {
                removed.push(n);
                assert(notes_view(removed@) =~= before.filter(take).push(x));
            } else {
                kept.push(n);
                assert(notes_view(kept@) =~= before.filter(keep).push(x));
            }
            i = i + 1;
        }
        assert(old_view.take(old_view.len() as int) =~= old_view);
        proof {
            lemma_filter_unique(old_view, keep);
        }
        self.entries = kept;
        removed
    }

    /// Takes out the notification in slot (`key`, `id`), if there is one.
    pub fn cancel(&mut self, key: &str, id: &str) -> (removed: Option<ScheduledNotification>)
        ensures
            final(self)@ == old(self)@.filter(not_in_slot(key@, id@)),
            unique_slots(final(self)@),
            match removed {
                Some(n) => lookup(old(self)@, key@, id@) == Some(n@),
                None => lookup(old(self)@, key@, id@) is None,
            },
    {
        proof {
            use_type_invariant(&*self);
        }
        let ghost old_view = self@;
        let sel = Selection::Slot { key: key.to_string(), id: id.to_string() };
        let mut removed = self.remove_selected(&sel);
        assert(selection_keep(sel) =~= not_in_slot(key@, id@));
        assert(selection_pred(sel) =~= in_slot_pred(key@, id@));
        proof {
            lemma_slot_filter(old_view, key@, id@);
        }
        let ghost rv = notes_view(removed@);
        proof {
            use_type_invariant(&*self);
        }
        if removed.len() > 0 {
            let n = removed.remove(0);
            assert(n@ == rv[0]);
            Some(n)
        } else {
            assert(rv.len() == 0);
            None
        }
    }

    /// Takes out every notification of group `key`, and returns them in filing order.
    pub fn cancel_group(&mut self, key: &str) -> (removed: Vec<ScheduledNotification>)
        ensures
            final(self)@ == old(self)@.filter(not_in_group(key@)),
            notes_view(removed@) == old(self)@.filter(in_group(key@)),
            unique_slots(final(self)@),
    {
        let sel = Selection::Group { key: key.to_string() };
        let removed = self.remove_selected(&sel);
        assert(selection_keep(sel) =~= not_in_group(key@));
        assert(selection_pred(sel) =~= in_group(key@));
        proof {
            use_type_invariant(&*self);
        }
        removed
    }

    /// Takes out the notifications of group `key` whose id is not among `keep`, and
    /// returns them in filing order.
    pub fn retain_group(&mut self, key: &str, keep: &Vec<String>) -> (removed: Vec<ScheduledNotification>)
        ensures
            final(self)@ == old(self)@.filter(kept_in_group(key@, keep@.map_values(|s: String| s@))),
            notes_view(removed@) == old(self)@.filter(dropped_from_group(key@, keep@.map_values(|s: String| s@))),
            unique_slots(final(self)@),
    {
        let sel = Selection::GroupExcept { key: key.to_string(), keep: copy_strings(keep) };
        let removed = self.remove_selected(&sel);
        assert(selection_keep(sel) =~= kept_in_group(key@, keep@.map_values(|s: String| s@)));
        assert(selection_pred(sel) =~= dropped_from_group(key@, keep@.map_values(|s: String| s@)));
        proof {
            use_type_invariant(&*self);
        }
        removed
    }

    /// Files `n` in its slot, replacing and returning what was there.
    pub fn upsert(&mut self, n: ScheduledNotification) -> (replaced: Option<ScheduledNotification>)
        ensures
            final(self)@ == upsert(old(self)@, n@),
            unique_slots(final(self)@),
            match replaced {
                Some(r) => lookup(old(self)@, n@.key, n@.id) == Some(r@),
                None => lookup(old(self)@, n@.key, n@.id) is None,
            },
    {
        proof {
            use_type_invariant(&*self);
            lemma_upsert_unique(self@, n@);
        }
        let replaced = self.cancel(n.key.as_str(), n.id.as_str());
        let ghost mid = self@;
        let mut entries: Vec<ScheduledNotification> = Vec::new();
        std::mem::swap(&mut entries, &mut self.entries);
        assert(notes_view(entries@) == mid);
        entries.push(n);
        assert(notes_view(entries@) =~= mid.push(n@));
        self.entries = entries;
        proof {
            use_type_invariant(&*self);
        }
        replaced
    }
}

} // verus!
