//! The notification scheduler: requests that add, update, replace or delete groups of
//! notifications, and what happens to a notification once it has been dispatched.
//! Timers, HTTP delivery and persistence are driven from outside; this module decides
//! what the registry holds.

use vstd::prelude::*;
use vstd::string::*;
use crate::registry::{
    dropped_from_group, in_group, kept_in_group, not_in_group, not_in_slot,
    notes_view, slot_ids, unique_slots, upsert, upsert_all, NoteView, NotificationRegistry, ScheduledNotification,
};
use crate::text::{lowercase_of, same_text, to_lowercase, trim, trim_str};

verus! {

/// One notification of a scheduling request; every part may be missing.
#[derive(Clone, Debug)]
pub struct NotificationItem {
    pub id: Option<String>,
    pub kind: Option<String>,
    /// When to dispatch, in milliseconds since the Unix epoch.
    pub run_at: Option<i64>,
    /// The JSON document to send, as text.
    pub data: Option<String>,
}

/// The value of a [`NotificationItem`].
pub struct ItemView {
    pub id: Option<Seq<char>>,
    pub kind: Option<Seq<char>>,
    pub run_at: Option<i64>,
    pub data: Option<Seq<char>>,
}

/// The value of an optional string.
pub open spec fn opt_view(o: Option<String>) -> Option<Seq<char>> {
    match o {
        Some(s) => Some(s@),
        None => None,
    }
}

impl View for NotificationItem {
    type V = ItemView;

    open spec fn view(&self) -> ItemView {
        ItemView { id: opt_view(self.id), kind: opt_view(self.kind), run_at: self.run_at, data: opt_view(self.data) }
    }
}

/// A request to the scheduler: an action ("add", "update", "update_force" or "delete",
/// in any case), a group key, and the notifications it concerns.
#[derive(Clone, Debug)]
pub struct ScheduleRequest {
    pub action: String,
    pub key: String,
    pub items: Vec<NotificationItem>,
}

/// The action of a request that names none.
pub fn default_action() -> (r: String)
    ensures
        r@ == "add"@,
{
    "add".to_string()
}

/// What a request asks for.
#[derive(Clone, Copy, Debug, PartialEq, Eq, Structural)]
pub enum ScheduleAction {
    /// Schedule each item, generating ids where missing.
    Add,
    /// Reschedule each item under its given id.
    Update,
    /// Make the group hold exactly the items (ids generated where missing).
    UpdateForce,
    /// Cancel the whole group.
    Delete,
}

/// The action that a lowercased action name denotes.
pub open spec fn action_of(s: Seq<char>) -> Option<ScheduleAction> {
    if s == "add"@ {
        Some(ScheduleAction::Add)
    } else if s == "update"@ {
        Some(ScheduleAction::Update)
    } else if s == "update_force"@ {
        Some(ScheduleAction::UpdateForce)
    } else if s == "delete"@ {
        Some(ScheduleAction::Delete)
    } else {
        None
    }
}

/// The name of an action, as the error messages spell it.
pub open spec fn action_name(a: ScheduleAction) -> Seq<char> {
    match a {
        ScheduleAction::Add => "add"@,
        ScheduleAction::Update => "update"@,
        ScheduleAction::UpdateForce => "update_force"@,
        ScheduleAction::Delete => "delete"@,
    }
}

/// Reads a lowercased action name.
pub fn parse_action(lowered: &str) -> (r: Option<ScheduleAction>)
    ensures
        r == action_of(lowered@),
{
    if same_text(lowered, "add") {
        Some(ScheduleAction::Add)
    } else if same_text(lowered, "update") {
        Some(ScheduleAction::Update)
    } else if same_text(lowered, "update_force") {
        Some(ScheduleAction::UpdateForce)
    } else if same_text(lowered, "delete") {
        Some(ScheduleAction::Delete)
    } else {
        None
    }
}

fn action_name_text(a: ScheduleAction) -> (r: String)
    ensures
        r@ == action_name(a),
{
    match a {
        ScheduleAction::Add => "add".to_string(),
        ScheduleAction::Update => "update".to_string(),
        ScheduleAction::UpdateForce => "update_force".to_string(),
        ScheduleAction::Delete => "delete".to_string(),
    }
}

/// Why an item of an "add", "update" or "update_force" request is refused, if it is:
/// "update" needs an id; every action needs a time and data.
pub open spec fn item_error(a: ScheduleAction, item: ItemView) -> Option<Seq<char>> {
    if a == ScheduleAction::Update && item.id is None {
        Some("id is required for update"@)
    } else if item.run_at is None {
        Some("run_at is required for "@ + action_name(a))
    } else if item.data is None {
        Some("data is required for "@ + action_name(a))
    } else {
        None
    }
}

/// Checks one item of a request.
pub fn check_item(a: ScheduleAction, item: &NotificationItem) -> (r: Option<String>)
    ensures
        opt_view(r) == item_error(a, item@),
{
    if a == ScheduleAction::Update && item.id.is_none() {
        Some("id is required for update".to_string())
    } else if item.run_at.is_none() {
        Some("run_at is required for ".to_string().concat(action_name_text(a).as_str()))
    } else if item.data.is_none() {
        Some("data is required for ".to_string().concat(action_name_text(a).as_str()))
    } else {
        None
    }
}

/// The notification that an accepted item becomes in group `key` under `id`.
pub open spec fn note_of(key: Seq<char>, item: ItemView, id: Seq<char>) -> NoteView {
    NoteView {
        id,
        key,
        kind: match item.kind {
            Some(k) => k,
            None => "default"@,
        },
        run_at: item.run_at->0,
        data: item.data->0,
        attempts: 0,
    }
}

/// A random (version 4) UUID as `uuid::Uuid` prints one: lowercase hexadecimal digits
/// in hyphenated groups, with version digit `4` and a variant digit `8`, `9`, `a` or `b`.
pub open spec fn is_uuid_v4_text(s: Seq<char>) -> bool {
    &&& s.len() == 36
    &&& forall|i: int|
        0 <= i < 36 ==> if i == 8 || i == 13 || i == 18 || i == 23 {
            s[i] == '-'
        } else {
            ('0' <= #[trigger] s[i] <= '9') || ('a' <= s[i] <= 'f')
        }
    &&& s[14] == '4'
    &&& (s[19] == '8' || s[19] == '9' || s[19] == 'a' || s[19] == 'b')
}

/// A new random id (`uuid::Uuid::new_v4`, printed).
/// Trusted: the text has the hyphenated lowercase form of a version-4 UUID (version and
/// variant bits set, the rest random); which one is chance.
#[verifier::external_body]
fn fresh_id() -> (s: String)
    ensures
        is_uuid_v4_text(s@),
{
    uuid::Uuid::new_v4().to_string()
}

/// The current time in milliseconds since the Unix epoch (`chrono::Utc::now`).
/// Trusted: the value is not before the epoch (chrono panics on such a clock); which
/// instant it is depends on the clock.
#[verifier::external_body]
fn now_millis() -> (t: i64)
    ensures
        t >= 0,
{
    chrono::Utc::now().timestamp_millis()
}

/// Whether `scheduled` are the notifications that the first `scheduled.len()` items of
/// an "add", "update" or "update_force" request become in group `key`: each is accepted,
/// keeps its given id or got a fresh one, and the item after them (if any) is refused.
pub open spec fn scheduled_from(a: ScheduleAction, key: Seq<char>, items: Seq<ItemView>, scheduled: Seq<NoteView>) -> bool {
    &&& scheduled.len() <= items.len()
    &&& forall|i: int|
        0 <= i < scheduled.len() ==> {
            &&& item_error(a, #[trigger] items[i]) is None
            &&& scheduled[i] == note_of(key, items[i], scheduled[i].id)
            &&& match items[i].id {
                Some(x) => scheduled[i].id == x,
                None => is_uuid_v4_text(scheduled[i].id),
            }
        }
    &&& scheduled.len() < items.len() ==> item_error(a, items[scheduled.len() as int]) is Some
}

/// The values of the items of a request.
pub open spec fn items_view(v: Seq<NotificationItem>) -> Seq<ItemView> {
    v.map_values(|i: NotificationItem| i@)
}

/// What a request did: its answer, the notifications it (re)scheduled, in order, and
/// those it cancelled, in filing order.
pub struct RequestOutcome {
    pub result: Result<Vec<String>, String>,
    pub scheduled: Vec<ScheduledNotification>,
    pub cancelled: Vec<ScheduledNotification>,
}

/// What became of a dispatched notification.
pub enum DispatchOutcome {
    /// It was taken out of its slot (`removed` tells whether the slot was filled).
    Deleted { removed: bool },
    /// Delivery failed and it is scheduled again.
    Retry { item: ScheduledNotification },
    /// Delivery failed too often; it was taken out of its slot.
    GaveUp { removed: bool },
}

/// The scheduler's settings and the notifications it holds.
pub struct NotificationManager {
    pub callback_url: Option<String>,
    pub persistence_path: String,
    pub delete_only_on_success: bool,
    pub retry_count: u32,
    /// Seconds between a failed delivery and the next attempt.
    pub retry_interval: u64,
    pub active_notifications: NotificationRegistry,
}

impl NotificationManager {
    /// A scheduler with the given settings and no notifications.
    pub fn new(
        callback_url: Option<String>,
        persistence_path: String,
        delete_only_on_success: bool,
        retry_count: u32,
        retry_interval: u64,
    ) -> (m: Self)
        ensures
            opt_view(m.callback_url) == opt_view(callback_url),
            m.persistence_path@ == persistence_path@,
            m.delete_only_on_success == delete_only_on_success,
            m.retry_count == retry_count,
            m.retry_interval == retry_interval,
            m.active_notifications@ == Seq::<NoteView>::empty(),
            unique_slots(m.active_notifications@),
    {
        NotificationManager {
            callback_url,
            persistence_path,
            delete_only_on_success,
            retry_count,
            retry_interval,
            active_notifications: NotificationRegistry::new(),
        }
    }

    /// Cancels the notification in slot (`key`, `id`); tells whether there was one.
    pub fn cancel(&mut self, key: String, id: String) -> (removed: bool)
        ensures
            final(self).same_settings(*old(self)),
            final(self).active_notifications@ == old(self).active_notifications@.filter(not_in_slot(key@, id@)),
            unique_slots(final(self).active_notifications@),
            opt_view(final(self).callback_url) == opt_view(old(self).callback_url),
            removed == (crate::registry::lookup(old(self).active_notifications@, key@, id@) is Some),
            final(self).retry_count == old(self).retry_count,
            final(self).retry_interval == old(self).retry_interval,
            final(self).delete_only_on_success == old(self).delete_only_on_success,
    {
        self.active_notifications.cancel(key.as_str(), id.as_str()).is_some()
    }

    /// Cancels every notification of group `key`, and returns them.
    pub fn cancel_group(&mut self, key: String) -> (removed: Vec<ScheduledNotification>)
        ensures
            final(self).same_settings(*old(self)),
            final(self).active_notifications@ == old(self).active_notifications@.filter(not_in_group(key@)),
            notes_view(removed@) == old(self).active_notifications@.filter(in_group(key@)),
            unique_slots(final(self).active_notifications@),
    {
        self.active_notifications.cancel_group(key.as_str())
    }

    /// Files `item` in its slot, replacing what was there; tells whether something was.
    pub fn schedule(&mut self, item: ScheduledNotification) -> (replaced: bool)
        ensures
            final(self).same_settings(*old(self)),
            final(self).active_notifications@ == upsert(old(self).active_notifications@, item@),
            unique_slots(final(self).active_notifications@),
            opt_view(final(self).callback_url) == opt_view(old(self).callback_url),
            replaced == (crate::registry::lookup(old(self).active_notifications@, item@.key, item@.id) is Some),
            final(self).retry_count == old(self).retry_count,
            final(self).retry_interval == old(self).retry_interval,
            final(self).delete_only_on_success == old(self).delete_only_on_success,
    {
        self.active_notifications.upsert(item).is_some()
    }

    /// Files the notifications read back from disk, in order.
    pub fn load_and_reschedule(&mut self, loaded: Vec<ScheduledNotification>)
        ensures
            final(self).same_settings(*old(self)),
            final(self).active_notifications@ == upsert_all(old(self).active_notifications@, notes_view(loaded@)),
            unique_slots(final(self).active_notifications@),
    {
        let ghost start = self.active_notifications@;
        let ghost lv = notes_view(loaded@);
        let mut i: usize = 0;
        assert(lv.take(0) =~= Seq::<NoteView>::empty());
        while i < loaded.len()
            invariant
                i <= loaded@.len(),
                lv == notes_view(loaded@),
                self.active_notifications@ == upsert_all(start, lv.take(i as int)),
            self.same_settings(*old(self)),
            decreases loaded@.len() - i,
        {
            assert(lv.take(i + 1).drop_last() =~= lv.take(i as int));
            let n = loaded[i].copy();
            self.active_notifications.upsert(n);
            i = i + 1;
        }
        assert(lv.take(loaded@.len() as int) =~= lv);
        proof {
            use_type_invariant(&self.active_notifications);
        }
    }

    /// The list of scheduled notifications, as it is written to disk.
    pub fn save_to_disk(&self) -> (v: Vec<ScheduledNotification>)
        ensures
            notes_view(v@) == self.active_notifications@,
            unique_slots(notes_view(v@)),
    {
        self.active_notifications.snapshot()
    }

    /// Whether two schedulers have the same settings.
    pub open spec fn same_settings(&self, other: Self) -> bool {
        &&& opt_view(self.callback_url) == opt_view(other.callback_url)
        &&& self.persistence_path@ == other.persistence_path@
        &&& self.delete_only_on_success == other.delete_only_on_success
        &&& self.retry_count == other.retry_count
        &&& self.retry_interval == other.retry_interval
    }

    /// Whether a dispatch counts as delivered: delivery succeeded, or no callback is
    /// configured (then nothing is sent, and that counts as success).
    pub open spec fn counts_delivered(&self, delivered: bool) -> bool {
        delivered || self.callback_url is None
    }

    /// Whether settling `item` with this delivery result reschedules it.
    pub open spec fn needs_retry_time(&self, item: NoteView, delivered: bool) -> bool {
        retry_due(self.delete_only_on_success, self.counts_delivered(delivered), item.attempts as nat, self.retry_count)
    }

    /// Settles a dispatched notification at time `now` (milliseconds since the epoch).
    /// `delivered` tells whether delivery succeeded; with no callback configured the
    /// dispatch counts as delivered whatever `delivered` says. A delivered notification,
    /// or any notification when deletion does not wait for success, leaves its slot.
    /// Otherwise its failure count goes up; below the retry limit it is rescheduled
    /// `retry_interval` seconds after `now`, and at the limit it leaves its slot.
    pub fn dispatch_at(&mut self, item: ScheduledNotification, delivered: bool, now: i64) -> (r: DispatchOutcome)
        requires
            old(self).delete_only_on_success && !old(self).counts_delivered(delivered) ==> item.attempts < u32::MAX,
            old(self).needs_retry_time(item@, delivered) ==> old(self).retry_interval <= 9_223_372_036_854_775
                && old(self).retry_interval * 1000 + now <= i64::MAX,
        ensures
            final(self).same_settings(*old(self)),
            unique_slots(final(self).active_notifications@),
            !old(self).delete_only_on_success || old(self).counts_delivered(delivered) ==> (r matches DispatchOutcome::Deleted { removed }
                && removed == (crate::registry::lookup(old(self).active_notifications@, item@.key, item@.id) is Some)
                && final(self).active_notifications@ == old(self).active_notifications@.filter(not_in_slot(item@.key, item@.id))),
            old(self).needs_retry_time(item@, delivered)
                ==> (r matches DispatchOutcome::Retry { item: next }
                && next@ == (NoteView { attempts: (item.attempts + 1) as u32, run_at: (now + old(self).retry_interval * 1000) as i64, ..item@ })
                && final(self).active_notifications@ == upsert(old(self).active_notifications@, next@)),
            old(self).delete_only_on_success && !old(self).counts_delivered(delivered) && item.attempts + 1 >= old(self).retry_count
                ==> (r matches DispatchOutcome::GaveUp { removed }
                && removed == (crate::registry::lookup(old(self).active_notifications@, item@.key, item@.id) is Some)
                && final(self).active_notifications@ == old(self).active_notifications@.filter(not_in_slot(item@.key, item@.id))),
    {
        let should_delete = if self.delete_only_on_success {
            delivered || self.callback_url.is_none()
        } else {
            true
        };
        if should_delete {
            let removed = self.cancel(item.key.clone(), item.id.clone());
            DispatchOutcome::Deleted { removed }
        } else if item.attempts + 1 < self.retry_count {
            let attempts = item.attempts + 1;
            let delay = (self.retry_interval * 1000) as i64;
            let run_at = now + delay;
            let next = ScheduledNotification { attempts, run_at, ..item };
            assert(next@ == (NoteView { attempts: (item.attempts + 1) as u32, run_at: (now + old(self).retry_interval * 1000) as i64, ..item@ }));
            let copy = next.copy();
            self.schedule(copy);
            DispatchOutcome::Retry { item: next }
        } else {
            let removed = self.cancel(item.key.clone(), item.id.clone());
            DispatchOutcome::GaveUp { removed }
        }
    }

    /// Settles a dispatched notification at the current time; see
    /// [`NotificationManager::dispatch_at`]. When a retry would be due at an instant past
    /// the largest representable one, nothing changes and the result is `None`.
    pub fn dispatch(&mut self, item: ScheduledNotification, delivered: bool) -> (r: Option<DispatchOutcome>)
        requires
            old(self).delete_only_on_success && !old(self).counts_delivered(delivered) ==> item.attempts < u32::MAX,
        ensures
            final(self).same_settings(*old(self)),
            unique_slots(final(self).active_notifications@),
            r is None ==> old(self).needs_retry_time(item@, delivered)
                && final(self).active_notifications@ == old(self).active_notifications@,
            !old(self).delete_only_on_success || old(self).counts_delivered(delivered) ==> (r matches Some(DispatchOutcome::Deleted { removed })
                && removed == (crate::registry::lookup(old(self).active_notifications@, item@.key, item@.id) is Some)
                && final(self).active_notifications@ == old(self).active_notifications@.filter(not_in_slot(item@.key, item@.id))),
            old(self).needs_retry_time(item@, delivered) && r is Some ==> (r matches Some(DispatchOutcome::Retry { item: next })
                && next@.attempts == item.attempts + 1
                && next@.run_at >= old(self).retry_interval * 1000
                && next@.id == item@.id && next@.key == item@.key && next@.data == item@.data && next@.kind == item@.kind
                && final(self).active_notifications@ == upsert(old(self).active_notifications@, next@)),
            old(self).delete_only_on_success && !old(self).counts_delivered(delivered) && item.attempts + 1 >= old(self).retry_count
                ==> (r matches Some(DispatchOutcome::GaveUp { removed })
                && removed == (crate::registry::lookup(old(self).active_notifications@, item@.key, item@.id) is Some)
                && final(self).active_notifications@ == old(self).active_notifications@.filter(not_in_slot(item@.key, item@.id))),
    {
        let now = now_millis();
        let retry = self.delete_only_on_success && !(delivered || self.callback_url.is_none())
            && item.attempts + 1 < self.retry_count;
        if retry {
            if self.retry_interval > 9_223_372_036_854_775 || now > 9_223_372_036_854_775_807 - (self.retry_interval * 1000) as i64 {
                proof {
                    use_type_invariant(&self.active_notifications);
                }
                return None;
            }
        }
        Some(self.dispatch_at(item, delivered, now))
    }
}

/// Whether a notification that carried `attempts` failures is rescheduled after a
/// dispatch: deletion waits for success, the dispatch did not count as delivered, and
/// one more failure stays below the retry limit.
pub open spec fn retry_due(delete_only_on_success: bool, counts_delivered: bool, attempts: nat, retry_count: u32) -> bool {
    delete_only_on_success && !counts_delivered && attempts + 1 < retry_count
}

/// The failure counts carried by the successive dispatches of one notification that
/// starts with `attempts` failures, when dispatch `i` counts as delivered exactly when
/// `results[i]` holds: each dispatch is followed by another only while a retry is due,
/// and as long as there are results.
pub open spec fn retry_chain(delete_only_on_success: bool, retry_count: u32, results: Seq<bool>, attempts: nat) -> Seq<nat>
    decreases results.len(),
{
    if results.len() == 0 {
        Seq::empty()
    } else if retry_due(delete_only_on_success, results[0], attempts, retry_count) {
        seq![attempts].add(retry_chain(delete_only_on_success, retry_count, results.drop_first(), attempts + 1))
    } else {
        seq![attempts]
    }
}

/// The largest number of dispatches a notification can see: the retry limit, and at
/// least one.
pub open spec fn max_dispatches(retry_count: u32) -> nat {
    if retry_count == 0 { 1 } else { retry_count as nat }
}

proof fn lemma_retry_chain(dos: bool, rc: u32, results: Seq<bool>, a: nat)
    ensures
        retry_chain(dos, rc, results, a).len() <= if a + 1 < rc { rc - a } else { 1 },
        forall|k: int| 0 <= k < retry_chain(dos, rc, results, a).len() ==> #[trigger] retry_chain(dos, rc, results, a)[k] == a + k,
        retry_chain(dos, rc, results, a).len() <= results.len(),
    decreases results.len(),
{
    if results.len() > 0 && retry_due(dos, results[0], a, rc) {
        lemma_retry_chain(dos, rc, results.drop_first(), a + 1);
        let rest = retry_chain(dos, rc, results.drop_first(), a + 1);
        let c = retry_chain(dos, rc, results, a);
        assert(c =~= seq![a].add(rest));
        assert forall|k: int| 0 <= k < c.len() implies #[trigger] c[k] == a + k by {
            if k > 0 {
                assert(c[k] == rest[k - 1]);
            }
        }
    }
}

/// Retries are bounded: a notification scheduled with no failures is dispatched at most
/// `max(retry_count, 1)` times, dispatch `k` (from 0) carries `k` failures, and after
/// the last of them (a delivery, or a failure at the limit) it is not dispatched again.
pub proof fn law_retries_bounded(delete_only_on_success: bool, retry_count: u32, results: Seq<bool>)
    ensures
        retry_chain(delete_only_on_success, retry_count, results, 0).len() <= max_dispatches(retry_count),
        forall|k: int| 0 <= k < retry_chain(delete_only_on_success, retry_count, results, 0).len()
            ==> #[trigger] retry_chain(delete_only_on_success, retry_count, results, 0)[k] == k,
        ({
            let c = retry_chain(delete_only_on_success, retry_count, results, 0);
            c.len() > 0 ==> !retry_due(delete_only_on_success, results[c.len() - 1], (c.len() - 1) as nat, retry_count)
                || c.len() == results.len()
        }),
{
    lemma_retry_chain(delete_only_on_success, retry_count, results, 0);
    lemma_retry_chain_ends(delete_only_on_success, retry_count, results, 0);
}

proof fn lemma_retry_chain_ends(dos: bool, rc: u32, results: Seq<bool>, a: nat)
    ensures
        ({
            let c = retry_chain(dos, rc, results, a);
            c.len() > 0 ==> !retry_due(dos, results[c.len() - 1], (a + c.len() - 1) as nat, rc) || c.len() == results.len()
        }),
    decreases results.len(),
{
    if results.len() > 0 && retry_due(dos, results[0], a, rc) {
        lemma_retry_chain_ends(dos, rc, results.drop_first(), a + 1);
        lemma_retry_chain(dos, rc, results.drop_first(), a + 1);
        let rest = retry_chain(dos, rc, results.drop_first(), a + 1);
        let c = retry_chain(dos, rc, results, a);
        assert(c =~= seq![a].add(rest));
        if rest.len() > 0 {
            assert(results[c.len() - 1] == results.drop_first()[rest.len() - 1]);
        }
    }
}

/// Every notification that a request files carries what its item asked for: the item's
/// time and data, the item's kind (or "default"), the request's group key, the item's id
/// when it had one, and no failures yet.
pub proof fn law_scheduled_keeps_item_fields(a: ScheduleAction, key: Seq<char>, items: Seq<ItemView>, scheduled: Seq<NoteView>)
    requires
        scheduled_from(a, key, items, scheduled),
    ensures
        forall|i: int|
            0 <= i < scheduled.len() ==> {
                &&& items[i].run_at == Some((#[trigger] scheduled[i]).run_at)
                &&& items[i].data == Some(scheduled[i].data)
                &&& scheduled[i].key == key
                &&& scheduled[i].attempts == 0
                &&& (items[i].kind matches Some(k) ==> scheduled[i].kind == k)
                &&& (items[i].kind is None ==> scheduled[i].kind == "default"@)
                &&& (items[i].id matches Some(x) ==> scheduled[i].id == x)
            },
{
    assert forall|i: int| 0 <= i < scheduled.len() implies {
        &&& items[i].run_at == Some((#[trigger] scheduled[i]).run_at)
        &&& items[i].data == Some(scheduled[i].data)
        &&& scheduled[i].key == key
        &&& scheduled[i].attempts == 0
        &&& (items[i].kind matches Some(k) ==> scheduled[i].kind == k)
        &&& (items[i].kind is None ==> scheduled[i].kind == "default"@)
        &&& (items[i].id matches Some(x) ==> scheduled[i].id == x)
    } by {
        assert(item_error(a, items[i]) is None);
    }
}

/// The values of a list of strings.
pub open spec fn texts_view(v: Seq<String>) -> Seq<Seq<char>> {
    v.map_values(|s: String| s@)
}

/// The notification that an accepted item becomes in group `key` under `id`.
fn note_from_item(key: &String, item: &NotificationItem, id: String) -> (n: ScheduledNotification)
    requires
        item.run_at is Some,
        item.data is Some,
    ensures
        n@ == note_of(key@, item@, id@),
{
    let kind = match &item.kind {
        Some(k) => k.clone(),
        None => "default".to_string(),
    };
    let run_at = match item.run_at {
        Some(t) => t,
        None => 0,
    };
    let data = match &item.data {
        Some(d) => d.clone(),
        None => String::new(),
    };
    ScheduledNotification { id, key: key.clone(), kind, run_at, data, attempts: 0 }
}

/// The id an accepted item is filed under: its own, or a fresh one.
fn item_id(item: &NotificationItem) -> (id: String)
    ensures
        match item@.id {
            Some(x) => id@ == x,
            None => is_uuid_v4_text(id@),
        },
{
    match &item.id {
        Some(x) => x.clone(),
        None => fresh_id(),
    }
}

impl NotificationManager {
    /// Schedules the items of an "add" or "update" request in order, stopping at the
    /// first refused one.
    fn schedule_items(&mut self, a: ScheduleAction, key: &String, items: &Vec<NotificationItem>) -> (r: (
        Result<Vec<String>, String>,
        Vec<ScheduledNotification>,
    ))
        ensures
            final(self).same_settings(*old(self)),
            scheduled_from(a, key@, items_view(items@), notes_view(r.1@)),
            final(self).active_notifications@ == upsert_all(old(self).active_notifications@, notes_view(r.1@)),
            r.1@.len() < items@.len() ==> (r.0 matches Err(e) && Some(e@) == item_error(a, items@[r.1@.len() as int]@)),
            r.1@.len() == items@.len() ==> (r.0 matches Ok(ids) && texts_view(ids@) == slot_ids(notes_view(r.1@))),
    {
        let ghost start = self.active_notifications@;
        let ghost iv = items_view(items@);
        let mut scheduled: Vec<ScheduledNotification> = Vec::new();
        let mut ids: Vec<String> = Vec::new();
        let mut i: usize = 0;
        while i < items.len()
            invariant
                i <= items@.len(),
                iv == items_view(items@),
                start == old(self).active_notifications@,
                scheduled@.len() == i,
                scheduled_from(a, key@, iv.take(i as int), notes_view(scheduled@)),
                self.active_notifications@ == upsert_all(start, notes_view(scheduled@)),
                texts_view(ids@) == slot_ids(notes_view(scheduled@)),
            self.same_settings(*old(self)),
            decreases items@.len() - i,
        {
            let item = &items[i];
            match check_item(a, item) {
                Some(e) => {
                    proof {
                        assert forall|j: int| 0 <= j < i implies item_error(a, #[trigger] iv[j]) is None by {
                            assert(iv.take(i as int)[j] == iv[j]);
                        }
                        let nv = notes_view(scheduled@);
                        assert forall|j: int| 0 <= j < nv.len() implies {
                            &&& item_error(a, #[trigger] iv[j]) is None
                            &&& nv[j] == note_of(key@, iv[j], nv[j].id)
                            &&& match iv[j].id {
                                Some(x) => nv[j].id == x,
                                None => is_uuid_v4_text(nv[j].id),
                            }
                        } by {
                            assert(iv.take(i as int)[j] == iv[j]);
                        }
                        assert(iv[i as int] == item@);
                    }
                    return (Err(e), scheduled);
                },
                None => {},
            }
            let id = item_id(item);
            let n = note_from_item(key, item, id);
            let ghost sv = notes_view(scheduled@);
            let ghost tv = texts_view(ids@);
            let ghost nview = n@;
            ids.push(n.id.clone());
            scheduled.push(n.copy());
            self.schedule(n);
            proof {
                let nv = notes_view(scheduled@);
                assert(nv =~= sv.push(nview));
                assert(nv.drop_last() =~= sv);
                assert(texts_view(ids@) =~= tv.push(nview.id));
                assert(slot_ids(nv) =~= slot_ids(sv).push(nview.id));
                assert(iv.take(i + 1)[i as int] == iv[i as int]);
                assert forall|j: int| 0 <= j < nv.len() implies {
                    &&& item_error(a, #[trigger] iv.take(i + 1)[j]) is None
                    &&& nv[j] == note_of(key@, iv.take(i + 1)[j], nv[j].id)
                    &&& match iv.take(i + 1)[j].id {
                        Some(x) => nv[j].id == x,
                        None => is_uuid_v4_text(nv[j].id),
                    }
                } by {
                    if j < i {
                        assert(iv.take(i + 1)[j] == iv.take(i as int)[j]);
                        assert(nv[j] == sv[j]);
                    }
                }
            }
            i = i + 1;
        }
        proof {
            assert(iv.take(items@.len() as int) =~= iv);
        }
        (Ok(ids), scheduled)
    }
}

/// Whether some item is refused with message `e`, and every item before it is accepted.
pub open spec fn first_refusal(a: ScheduleAction, items: Seq<ItemView>, e: Seq<char>) -> bool {
    exists|k: int|
        0 <= k < items.len() && item_error(a, #[trigger] items[k]) == Some(e) && forall|j: int|
            0 <= j < k ==> item_error(a, #[trigger] items[j]) is None
}

/// Turns every item of a request into a notification, or finds the first refused item.
fn build_notes(a: ScheduleAction, key: &String, items: &Vec<NotificationItem>) -> (r: Result<Vec<ScheduledNotification>, String>)
    ensures
        match r {
            Ok(v) => scheduled_from(a, key@, items_view(items@), notes_view(v@)) && v@.len() == items@.len(),
            Err(e) => first_refusal(a, items_view(items@), e@),
        },
{
    let ghost iv = items_view(items@);
    let mut notes: Vec<ScheduledNotification> = Vec::new();
    let mut i: usize = 0;
    while i < items.len()
        invariant
            i <= items@.len(),
            iv == items_view(items@),
            notes@.len() == i,
            scheduled_from(a, key@, iv.take(i as int), notes_view(notes@)),
        decreases items@.len() - i,
    {
        let item = &items[i];
        match check_item(a, item) {
            Some(e) => {
                proof {
                    assert forall|j: int| 0 <= j < i implies item_error(a, #[trigger] iv[j]) is None by {
                        assert(iv.take(i as int)[j] == iv[j]);
                    }
                    assert(iv[i as int] == item@);
                    assert(item_error(a, iv[i as int]) == Some(e@));
                    assert(0 <= i < iv.len());
                    assert(iv[i as int] == items_view(items@)[i as int]);
                    assert(first_refusal(a, items_view(items@), e@));
                }
                return Err(e);
            },
            None => {},
        }
        let id = item_id(item);
        let n = note_from_item(key, item, id);
        let ghost sv = notes_view(notes@);
        notes.push(n);
        proof {
            let nv = notes_view(notes@);
            assert(nv =~= sv.push(nv[i as int]));
            assert(iv.take(i + 1)[i as int] == iv[i as int]);
            assert forall|j: int| 0 <= j < nv.len() implies {
                &&& item_error(a, #[trigger] iv.take(i + 1)[j]) is None
                &&& nv[j] == note_of(key@, iv.take(i + 1)[j], nv[j].id)
                &&& match iv.take(i + 1)[j].id {
                    Some(x) => nv[j].id == x,
                    None => is_uuid_v4_text(nv[j].id),
                }
            } by {
                if j < i {
                    assert(iv.take(i + 1)[j] == iv.take(i as int)[j]);
                    assert(nv[j] == sv[j]);
                }
            }
        }
        i = i + 1;
    }
    proof {
        assert(iv.take(items@.len() as int) =~= iv);
    }
    Ok(notes)
}

impl NotificationManager {
    /// Files each notification in turn; returns their ids and copies.
    fn schedule_all(&mut self, notes: Vec<ScheduledNotification>) -> (r: (Vec<String>, Vec<ScheduledNotification>))
        ensures
            final(self).same_settings(*old(self)),
            notes_view(r.1@) == notes_view(notes@),
            texts_view(r.0@) == slot_ids(notes_view(notes@)),
            final(self).active_notifications@ == upsert_all(old(self).active_notifications@, notes_view(notes@)),
    {
        let ghost start = self.active_notifications@;
        let ghost nv = notes_view(notes@);
        let mut ids: Vec<String> = Vec::new();
        let mut scheduled: Vec<ScheduledNotification> = Vec::new();
        let mut i: usize = 0;
        assert(nv.take(0) =~= Seq::<NoteView>::empty());
        while i < notes.len()
            invariant
                i <= notes@.len(),
                nv == notes_view(notes@),
                notes_view(scheduled@) == nv.take(i as int),
                texts_view(ids@) == slot_ids(nv.take(i as int)),
                self.active_notifications@ == upsert_all(start, nv.take(i as int)),
            self.same_settings(*old(self)),
            decreases notes@.len() - i,
        {
            let n = notes[i].copy();
            let ghost tv = texts_view(ids@);
            let ghost sv = notes_view(scheduled@);
            ids.push(n.id.clone());
            scheduled.push(n.copy());
            self.schedule(n);
            proof {
                assert(nv.take(i + 1) =~= nv.take(i as int).push(nv[i as int]));
                assert(nv.take(i + 1).drop_last() =~= nv.take(i as int));
                assert(notes_view(scheduled@) =~= sv.push(nv[i as int]));
                assert(texts_view(ids@) =~= tv.push(nv[i as int].id));
                assert(slot_ids(nv.take(i + 1)) =~= slot_ids(nv.take(i as int)).push(nv[i as int].id));
            }
            i = i + 1;
        }
        assert(nv.take(notes@.len() as int) =~= nv);
        (ids, scheduled)
    }

    /// Makes group `key` hold exactly the items of an "update_force" request: first every
    /// item is checked, then the group's notifications whose ids are not among the
    /// items' ids are cancelled, then each item is filed in turn.
    fn replace_group(&mut self, key: &String, items: &Vec<NotificationItem>) -> (r: (
        Result<Vec<String>, String>,
        Vec<ScheduledNotification>,
        Vec<ScheduledNotification>,
    ))
        ensures
            final(self).same_settings(*old(self)),
            r.0 matches Err(e) ==> first_refusal(ScheduleAction::UpdateForce, items_view(items@), e@)
                && r.1@.len() == 0 && r.2@.len() == 0
                && final(self).active_notifications@ == old(self).active_notifications@,
            r.0 matches Ok(ids) ==> ({
                let sched = notes_view(r.1@);
                let before = old(self).active_notifications@;
                &&& scheduled_from(ScheduleAction::UpdateForce, key@, items_view(items@), sched)
                &&& sched.len() == items@.len()
                &&& texts_view(ids@) == slot_ids(sched)
                &&& notes_view(r.2@) == before.filter(dropped_from_group(key@, slot_ids(sched)))
                &&& final(self).active_notifications@ == upsert_all(before.filter(kept_in_group(key@, slot_ids(sched))), sched)
            }),
    {
        let notes = match build_notes(ScheduleAction::UpdateForce, key, items) {
            Ok(v) => v,
            Err(e) => return (Err(e), Vec::new(), Vec::new()),
        };
        let ghost nv = notes_view(notes@);
        let mut incoming: Vec<String> = Vec::new();
        let mut i: usize = 0;
        while i < notes.len()
            invariant
                i <= notes@.len(),
                nv == notes_view(notes@),
                texts_view(incoming@) == slot_ids(nv.take(i as int)),
            decreases notes@.len() - i,
        {
            let ghost tv = texts_view(incoming@);
            incoming.push(notes[i].id.clone());
            proof {
                assert(texts_view(incoming@) =~= tv.push(nv[i as int].id));
                assert(slot_ids(nv.take(i + 1)) =~= slot_ids(nv.take(i as int)).push(nv[i as int].id));
            }
            i = i + 1;
        }
        assert(nv.take(notes@.len() as int) =~= nv);
        let cancelled = self.active_notifications.retain_group(key.as_str(), &incoming);
        let (ids, scheduled) = self.schedule_all(notes);
        (Ok(ids), scheduled, cancelled)
    }

    /// Carries out a scheduling request. The action is read case-insensitively and the
    /// group key without surrounding white space; a blank key or an unknown action is
    /// refused. "delete" cancels the group; "add" and "update" file their items in turn
    /// and stop at the first refused item (those filed before it stay filed);
    /// "update_force" checks every item first and then makes the group hold exactly
    /// those items. The answer lists the filed ids, or the reason for refusal.
    pub fn process_request(&mut self, req: ScheduleRequest) -> (out: RequestOutcome)
        ensures
            ({
                let key = trim(req.key@, false);
                let lowered = lowercase_of(req.action@);
                let items = items_view(req.items@);
                let sched = notes_view(out.scheduled@);
                let canc = notes_view(out.cancelled@);
                let before = old(self).active_notifications@;
                let after = final(self).active_notifications@;
                if key.len() == 0 {
                    &&& out.result matches Err(e) && e@ == "Group key is required"@
                    &&& sched.len() == 0 && canc.len() == 0 && after == before
                } else {
                    match action_of(lowered) {
                        None => {
                            &&& out.result matches Err(e) && e@ == "Unknown action: "@ + lowered
                            &&& sched.len() == 0 && canc.len() == 0 && after == before
                        },
                        Some(ScheduleAction::Delete) => {
                            &&& out.result matches Ok(v) && texts_view(v@) == seq!["Cancelled all notifications under key "@ + key]
                            &&& sched.len() == 0
                            &&& canc == before.filter(in_group(key))
                            &&& after == before.filter(not_in_group(key))
                        },
                        Some(ScheduleAction::UpdateForce) => {
                            &&& out.result matches Err(e) ==> first_refusal(ScheduleAction::UpdateForce, items, e@)
                                && sched.len() == 0 && canc.len() == 0 && after == before
                            &&& out.result matches Ok(ids) ==> {
                                &&& scheduled_from(ScheduleAction::UpdateForce, key, items, sched)
                                &&& sched.len() == items.len()
                                &&& texts_view(ids@) == slot_ids(sched)
                                &&& canc == before.filter(dropped_from_group(key, slot_ids(sched)))
                                &&& after == upsert_all(before.filter(kept_in_group(key, slot_ids(sched))), sched)
                            }
                        },
                        Some(a) => {
                            &&& scheduled_from(a, key, items, sched)
                            &&& canc.len() == 0
                            &&& after == upsert_all(before, sched)
                            &&& sched.len() < items.len() ==> (out.result matches Err(e) && Some(e@) == item_error(a, items[sched.len() as int]))
                            &&& sched.len() == items.len() ==> (out.result matches Ok(ids) && texts_view(ids@) == slot_ids(sched))
                        },
                    }
                }
            }),
            unique_slots(final(self).active_notifications@),
            final(self).same_settings(*old(self)),
    {
        let lowered = to_lowercase(req.action.as_str());
        let key = trim_str(req.key.as_str());
        if key.as_str().is_empty() {
            proof {
                use_type_invariant(&self.active_notifications);
            }
            return RequestOutcome {
                result: Err("Group key is required".to_string()),
                scheduled: Vec::new(),
                cancelled: Vec::new(),
            };
        }
        let out = match parse_action(lowered.as_str()) {
            None => RequestOutcome {
                result: Err("Unknown action: ".to_string().concat(lowered.as_str())),
                scheduled: Vec::new(),
                cancelled: Vec::new(),
            },
            Some(ScheduleAction::Delete) => {
                let cancelled = self.cancel_group(key.clone());
                let message = "Cancelled all notifications under key ".to_string().concat(key.as_str());
                let result = vec![message];
                assert(texts_view(result@) =~= seq!["Cancelled all notifications under key "@ + key@]);
                RequestOutcome { result: Ok(result), scheduled: Vec::new(), cancelled }
            },
            Some(ScheduleAction::UpdateForce) => {
                let (result, scheduled, cancelled) = self.replace_group(&key, &req.items);
                RequestOutcome { result, scheduled, cancelled }
            },
            Some(a) => {
                let (result, scheduled) = self.schedule_items(a, &key, &req.items);
                RequestOutcome { result, scheduled, cancelled: Vec::new() }
            },
        };
        proof {
            use_type_invariant(&self.active_notifications);
        }
        out
    }
}

} // verus!
