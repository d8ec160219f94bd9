//! The notifications that are kept, which of them are unread, and what is saved.

use std::collections::{HashMap, HashSet};
use vstd::prelude::*;
use crate::hashed::{items_of, keys_of};
use crate::notification::{
    notification_from, requested, restored, saved, Notification, NotifyRequest, PersistedNotification, PersistedView,
    CLOSE_REASON_CLOSED, CLOSE_REASON_DISMISSED,
};
use crate::order::{self, in_order, ranked, Order, Ranked};
use crate::table::{as_map, distinct, lemma_as_map};

verus! {

/// How many notifications are kept; those that are only shown for a moment do not count.
pub const MAX_NOTIFICATIONS: usize = 100;

/// The kept notifications and their state.
#[derive(Debug)]
pub struct NotificationService {
    pub notifications: HashMap<u32, Notification>,
    pub next_id: u32,
    /// Whether notifications of applications arrive here.
    pub backend_available: bool,
    /// Whether notifications are kept without being shown.
    pub muted: bool,
    pub seen_ids: HashSet<u32>,
    /// How often each notification is being shown; several outputs may show one.
    pub active_toasts: HashMap<u32, u32>,
    /// Whether listeners are going to be told of a change of the unread count.
    pub pending_unread_notify: bool,
    pub ready: bool,
}

/// What a [`NotificationService`] holds.
pub struct ServiceView {
    pub notifications: Map<u32, Notification>,
    pub next_id: u32,
    pub backend_available: bool,
    pub muted: bool,
    pub seen: Set<u32>,
    pub toasts: Map<u32, u32>,
    pub pending: bool,
    pub ready: bool,
}

impl View for NotificationService {
    type V = ServiceView;

    open spec fn view(&self) -> ServiceView {
        ServiceView {
            notifications: self.notifications@,
            next_id: self.next_id,
            backend_available: self.backend_available,
            muted: self.muted,
            seen: self.seen_ids@,
            toasts: self.active_toasts@,
            pending: self.pending_unread_notify,
            ready: self.ready,
        }
    }
}

/// Where a time, as the bit pattern of a double, stands among others.
pub open spec fn age(bits: u64) -> int {
    if bits < 0x8000_0000_0000_0000 {
        bits as int
    } else {
        0x8000_0000_0000_0000 - bits
    }
}

fn age_of(bits: u64) -> (n: i128)
    ensures
        n == age(bits),
{
    if bits < 0x8000_0000_0000_0000 {
        bits as i128
    } else {
        0x8000_0000_0000_0000i128 - bits as i128
    }
}

/// The notifications that are kept for later.
pub open spec fn history(notifications: Map<u32, Notification>) -> Set<u32> {
    Set::new(|id: u32| notifications.dom().contains(id) && !notifications[id].transient)
}

/// Whether a notification is one of those that are kept for later.
pub open spec fn kept_for_later(notifications: Map<u32, Notification>, n: Notification) -> bool {
    exists|id: u32| #[trigger] history(notifications).contains(id) && notifications[id] == n
}

/// The notifications that are neither seen nor being shown; none where notifications do not arrive
/// here.
pub open spec fn unread(s: ServiceView) -> Set<u32> {
    if s.backend_available {
        Set::new(|id: u32| history(s.notifications).contains(id) && !s.toasts.dom().contains(id) && !s.seen.contains(id))
    } else {
        Set::empty()
    }
}

/// Whether `b` is `a` brought down to [`MAX_NOTIFICATIONS`]: those that are only shown for a moment
/// stay, and of the others none that stays is older than one that leaves.
pub open spec fn trimmed(a: Map<u32, Notification>, b: Map<u32, Notification>) -> bool {
    &&& b.submap_of(a)
    &&& forall|id: u32| #[trigger] a.dom().contains(id) && a[id].transient ==> b.dom().contains(id)
    &&& history(b).finite()
    &&& history(b).len() == if history(a).len() > MAX_NOTIFICATIONS {
        MAX_NOTIFICATIONS as nat
    } else {
        history(a).len()
    }
    &&& forall|gone: u32, kept: u32|
        #![trigger a.dom().contains(gone), b.dom().contains(kept)]
        a.dom().contains(gone) && !b.dom().contains(gone) && b.dom().contains(kept) && !b[kept].transient ==> age(
            a[gone].timestamp,
        ) <= age(b[kept].timestamp)
}

impl Order for PersistedView {
    /// Most recent first.
    open spec fn before(self, other: Self) -> bool {
        age(self.timestamp) > age(other.timestamp)
    }

    proof fn before_is_asymmetric(a: Self, b: Self) {
    }

    proof fn before_is_weak(a: Self, b: Self, c: Self) {
    }
}

impl Order for PersistedNotification {
    /// Most recent first.
    open spec fn before(self, other: Self) -> bool {
        self@.before(other@)
    }

    proof fn before_is_asymmetric(a: Self, b: Self) {
    }

    proof fn before_is_weak(a: Self, b: Self, c: Self) {
    }
}

impl Ranked for PersistedNotification {
    fn is_before(&self, other: &Self) -> (yes: bool) {
        age_of(self.timestamp) > age_of(other.timestamp)
    }
}

/// What is saved of some notifications, in their order.
pub open spec fn saved_of(pairs: Seq<(u32, Notification)>) -> Seq<PersistedView>
    decreases pairs.len(),
{
    if pairs.len() == 0 {
        Seq::empty()
    } else {
        let before = saved_of(pairs.drop_last());
        if pairs.last().1.transient {
            before
        } else {
            before.push(saved(pairs.last().1@))
        }
    }
}

/// What is saved.
#[derive(Debug)]
pub struct Saved {
    pub muted: bool,
    pub next_id: u32,
    /// In ascending order.
    pub seen_ids: Vec<u32>,
    /// Most recent first.
    pub history: Vec<PersistedNotification>,
}

/// What persisted notifications hold.
pub open spec fn persisted_views(list: Seq<PersistedNotification>) -> Seq<PersistedView> {
    list.map_values(|p: PersistedNotification| p@)
}

/// Whether something is what is saved of a state.
pub open spec fn saves(out: Saved, s: ServiceView, pairs: Seq<(u32, Notification)>) -> bool {
    &&& out.muted == s.muted
    &&& out.next_id == s.next_id
    &&& persisted_views(out.history@) == ranked(saved_of(pairs))
    &&& forall|id: u32| out.seen_ids@.contains(id) <==> s.seen.contains(id)
    &&& forall|i: int, j: int|
        #![trigger out.seen_ids@[i], out.seen_ids@[j]]
        0 <= i < j < out.seen_ids@.len() ==> out.seen_ids@[i] < out.seen_ids@[j]
}

/// Whether something is what is saved of a state whose notifications come in some order.
pub open spec fn saved_from(out: Saved, s: ServiceView) -> bool {
    exists|pairs: Seq<(u32, Notification)>| #[trigger]
        saves(out, s, pairs) && distinct(pairs) && as_map(pairs) == s.notifications
}

/// The state after a save: what is no longer kept is no longer seen.
pub open spec fn pruned(s: ServiceView) -> ServiceView {
    ServiceView { seen: s.seen.intersect(s.notifications.dom()), ..s }
}

/// Identifiers with their notifications.
pub open spec fn pairs_of(entries: Seq<(u32, &Notification)>) -> Seq<(u32, Notification)> {
    entries.map_values(|e: (u32, &Notification)| (e.0, *e.1))
}

/// The notifications of a map with their identifiers, in some order.
fn entries_of(map: &HashMap<u32, Notification>) -> (entries: Vec<(u32, &Notification)>)
    ensures
        distinct(pairs_of(entries@)),
        as_map(pairs_of(entries@)) == map@,
{
    let keys = keys_of(map);
    let mut entries: Vec<(u32, &Notification)> = Vec::new();
    let mut i: usize = 0;
    while i < keys.len()
        invariant
            i <= keys@.len(),
            keys@.to_set() == map@.dom(),
            entries@.len() == i,
            forall|j: int|
                0 <= j < i ==> (#[trigger] entries@[j]).0 == keys@[j] && *entries@[j].1 == map@[keys@[j]],
        decreases keys@.len() - i,
    {
        let id: u32 = keys[i];
        assert(keys@.to_set().contains(keys@[i as int]));
        match map.get(&id) {
            Some(notification) => entries.push((id, notification)),
            None => {
                assert(false);
            }
        }
        i += 1;
    }
    proof {
        let pairs = pairs_of(entries@);
        assert forall|a: int, b: int| #![trigger pairs[a], pairs[b]] 0 <= a < b < pairs.len() implies pairs[a].0
            != pairs[b].0 by {
            assert(keys@[a] != keys@[b]);
        }
        lemma_as_map(pairs);
        assert forall|id: u32| as_map(pairs).dom().contains(id) == map@.dom().contains(id) by {
            if as_map(pairs).dom().contains(id) {
                let j = choose|j: int| 0 <= j < pairs.len() && (#[trigger] pairs[j]).0 == id;
                assert(keys@.to_set().contains(keys@[j]));
            }
            if map@.dom().contains(id) {
                assert(keys@.contains(id));
                let j = choose|j: int| 0 <= j < keys@.len() && keys@[j] == id;
                assert(as_map(pairs).dom().contains(pairs[j].0));
            }
        }
        assert forall|id: u32| as_map(pairs).dom().contains(id) implies as_map(pairs)[id] == map@[id] by {
            let j = choose|j: int| 0 <= j < pairs.len() && (#[trigger] pairs[j]).0 == id;
            assert(as_map(pairs)[pairs[j].0] == pairs[j].1);
        }
        assert(as_map(pairs) =~= map@);
    }
    entries
}

/// The number of entries for which a test holds.
spec fn counted(pairs: Seq<(u32, Notification)>, test: spec_fn(u32, Notification) -> bool) -> nat
    decreases pairs.len(),
{
    if pairs.len() == 0 {
        0
    } else {
        counted(pairs.drop_last(), test) + if test(pairs.last().0, pairs.last().1) {
            1nat
        } else {
            0
        }
    }
}

/// The identifiers of entries for which a test holds.
spec fn passing(map: Map<u32, Notification>, test: spec_fn(u32, Notification) -> bool) -> Set<u32> {
    Set::new(|id: u32| map.dom().contains(id) && test(id, map[id]))
}

proof fn lemma_counted(pairs: Seq<(u32, Notification)>, test: spec_fn(u32, Notification) -> bool)
    requires
        distinct(pairs),
    ensures
        passing(as_map(pairs), test).finite(),
        passing(as_map(pairs), test).len() == counted(pairs, test),
    decreases pairs.len(),
{
    if pairs.len() == 0 {
        assert(passing(as_map(pairs), test) =~= Set::empty());
    } else {
        let rest = pairs.drop_last();
        let last = pairs.last();
        assert forall|i: int, j: int| #![trigger rest[i], rest[j]] 0 <= i < j < rest.len() implies rest[i].0
            != rest[j].0 by {
            assert(pairs[i] == rest[i] && pairs[j] == rest[j]);
        }
        lemma_counted(rest, test);
        lemma_as_map(rest);
        assert(!as_map(rest).dom().contains(last.0)) by {
            if as_map(rest).dom().contains(last.0) {
                let i = choose|i: int| 0 <= i < rest.len() && (#[trigger] rest[i]).0 == last.0;
                assert(pairs[i] == rest[i]);
                assert(pairs[pairs.len() - 1] == last);
            }
        }
        if test(last.0, last.1) {
            assert(passing(as_map(pairs), test) =~= passing(as_map(rest), test).insert(last.0));
        } else {
            assert(passing(as_map(pairs), test) =~= passing(as_map(rest), test));
        }
    }
}

proof fn lemma_history(pairs: Seq<(u32, Notification)>)
    requires
        distinct(pairs),
    ensures
        history(as_map(pairs)).finite(),
        history(as_map(pairs)).len() == counted(pairs, |id: u32, n: Notification| !n.transient),
{
    let test = |id: u32, n: Notification| !n.transient;
    lemma_counted(pairs, test);
    assert(history(as_map(pairs)) =~= passing(as_map(pairs), test));
}

proof fn lemma_sorted_ids(input: Seq<u32>, sorted: Seq<u32>)
    requires
        input.no_duplicates(),
        order::is_stable_sort(input, sorted),
    ensures
        forall|i: int, j: int|
            #![trigger sorted[i], sorted[j]]
            0 <= i < j < sorted.len() ==> sorted[i] < sorted[j],
        forall|id: u32| sorted.contains(id) <==> input.contains(id),
{
    input.lemma_multiset_has_no_duplicates();
    input.to_multiset_ensures();
    sorted.to_multiset_ensures();
    sorted.lemma_multiset_has_no_duplicates_conv();
    assert forall|id: u32| sorted.contains(id) <==> input.contains(id) by {
        assert(sorted.contains(id) <==> sorted.to_multiset().count(id) > 0);
        assert(input.contains(id) <==> input.to_multiset().count(id) > 0);
    }
}

impl NotificationService {
    /// A service without notifications.
    pub fn empty() -> (service: Self)
        ensures
            service@ == (ServiceView {
                notifications: Map::empty(),
                next_id: 1,
                backend_available: false,
                muted: false,
                seen: Set::empty(),
                toasts: Map::empty(),
                pending: false,
                ready: false,
            }),
    {
        let service = NotificationService {
            notifications: HashMap::new(),
            next_id: 1,
            backend_available: false,
            muted: false,
            seen_ids: HashSet::new(),
            active_toasts: HashMap::new(),
            pending_unread_notify: false,
            ready: false,
        };
        proof {
            assert(service@.seen =~= Set::empty());
        }
        service
    }

    /// How many notifications are kept for later.
    pub fn history_count(&self) -> (n: usize)
        ensures
            history(self@.notifications).finite(),
            n == history(self@.notifications).len(),
    {
        let entries = entries_of(&self.notifications);
        let ghost pairs = pairs_of(entries@);
        let ghost test = |id: u32, n: Notification| !n.transient;
        let mut n: usize = 0;
        let mut i: usize = 0;
        proof {
            lemma_history(pairs);
            assert(pairs.take(0) =~= Seq::empty());
        }
        while i < entries.len()
            invariant
                i <= pairs.len(),
                pairs == pairs_of(entries@),
                test == (|id: u32, n: Notification| !n.transient),
                n == counted(pairs.take(i as int), test),
                n <= i,
            decreases pairs.len() - i,
        {
            proof {
                assert(pairs.take(i + 1).drop_last() =~= pairs.take(i as int));
            }
            if !entries[i].1.transient {
                n += 1;
            }
            i += 1;
        }
        proof {
            assert(pairs.take(i as int) =~= pairs);
        }
        n
    }

    /// How many notifications are neither seen nor being shown.
    pub fn unread_count(&self) -> (n: usize)
        ensures
            unread(self@).finite(),
            n == unread(self@).len(),
    {
        if !self.backend_available {
            return 0;
        }
        let entries = entries_of(&self.notifications);
        let ghost pairs = pairs_of(entries@);
        let ghost toasts = self@.toasts;
        let ghost seen = self@.seen;
        let ghost test = |id: u32, n: Notification| !n.transient && !toasts.dom().contains(id) && !seen.contains(id);
        let mut n: usize = 0;
        let mut i: usize = 0;
        proof {
            lemma_counted(pairs, test);
            assert(unread(self@) =~= passing(as_map(pairs), test));
            assert(pairs.take(0) =~= Seq::empty());
        }
        while i < entries.len()
            invariant
                i <= pairs.len(),
                pairs == pairs_of(entries@),
                toasts == self@.toasts,
                seen == self@.seen,
                test == (|id: u32, n: Notification|
                    !n.transient && !toasts.dom().contains(id) && !seen.contains(id)),
                n == counted(pairs.take(i as int), test),
                n <= i,
            decreases pairs.len() - i,
        {
            proof {
                assert(pairs.take(i + 1).drop_last() =~= pairs.take(i as int));
            }
            let id: u32 = entries[i].0;
            if !entries[i].1.transient && !self.active_toasts.contains_key(&id) && !self.seen_ids.contains(&id) {
                n += 1;
            }
            i += 1;
        }
        proof {
            assert(pairs.take(i as int) =~= pairs);
        }
        n
    }

    /// The notification with an identifier.
    pub fn get(&self, id: u32) -> (notification: Option<&Notification>)
        ensures
            notification is Some == self@.notifications.dom().contains(id),
            notification is Some ==> *notification->0 == self@.notifications[id],
    {
        self.notifications.get(&id)
    }

    /// Whether a notification is kept and only shown for a moment.
    pub fn is_transient(&self, id: u32) -> (yes: bool)
        ensures
            yes == (self@.notifications.dom().contains(id) && self@.notifications[id].transient),
    {
        match self.notifications.get(&id) {
            Some(n) => n.transient,
            None => false,
        }
    }

    /// All notifications.
    pub fn notifications(&self) -> (list: Vec<&Notification>)
        ensures
            list@.len() == self@.notifications.dom().len(),
            forall|id: u32|
                self@.notifications.dom().contains(id) ==> exists|i: int|
                    0 <= i < list@.len() && *(#[trigger] list@[i]) == self@.notifications[id],
            forall|i: int|
                0 <= i < list@.len() ==> exists|id: u32| #[trigger]
                    self@.notifications.dom().contains(id) && self@.notifications[id] == *(#[trigger] list@[i]),
    {
        let entries = entries_of(&self.notifications);
        let ghost pairs = pairs_of(entries@);
        let mut list: Vec<&Notification> = Vec::new();
        let mut i: usize = 0;
        proof {
            lemma_as_map(pairs);
        }
        while i < entries.len()
            invariant
                i <= pairs.len(),
                pairs == pairs_of(entries@),
                list@.len() == i,
                forall|j: int| 0 <= j < i ==> *(#[trigger] list@[j]) == pairs[j].1,
            decreases pairs.len() - i,
        {
            list.push(&entries[i].1);
            i += 1;
        }
        proof {
            let map = self@.notifications;
            assert forall|id: u32| map.dom().contains(id) implies exists|j: int|
                0 <= j < list@.len() && *(#[trigger] list@[j]) == map[id] by {
                assert(as_map(pairs).dom().contains(id));
                let j = choose|j: int| 0 <= j < pairs.len() && (#[trigger] pairs[j]).0 == id;
                assert(*list@[j] == map[id]);
            }
            assert forall|j: int| 0 <= j < list@.len() implies exists|id: u32| #[trigger]
                map.dom().contains(id) && map[id] == *(#[trigger] list@[j]) by {
                assert(pairs[j].1 == *list@[j]);
                assert(map.dom().contains(pairs[j].0));
            }
        }
        list
    }

    /// The notifications that are kept for later.
    pub fn history_notifications(&self) -> (list: Vec<&Notification>)
        ensures
            list@.len() == history(self@.notifications).len(),
            forall|i: int| 0 <= i < list@.len() ==> kept_for_later(self@.notifications, *(#[trigger] list@[i])),
            forall|id: u32| #[trigger]
                history(self@.notifications).contains(id) ==> exists|i: int|
                    0 <= i < list@.len() && *(#[trigger] list@[i]) == self@.notifications[id],
    {
        let entries = entries_of(&self.notifications);
        let ghost pairs = pairs_of(entries@);
        let ghost test = |id: u32, n: Notification| !n.transient;
        let ghost map = self@.notifications;
        let mut list: Vec<&Notification> = Vec::new();
        let mut i: usize = 0;
        proof {
            lemma_as_map(pairs);
            lemma_history(pairs);
            assert(pairs.take(0) =~= Seq::empty());
        }
        while i < entries.len()
            invariant
                i <= pairs.len(),
                pairs == pairs_of(entries@),
                map == as_map(pairs),
                distinct(pairs),
                test == (|id: u32, n: Notification| !n.transient),
                forall|j: int|
                    0 <= j < pairs.len() ==> map.dom().contains((#[trigger] pairs[j]).0) && map[pairs[j].0]
                        == pairs[j].1,
                list@.len() == counted(pairs.take(i as int), test),
                forall|j: int| 0 <= j < list@.len() ==> kept_for_later(map, *(#[trigger] list@[j])),
                forall|j: int|
                    0 <= j < i && !(#[trigger] pairs[j]).1.transient ==> exists|k: int|
                        0 <= k < list@.len() && *(#[trigger] list@[k]) == pairs[j].1,
            decreases pairs.len() - i,
        {
            let ghost before = list@;
            proof {
                assert(pairs.take(i + 1).drop_last() =~= pairs.take(i as int));
            }
            if !entries[i].1.transient {
                list.push(&entries[i].1);
                proof {
                    assert(history(map).contains(pairs[i as int].0));
                    assert(*list@[before.len() as int] == pairs[i as int].1);
                }
            }
            proof {
                assert forall|j: int| 0 <= j < i + 1 && !(#[trigger] pairs[j]).1.transient implies exists|k: int|
                    0 <= k < list@.len() && *(#[trigger] list@[k]) == pairs[j].1 by {
                    if j < i {
                        let k = choose|k: int| 0 <= k < before.len() && *(#[trigger] before[k]) == pairs[j].1;
                        assert(*list@[k] == pairs[j].1);
                    }
                }
                assert forall|j: int| 0 <= j < list@.len() implies kept_for_later(map, *(#[trigger] list@[j])) by {
                    if j < before.len() {
                        assert(list@[j] == before[j]);
                    }
                }
            }
            i += 1;
        }
        proof {
            assert(pairs.take(i as int) =~= pairs);
            assert forall|id: u32| #[trigger] history(map).contains(id) implies exists|k: int|
                0 <= k < list@.len() && *(#[trigger] list@[k]) == map[id] by {
                assert(as_map(pairs).dom().contains(id));
                let j = choose|j: int| 0 <= j < pairs.len() && (#[trigger] pairs[j]).0 == id;
                assert(!pairs[j].1.transient);
            }
        }
        list
    }

    fn seen_list(&self) -> (ids: Vec<u32>)
        ensures
            ids@.no_duplicates(),
            forall|id: u32| ids@.contains(id) <==> self@.seen.contains(id),
    {
        let ids = items_of(&self.seen_ids);
        proof {
            assert forall|id: u32| ids@.contains(id) <==> self@.seen.contains(id) by {
                assert(ids@.to_set().contains(id) <==> ids@.contains(id));
            }
        }
        ids
    }

    fn drop_unkept_seen(&mut self)
        ensures
            final(self)@ == pruned(old(self)@),
    {
        let ids = self.seen_list();
        let ghost before = self@;
        let mut kept: HashSet<u32> = HashSet::new();
        let mut i: usize = 0;
        while i < ids.len()
            invariant
                i <= ids@.len(),
                self@ == before,
                forall|id: u32|
                    kept@.contains(id) <==> before.notifications.dom().contains(id) && exists|j: int|
                        0 <= j < i && #[trigger] ids@[j] == id,
            decreases ids@.len() - i,
        {
            let ghost held = kept@;
            let id: u32 = ids[i];
            if self.notifications.contains_key(&id) {
                kept.insert(id);
            }
            proof {
                assert forall|x: u32| kept@.contains(x) <==> before.notifications.dom().contains(x) && exists|
                    j: int,
                |
                    0 <= j < i + 1 && #[trigger] ids@[j] == x by {
                    if held.contains(x) {
                        let j = choose|j: int| 0 <= j < i && #[trigger] ids@[j] == x;
                        assert(0 <= j < i + 1);
                    }
                    assert(ids@[i as int] == id);
                }
            }
            i += 1;
        }
        self.seen_ids = kept;
        proof {
            assert forall|id: u32| kept@.contains(id) == before.seen.intersect(
                before.notifications.dom(),
            ).contains(id) by {
                if before.seen.contains(id) {
                    assert(ids@.contains(id));
                    let j = choose|j: int| 0 <= j < ids@.len() && ids@[j] == id;
                    assert(ids@[j] == id);
                }
                if kept@.contains(id) {
                    let j = choose|j: int| 0 <= j < ids@.len() && #[trigger] ids@[j] == id;
                    assert(ids@.contains(id));
                }
            }
            assert(self@.seen =~= before.seen.intersect(before.notifications.dom()));
        }
    }

    fn saved_history(&self) -> (list: Vec<PersistedNotification>)
        ensures
            exists|pairs: Seq<(u32, Notification)>|
                distinct(pairs) && as_map(pairs) == self@.notifications && persisted_views(list@) == ranked(
                    #[trigger] saved_of(pairs),
                ),
    {
        let entries = entries_of(&self.notifications);
        let ghost pairs = pairs_of(entries@);
        let ghost f = |p: PersistedNotification| p@;
        let mut list: Vec<PersistedNotification> = Vec::new();
        let mut i: usize = 0;
        proof {
            assert(pairs.take(0) =~= Seq::empty());
            assert(persisted_views(list@) =~= saved_of(pairs.take(0)));
        }
        while i < entries.len()
            invariant
                i <= pairs.len(),
                pairs == pairs_of(entries@),
                persisted_views(list@) == saved_of(pairs.take(i as int)),
            decreases pairs.len() - i,
        {
            let ghost before = persisted_views(list@);
            proof {
                assert(pairs.take(i + 1).drop_last() =~= pairs.take(i as int));
            }
            if !entries[i].1.transient {
                let p = entries[i].1.to_persisted();
                let ghost added = p@;
                list.push(p);
                proof {
                    assert(persisted_views(list@) =~= before.push(added));
                }
            }
            i += 1;
        }
        proof {
            assert(pairs.take(i as int) =~= pairs);
            order::ranked_commutes_with_map(list@, f);
            assert(persisted_views(list@) == list@.map_values(f));
        }
        let sorted = order::stable_sort(list);
        proof {
            assert(persisted_views(sorted@) == sorted@.map_values(f));
        }
        sorted
    }

    /// What is saved of the state. What is no longer kept is no longer seen.
    pub fn save_state(&mut self) -> (out: Saved)
        ensures
            final(self)@ == pruned(old(self)@),
            saved_from(out, final(self)@),
    {
        self.drop_unkept_seen();
        let ids = self.seen_list();
        let ghost input = ids@;
        let seen_ids = order::stable_sort(ids);
        proof {
            lemma_sorted_ids(input, seen_ids@);
        }
        let history = self.saved_history();
        let out = Saved { muted: self.muted, next_id: self.next_id, seen_ids, history };
        proof {
            let pairs = choose|pairs: Seq<(u32, Notification)>|
                distinct(pairs) && as_map(pairs) == self@.notifications && persisted_views(history@) == ranked(
                    #[trigger] saved_of(pairs),
                );
            assert(saves(out, self@, pairs));
        }
        out
    }

    fn oldest(&self) -> (id: u32)
        requires
            history(self@.notifications).len() > 0,
        ensures
            history(self@.notifications).contains(id),
            forall|other: u32| #[trigger]
                history(self@.notifications).contains(other) ==> age(self@.notifications[id].timestamp) <= age(
                    self@.notifications[other].timestamp,
                ),
    {
        let entries = entries_of(&self.notifications);
        let ghost pairs = pairs_of(entries@);
        let ghost map = self@.notifications;
        let mut found: Option<usize> = None;
        let mut i: usize = 0;
        proof {
            lemma_as_map(pairs);
        }
        while i < entries.len()
            invariant
                i <= pairs.len(),
                pairs == pairs_of(entries@),
                match found {
                    Some(k) => k < i && !pairs[k as int].1.transient && forall|j: int|
                        0 <= j < i && !(#[trigger] pairs[j]).1.transient ==> age(pairs[k as int].1.timestamp)
                            <= age(pairs[j].1.timestamp),
                    None => forall|j: int| 0 <= j < i ==> (#[trigger] pairs[j]).1.transient,
                },
            decreases pairs.len() - i,
        {
            if !entries[i].1.transient {
                let older = match found {
                    Some(k) => age_of(entries[i].1.timestamp) < age_of(entries[k].1.timestamp),
                    None => true,
                };
                if older {
                    found = Some(i);
                }
            }
            i += 1;
        }
        proof {
            if found is None {
                assert(history(map) =~= Set::empty()) by {
                    assert forall|id: u32| !history(map).contains(id) by {
                        if history(map).contains(id) {
                            assert(as_map(pairs).dom().contains(id));
                            let j = choose|j: int| 0 <= j < pairs.len() && (#[trigger] pairs[j]).0 == id;
                            assert(pairs[j].1.transient);
                        }
                    }
                }
                assert(false);
            }
        }
        let k: usize = found.unwrap();
        proof {
            assert forall|other: u32| #[trigger] history(map).contains(other) implies age(
                map[pairs[k as int].0].timestamp,
            ) <= age(map[other].timestamp) by {
                assert(as_map(pairs).dom().contains(other));
                let j = choose|j: int| 0 <= j < pairs.len() && (#[trigger] pairs[j]).0 == other;
                assert(!pairs[j].1.transient);
            }
        }
        entries[k].0
    }

    /// Drops the oldest notifications that are too many.
    pub fn enforce_notification_limit(&mut self)
        ensures
            trimmed(old(self)@.notifications, final(self)@.notifications),
            final(self)@ == (ServiceView { notifications: final(self)@.notifications, ..old(self)@ }),
    {
        let ghost start = self@;
        let ghost all = history(start.notifications);
        let mut n: usize = self.history_count();
        while n > MAX_NOTIFICATIONS
            invariant
                start == old(self)@,
                all == history(start.notifications),
                all.finite(),
                self@ == (ServiceView { notifications: self@.notifications, ..start }),
                self@.notifications.submap_of(start.notifications),
                history(self@.notifications).finite(),
                n == history(self@.notifications).len(),
                n <= all.len(),
                n < all.len() ==> n >= MAX_NOTIFICATIONS,
                forall|id: u32| #[trigger]
                    start.notifications.dom().contains(id) && start.notifications[id].transient
                        ==> self@.notifications.dom().contains(id),
                forall|gone: u32, kept: u32|
                    #![trigger start.notifications.dom().contains(gone), self@.notifications.dom().contains(kept)]
                    start.notifications.dom().contains(gone) && !self@.notifications.dom().contains(gone)
                        && self@.notifications.dom().contains(kept) && !self@.notifications[kept].transient ==> age(
                        start.notifications[gone].timestamp,
                    ) <= age(self@.notifications[kept].timestamp),
            decreases n,
        {
            let ghost before = self@.notifications;
            let id: u32 = self.oldest();
            self.notifications.remove(&id);
            proof {
                let after = self@.notifications;
                assert(history(after) =~= history(before).remove(id));
                assert forall|gone: u32, kept: u32|
                    #![trigger start.notifications.dom().contains(gone), after.dom().contains(kept)]
                    start.notifications.dom().contains(gone) && !after.dom().contains(gone) && after.dom().contains(kept)
                        && !after[kept].transient implies age(start.notifications[gone].timestamp) <= age(
                    after[kept].timestamp,
                ) by {
                    assert(before.dom().contains(kept));
                    if gone == id {
                        assert(history(before).contains(kept));
                        assert(before[id] == start.notifications[id]);
                    } else {
                        assert(!before.dom().contains(gone));
                    }
                }
            }
            n -= 1;
        }
    }

    /// Keeps a notification, in place of one with the same identifier. It counts as not seen.
    pub fn store_notification(&mut self, notification: Notification) -> (out: Saved)
        ensures
            stored(old(self)@, notification, final(self)@),
            saved_from(out, final(self)@),
    {
        let id: u32 = notification.id;
        let ghost before = self@;
        self.seen_ids.remove(&id);
        self.notifications.insert(id, notification);
        let ghost mid = self@;
        self.enforce_notification_limit();
        proof {
            assert(mid.seen =~= before.seen.remove(id));
        }
        let out = self.save_state();
        proof {
            assert(self@.seen =~= before.seen.remove(id).intersect(self@.notifications.dom()));
        }
        out
    }
}

/// Whether `b` is the state after a notification was kept.
pub open spec fn stored(a: ServiceView, n: Notification, b: ServiceView) -> bool {
    &&& trimmed(a.notifications.insert(n.id, n), b.notifications)
    &&& b == (ServiceView {
        notifications: b.notifications,
        seen: a.seen.remove(n.id).intersect(b.notifications.dom()),
        ..a
    })
}

/// A notification that was closed.
#[derive(Clone, Copy, Debug, PartialEq, Eq, Structural)]
pub struct Closed {
    pub id: u32,
    pub reason: u32,
}

/// What follows when notifications leave: it is told to applications and listeners, and saved.
#[derive(Debug)]
pub struct Leaving {
    pub closed: Vec<Closed>,
    pub saved: Saved,
}

/// The state after a notification left.
pub open spec fn without(s: ServiceView, id: u32) -> ServiceView {
    pruned(ServiceView { notifications: s.notifications.remove(id), ..s })
}

/// What follows a request to show a notification.
#[derive(Debug)]
pub struct Notified {
    pub id: u32,
    /// What is saved first.
    pub saved: Saved,
    /// A notification that is only shown for a moment leaves at once while nothing is shown.
    pub leaving: Option<Leaving>,
}

/// The identifier of a new notification: that of the one it takes the place of, or the next one.
pub open spec fn id_for(s: ServiceView, replaces: Option<u32>) -> u32 {
    match replaces {
        Some(id) => if id != 0 && s.notifications.dom().contains(id) { id } else { s.next_id },
        None => s.next_id,
    }
}

/// The identifier after the next one. Zero is passed over.
pub open spec fn following(id: u32) -> u32 {
    if id == u32::MAX {
        1
    } else {
        (id + 1) as u32
    }
}

/// The state after the identifier of a new notification was taken.
pub open spec fn numbered(s: ServiceView, replaces: Option<u32>) -> ServiceView {
    match replaces {
        Some(id) => if id != 0 && s.notifications.dom().contains(id) {
            s
        } else {
            ServiceView { next_id: following(s.next_id), ..s }
        },
        None => ServiceView { next_id: following(s.next_id), ..s },
    }
}

impl NotificationService {
    /// Takes a notification away, if it is kept.
    pub fn close_internal(&mut self, id: u32, reason: u32) -> (leaving: Option<Leaving>)
        ensures
            leaving is Some <==> old(self)@.notifications.dom().contains(id),
            leaving is None ==> final(self)@ == old(self)@,
            leaving is Some ==> {
                &&& final(self)@ == without(old(self)@, id)
                &&& leaving->0.closed@ == seq![Closed { id, reason }]
                &&& saved_from(leaving->0.saved, final(self)@)
            },
    {
        let ghost before = self@;
        match self.notifications.remove(&id) {
            None => {
                proof {
                    assert(self@.notifications =~= before.notifications);
                }
                None
            }
            Some(_) => {
                let mut closed: Vec<Closed> = Vec::new();
                closed.push(Closed { id, reason });
                let saved = self.save_state();
                Some(Leaving { closed, saved })
            }
        }
    }

    /// Takes a notification away that the user dismissed.
    pub fn close(&mut self, id: u32) -> (leaving: Option<Leaving>)
        ensures
            leaving is Some <==> old(self)@.notifications.dom().contains(id),
            leaving is None ==> final(self)@ == old(self)@,
            leaving is Some ==> {
                &&& final(self)@ == without(old(self)@, id)
                &&& leaving->0.closed@ == seq![Closed { id, reason: CLOSE_REASON_DISMISSED }]
                &&& saved_from(leaving->0.saved, final(self)@)
            },
    {
        self.close_internal(id, CLOSE_REASON_DISMISSED)
    }

    /// Takes all notifications away, if there are any.
    pub fn close_all(&mut self) -> (leaving: Option<Leaving>)
        ensures
            leaving is None <==> old(self)@.notifications == Map::<u32, Notification>::empty(),
            leaving is None ==> final(self)@ == old(self)@,
            leaving is Some ==> {
                &&& final(self)@ == (ServiceView {
                    notifications: Map::empty(),
                    seen: Set::empty(),
                    ..old(self)@
                })
                &&& forall|id: u32|
                    old(self)@.notifications.dom().contains(id) <==> leaving->0.closed@.contains(
                        (Closed { id, reason: CLOSE_REASON_DISMISSED }),
                    )
                &&& leaving->0.closed@.len() == old(self)@.notifications.dom().len()
                &&& saved_from(leaving->0.saved, final(self)@)
            },
    {
        if self.notifications.is_empty() {
            proof {
                assert(self@.notifications =~= Map::empty());
            }
            return None;
        }
        let ghost before = self@;
        let mut closed: Vec<Closed> = Vec::new();
        let entries = entries_of(&self.notifications);
        let ghost pairs = pairs_of(entries@);
        proof {
            lemma_as_map(pairs);
        }
        let mut i: usize = 0;
        while i < entries.len()
            invariant
                i <= pairs.len(),
                pairs == pairs_of(entries@),
                closed@.len() == i,
                forall|j: int|
                    0 <= j < i ==> #[trigger] closed@[j] == (Closed { id: pairs[j].0, reason: CLOSE_REASON_DISMISSED }),
            decreases pairs.len() - i,
        {
            closed.push(Closed { id: entries[i].0, reason: CLOSE_REASON_DISMISSED });
            i += 1;
        }
        proof {
            assert forall|id: u32| before.notifications.dom().contains(id) <==> closed@.contains(
                (Closed { id, reason: CLOSE_REASON_DISMISSED }),
            ) by {
                let wanted = Closed { id, reason: CLOSE_REASON_DISMISSED };
                if before.notifications.dom().contains(id) {
                    assert(as_map(pairs).dom().contains(id));
                    let j = choose|j: int| 0 <= j < pairs.len() && (#[trigger] pairs[j]).0 == id;
                    assert(closed@[j] == wanted);
                }
                if closed@.contains(wanted) {
                    let j = choose|j: int| 0 <= j < closed@.len() && closed@[j] == wanted;
                    assert(pairs[j].0 == id);
                }
            }
        }
        self.notifications = HashMap::new();
        let saved = self.save_state();
        proof {
            assert(self@.seen =~= Set::empty());
        }
        Some(Leaving { closed, saved })
    }

    /// Takes the notification away whose action was invoked. Nothing is told of one that is not kept.
    pub fn invoke_action(&mut self, id: u32) -> (leaving: Option<Leaving>)
        ensures
            leaving is Some <==> old(self)@.notifications.dom().contains(id),
            leaving is None ==> final(self)@ == old(self)@,
            leaving is Some ==> {
                &&& final(self)@ == without(old(self)@, id)
                &&& leaving->0.closed@ == seq![Closed { id, reason: CLOSE_REASON_CLOSED }]
                &&& saved_from(leaving->0.saved, final(self)@)
            },
    {
        self.close_internal(id, CLOSE_REASON_CLOSED)
    }

    fn number(&mut self, replaces: Option<u32>) -> (id: u32)
        ensures
            id == id_for(old(self)@, replaces),
            final(self)@ == numbered(old(self)@, replaces),
    {
        match replaces {
            Some(id) => {
                if id != 0 && self.notifications.contains_key(&id) {
                    return id;
                }
            }
            None => {}
        }
        let id: u32 = self.next_id;
        self.next_id = if id == u32::MAX { 1 } else { id + 1 };
        id
    }

    /// Keeps the notification that a request asks for.
    pub fn handle_notify(&mut self, request: &NotifyRequest, timestamp: u64) -> (out: Notified)
        ensures
            out.id == id_for(old(self)@, request.replaces_id),
            exists|n: Notification, mid: ServiceView|
                #![trigger stored(numbered(old(self)@, request.replaces_id), n, mid)]
                n@ == requested(*request, out.id, timestamp) && stored(
                    numbered(old(self)@, request.replaces_id),
                    n,
                    mid,
                ) && saved_from(out.saved, mid) && if n.transient && old(self)@.muted {
                    final(self)@ == without(mid, out.id) && out.leaving is Some && out.leaving->0.closed@ == seq![
                        Closed { id: out.id, reason: CLOSE_REASON_DISMISSED },
                    ] && saved_from(out.leaving->0.saved, final(self)@)
                } else {
                    final(self)@ == mid && out.leaving is None
                },
    {
        let id: u32 = self.number(request.replaces_id);
        let ghost start = self@;
        let notification = notification_from(request, id, timestamp);
        let transient = notification.transient;
        let ghost n = notification;
        let saved = self.store_notification(notification);
        let ghost mid = self@;
        proof {
            assert(stored(start, n, mid));
            assert(saved_from(saved, mid));
            if transient {
                assert(start.notifications.insert(n.id, n).dom().contains(id));
            }
        }
        let leaving = if transient && self.muted { self.close_internal(id, CLOSE_REASON_DISMISSED) } else { None };
        Notified { id, saved, leaving }
    }

    /// Marks all kept notifications as seen; what is saved is returned where that changed something.
    pub fn mark_as_seen(&mut self) -> (out: Option<Saved>)
        ensures
            final(self)@ == (ServiceView { seen: history(old(self)@.notifications), ..old(self)@ }),
            out is None <==> old(self)@.seen == history(old(self)@.notifications),
            out is Some ==> saved_from(out->0, final(self)@),
            unread(final(self)@) == Set::<u32>::empty(),
    {
        let ghost before = self@;
        let entries = entries_of(&self.notifications);
        let ghost pairs = pairs_of(entries@);
        proof {
            lemma_as_map(pairs);
        }
        let mut seen: HashSet<u32> = HashSet::new();
        let mut all_seen = true;
        let mut i: usize = 0;
        while i < entries.len()
            invariant
                i <= pairs.len(),
                pairs == pairs_of(entries@),
                self@ == before,
                forall|id: u32|
                    seen@.contains(id) <==> exists|j: int|
                        0 <= j < i && (#[trigger] pairs[j]).0 == id && !pairs[j].1.transient,
                all_seen == forall|id: u32| #[trigger] seen@.contains(id) ==> before.seen.contains(id),
            decreases pairs.len() - i,
        {
            let ghost held = seen@;
            if !entries[i].1.transient {
                let id: u32 = entries[i].0;
                seen.insert(id);
                if !self.seen_ids.contains(&id) {
                    all_seen = false;
                    assert(seen@.contains(id));
                }
            }
            proof {
                assert forall|id: u32| seen@.contains(id) <==> exists|j: int|
                    0 <= j < i + 1 && (#[trigger] pairs[j]).0 == id && !pairs[j].1.transient by {
                    if held.contains(id) {
                        let j = choose|j: int| 0 <= j < i && (#[trigger] pairs[j]).0 == id && !pairs[j].1.transient;
                        assert(0 <= j < i + 1);
                    }
                    if seen@.contains(id) && !held.contains(id) {
                        assert(pairs[i as int].0 == id);
                    }
                }
                assert(forall|id: u32| #[trigger] held.contains(id) ==> seen@.contains(id));
            }
            i += 1;
        }
        proof {
            assert forall|id: u32| seen@.contains(id) == history(before.notifications).contains(id) by {
                if seen@.contains(id) {
                    let j = choose|j: int| 0 <= j < i && (#[trigger] pairs[j]).0 == id && !pairs[j].1.transient;
                    assert(before.notifications[pairs[j].0] == pairs[j].1);
                }
                if history(before.notifications).contains(id) {
                    assert(as_map(pairs).dom().contains(id));
                    let j = choose|j: int| 0 <= j < pairs.len() && (#[trigger] pairs[j]).0 == id;
                    assert(!pairs[j].1.transient);
                }
            }
            assert(seen@ =~= history(before.notifications));
        }
        let unchanged = all_seen && self.all_seen_kept(&seen);
        if unchanged {
            proof {
                assert(before.seen =~= seen@);
                assert(unread(self@) =~= Set::<u32>::empty());
            }
            return None;
        }
        self.seen_ids = seen;
        let out = self.save_state();
        proof {
            assert(history(before.notifications).intersect(before.notifications.dom()) =~= history(
                before.notifications,
            ));
            assert(unread(self@) =~= Set::<u32>::empty());
        }
        Some(out)
    }

    fn all_seen_kept(&self, other: &HashSet<u32>) -> (yes: bool)
        ensures
            yes == self@.seen.subset_of(other@),
    {
        let ids = self.seen_list();
        let mut i: usize = 0;
        while i < ids.len()
            invariant
                i <= ids@.len(),
                forall|id: u32| ids@.contains(id) <==> self@.seen.contains(id),
                forall|j: int| 0 <= j < i ==> other@.contains(#[trigger] ids@[j]),
            decreases ids@.len() - i,
        {
            let id: u32 = ids[i];
            if !other.contains(&id) {
                assert(ids@.contains(id));
                return false;
            }
            i += 1;
        }
        proof {
            assert forall|id: u32| self@.seen.contains(id) implies other@.contains(id) by {
                assert(ids@.contains(id));
                let j = choose|j: int| 0 <= j < ids@.len() && ids@[j] == id;
                assert(other@.contains(ids@[j]));
            }
        }
        true
    }

    /// One more output shows a notification.
    pub fn toast_shown(&mut self, id: u32)
        requires
            old(self)@.toasts.dom().contains(id) ==> old(self)@.toasts[id] < u32::MAX,
        ensures
            final(self)@ == (ServiceView { toasts: shown_once_more(old(self)@.toasts, id), ..old(self)@ }),
    {
        let n: u32 = match self.active_toasts.get(&id) {
            Some(k) => *k,
            None => 0,
        };
        self.active_toasts.insert(id, n + 1);
    }

    /// One output less shows a notification; tells whether one did.
    pub fn toast_hidden(&mut self, id: u32) -> (changed: bool)
        ensures
            changed == old(self)@.toasts.dom().contains(id),
            final(self)@ == (ServiceView { toasts: shown_once_less(old(self)@.toasts, id), ..old(self)@ }),
    {
        let ghost before = self@.toasts;
        let n: u32 = match self.active_toasts.get(&id) {
            Some(k) => *k,
            None => {
                proof {
                    assert(before.remove(id) =~= before);
                }
                return false;
            }
        };
        if n > 1 {
            self.active_toasts.insert(id, n - 1);
        } else {
            self.active_toasts.remove(&id);
        }
        true
    }

    /// Asks for listeners to be told of the unread count, and tells whether that is to be arranged:
    /// several requests are answered at once, and without listeners none is.
    pub fn schedule_unread_notify(&mut self, has_listeners: bool) -> (arrange: bool)
        ensures
            arrange == (has_listeners && !old(self)@.pending),
            final(self)@ == (ServiceView { pending: old(self)@.pending || has_listeners, ..old(self)@ }),
    {
        if !has_listeners || self.pending_unread_notify {
            return false;
        }
        self.pending_unread_notify = true;
        true
    }

    /// Listeners are told of the unread count.
    pub fn unread_notified(&mut self)
        ensures
            final(self)@ == (ServiceView { pending: false, ..old(self)@ }),
    {
        self.pending_unread_notify = false;
    }

    /// Sets whether notifications are shown; what is saved is returned where that changed.
    pub fn set_muted(&mut self, muted: bool) -> (out: Option<Saved>)
        ensures
            out is Some <==> old(self)@.muted != muted,
            out is None ==> final(self)@ == old(self)@,
            out is Some ==> final(self)@ == pruned(ServiceView { muted, ..old(self)@ }) && saved_from(out->0, final(self)@),
    {
        if self.muted == muted {
            return None;
        }
        self.muted = muted;
        Some(self.save_state())
    }

    /// Changes whether notifications are shown.
    pub fn toggle_muted(&mut self) -> (out: Option<Saved>)
        ensures
            final(self)@ == pruned(ServiceView { muted: !old(self)@.muted, ..old(self)@ }),
            out is Some && saved_from(out->0, final(self)@),
    {
        let muted = !self.muted;
        self.set_muted(muted)
    }

    pub fn is_muted(&self) -> (muted: bool)
        ensures
            muted == self@.muted,
    {
        self.muted
    }

    pub fn backend_available(&self) -> (available: bool)
        ensures
            available == self@.backend_available,
    {
        self.backend_available
    }

    /// Notifications of applications arrive here from now on.
    pub fn on_name_acquired(&mut self)
        ensures
            final(self)@ == (ServiceView { backend_available: true, ready: true, ..old(self)@ }),
    {
        self.backend_available = true;
        self.ready = true;
    }

    /// Notifications of applications arrive elsewhere; tells whether they arrived here before.
    pub fn on_name_lost(&mut self) -> (had: bool)
        ensures
            had == old(self)@.backend_available,
            final(self)@ == (ServiceView { backend_available: false, ready: true, ..old(self)@ }),
    {
        let had = self.backend_available;
        self.backend_available = false;
        self.ready = true;
        had
    }

    /// Marks the service as ready and tells whether it was not before.
    pub fn set_ready(&mut self) -> (first: bool)
        ensures
            first == !old(self)@.ready,
            final(self)@ == (ServiceView { ready: true, ..old(self)@ }),
    {
        let first = !self.ready;
        self.ready = true;
        first
    }
}

/// How often notifications are shown after one more time.
pub open spec fn shown_once_more(toasts: Map<u32, u32>, id: u32) -> Map<u32, u32> {
    toasts.insert(id, if toasts.dom().contains(id) { (toasts[id] + 1) as u32 } else { 1 })
}

/// How often notifications are shown after one time less.
pub open spec fn shown_once_less(toasts: Map<u32, u32>, id: u32) -> Map<u32, u32> {
    if toasts.dom().contains(id) && toasts[id] > 1 {
        toasts.insert(id, (toasts[id] - 1) as u32)
    } else {
        toasts.remove(id)
    }
}

/// Showing a notification and hiding it again changes nothing.
pub proof fn hiding_undoes_showing(toasts: Map<u32, u32>, id: u32)
    requires
        toasts.dom().contains(id) ==> 0 < toasts[id] < u32::MAX,
    ensures
        shown_once_less(shown_once_more(toasts, id), id) == toasts,
{
    assert(shown_once_less(shown_once_more(toasts, id), id) =~= toasts);
}

/// No notification gets the identifier 0, which stands for none.
pub proof fn identifiers_are_never_zero(s: ServiceView, replaces: Option<u32>)
    requires
        s.next_id != 0,
    ensures
        id_for(s, replaces) != 0,
        numbered(s, replaces).next_id != 0,
{
}

/// A notification that is kept for later counts as unread once it is stored again, unless it is
/// being shown, even if it was seen before.
pub proof fn replacement_is_unread(a: ServiceView, n: Notification, b: ServiceView)
    requires
        stored(a, n, b),
        a.backend_available,
        !n.transient,
        b.notifications.dom().contains(n.id),
        !a.toasts.dom().contains(n.id),
    ensures
        unread(b).contains(n.id),
{
    assert(a.notifications.insert(n.id, n).dom().contains(n.id));
    assert(b.notifications[n.id] == n);
}

/// Never more than [`MAX_NOTIFICATIONS`] notifications are kept for later, and one that is only
/// shown for a moment makes no other leave.
pub proof fn storing_is_bounded(a: ServiceView, n: Notification, b: ServiceView)
    requires
        stored(a, n, b),
        history(a.notifications).finite(),
    ensures
        history(b.notifications).len() <= MAX_NOTIFICATIONS,
        n.transient && !a.notifications.dom().contains(n.id) && history(a.notifications).len() <= MAX_NOTIFICATIONS
            ==> history(b.notifications).len() == history(a.notifications).len(),
{
    if n.transient && !a.notifications.dom().contains(n.id) {
        assert(history(a.notifications.insert(n.id, n)) =~= history(a.notifications));
    }
}

/// The state that was saved.
#[derive(Debug)]
pub struct Restored {
    pub muted: bool,
    pub next_id: u32,
    pub seen_ids: Vec<u32>,
    pub history: Vec<PersistedNotification>,
}

/// The largest identifier of some notifications.
pub open spec fn largest(list: Seq<PersistedView>) -> u32
    decreases list.len(),
{
    if list.len() == 0 {
        0
    } else if list.last().id > largest(list.drop_last()) {
        list.last().id
    } else {
        largest(list.drop_last())
    }
}

/// What some notifications hold.
pub open spec fn held(notifications: Map<u32, Notification>) -> Map<u32, crate::notification::NotificationView> {
    notifications.map_values(|n: Notification| n@)
}

/// The notifications that come back; of two with one identifier the later.
pub open spec fn brought_back(list: Seq<PersistedView>) -> Map<u32, crate::notification::NotificationView>
    decreases list.len(),
{
    if list.len() == 0 {
        Map::empty()
    } else {
        brought_back(list.drop_last()).insert(list.last().id, restored(list.last()))
    }
}

impl NotificationService {
    /// The service with what was saved. New notifications get identifiers above all that came back.
    pub fn new(state: Restored) -> (service: Self)
        requires
            largest(persisted_views(state.history@)) < u32::MAX,
        ensures
            held(service@.notifications) == brought_back(persisted_views(state.history@)),
            service@.muted == state.muted,
            service@.next_id == if state.next_id > largest(persisted_views(state.history@)) + 1 {
                state.next_id
            } else {
                (largest(persisted_views(state.history@)) + 1) as u32
            },
            forall|id: u32|
                service@.seen.contains(id) <==> state.seen_ids@.contains(id) && service@.notifications.dom().contains(
                    id,
                ),
            service@.toasts == Map::<u32, u32>::empty(),
            !service@.backend_available,
            !service@.pending,
            !service@.ready,
    {
        let Restored { muted, next_id, seen_ids, history: saved_list } = state;
        let ghost all = persisted_views(saved_list@);
        let mut rest = saved_list;
        let ghost given = rest@;
        let mut notifications: HashMap<u32, Notification> = HashMap::new();
        let mut max_id: u32 = 0;
        let ghost mut done: int = 0;
        proof {
            assert(given.skip(0) =~= given);
            assert(all.take(0) =~= Seq::empty());
            assert(held(notifications@) =~= Map::empty());
        }
        while rest.len() > 0
            invariant
                done + rest@.len() == all.len(),
                0 <= done,
                rest@ == given.skip(done),
                all == persisted_views(given),
                max_id == largest(all.take(done)),
                held(notifications@) == brought_back(all.take(done)),
            decreases rest@.len(),
        {
            let p = rest.remove(0);
            let ghost before = notifications@;
            proof {
                assert(p == given[done]);
                assert(p@ == all[done]);
                assert(rest@ =~= given.skip(done + 1));
                assert(all.take(done + 1).drop_last() =~= all.take(done));
                assert(all.take(done + 1).last() == p@);
            }
            let id: u32 = p.id;
            if id > max_id {
                max_id = id;
            }
            let notification = Notification::from_persisted(p);
            let ghost value = notification@;
            notifications.insert(id, notification);
            proof {
                assert(held(notifications@) =~= held(before).insert(id, value));
                done = done + 1;
            }
        }
        proof {
            assert(all.take(done) =~= all);
        }
        let mut seen: HashSet<u32> = HashSet::new();
        let mut i: usize = 0;
        while i < seen_ids.len()
            invariant
                i <= seen_ids@.len(),
                forall|id: u32|
                    seen@.contains(id) <==> notifications@.dom().contains(id) && exists|j: int|
                        0 <= j < i && #[trigger] seen_ids@[j] == id,
            decreases seen_ids@.len() - i,
        {
            let ghost kept = seen@;
            let id: u32 = seen_ids[i];
            if notifications.contains_key(&id) {
                seen.insert(id);
            }
            proof {
                assert forall|x: u32| seen@.contains(x) <==> notifications@.dom().contains(x) && exists|j: int|
                    0 <= j < i + 1 && #[trigger] seen_ids@[j] == x by {
                    if kept.contains(x) {
                        let j = choose|j: int| 0 <= j < i && #[trigger] seen_ids@[j] == x;
                        assert(0 <= j < i + 1);
                    }
                    assert(seen_ids@[i as int] == id);
                }
            }
            i += 1;
        }
        proof {
            assert forall|id: u32| seen@.contains(id) <==> state.seen_ids@.contains(id)
                && notifications@.dom().contains(id) by {
                if seen@.contains(id) {
                    let j = choose|j: int| 0 <= j < seen_ids@.len() && #[trigger] seen_ids@[j] == id;
                    assert(seen_ids@.contains(id));
                }
                if seen_ids@.contains(id) {
                    let j = choose|j: int| 0 <= j < seen_ids@.len() && seen_ids@[j] == id;
                    assert(seen_ids@[j] == id);
                }
            }
        }
        let above: u32 = max_id + 1;
        NotificationService {
            notifications,
            next_id: if next_id > above { next_id } else { above },
            backend_available: false,
            muted,
            seen_ids: seen,
            active_toasts: HashMap::new(),
            pending_unread_notify: false,
            ready: false,
        }
    }
}

/// Times are ordered as numbers are: those before 1970 are the smaller the larger their bit patterns, and come
/// before all others. Both zeros are the same time.
pub proof fn times_are_ordered_as_numbers(a: u64, b: u64)
    ensures
        a < 0x8000_0000_0000_0000 && b < 0x8000_0000_0000_0000 ==> (age(a) <= age(b) <==> a <= b),
        a > 0x8000_0000_0000_0000 && b > 0x8000_0000_0000_0000 ==> (age(a) <= age(b) <==> a >= b),
        a > 0x8000_0000_0000_0000 && b <= 0x8000_0000_0000_0000 ==> age(a) < age(b),
        age(0x8000_0000_0000_0000) == age(0),
{
}

/// A notification is kept for later exactly if it is not only for a moment. It is unread exactly if it is kept for
/// later, is not being shown and was not seen, where notifications arrive here.
pub proof fn unread_is_what_was_neither_shown_nor_seen(s: ServiceView, id: u32)
    ensures
        history(s.notifications).contains(id) <==> s.notifications.dom().contains(id) && !s.notifications[id].transient,
        unread(s).contains(id) <==> s.backend_available && s.notifications.dom().contains(id) && !s.notifications[id].transient
            && !s.toasts.dom().contains(id) && !s.seen.contains(id),
{
}

proof fn lemma_of_submap(a: Map<u32, Notification>, b: Map<u32, Notification>, id: u32)
    requires
        b.submap_of(a),
        b.dom().contains(id),
    ensures
        a.dom().contains(id),
        b[id] == a[id],
{
    assert(a.dom().contains(id));
}

/// At most a hundred notifications are kept for later, and of those that arrived after 1970 the newest. Nothing
/// leaves while there are no more, and those for a moment never do.
pub proof fn the_newest_notifications_are_kept(a: Map<u32, Notification>, b: Map<u32, Notification>)
    requires
        trimmed(a, b),
        history(a).finite(),
    ensures
        history(b).len() <= 100,
        history(a).len() > 100 ==> history(b).len() == 100,
        history(a).len() <= 100 ==> b == a,
        forall|id: u32| b.dom().contains(id) ==> a.dom().contains(id) && #[trigger] b[id] == a[id],
        forall|id: u32| a.dom().contains(id) && (#[trigger] a[id]).transient ==> b.dom().contains(id),
        forall|gone: u32, kept: u32|
            #![trigger a[gone], b[kept]]
            a.dom().contains(gone) && !b.dom().contains(gone) && b.dom().contains(kept) && !b[kept].transient
                && a[gone].timestamp < 0x8000_0000_0000_0000 && b[kept].timestamp < 0x8000_0000_0000_0000
                ==> a[gone].timestamp <= b[kept].timestamp,
{
    assert forall|gone: u32, kept: u32|
        #![trigger a[gone], b[kept]]
        a.dom().contains(gone) && !b.dom().contains(gone) && b.dom().contains(kept) && !b[kept].transient
            && a[gone].timestamp < 0x8000_0000_0000_0000 && b[kept].timestamp < 0x8000_0000_0000_0000 implies a[gone].timestamp
        <= b[kept].timestamp by {
        assert(a.dom().contains(gone) && b.dom().contains(kept));
    }
    if history(a).len() <= 100 {
        assert forall|id: u32| history(b).contains(id) implies history(a).contains(id) by {
            lemma_of_submap(a, b, id);
        }
        vstd::set_lib::lemma_subset_equality(history(b), history(a));
        assert forall|id: u32| a.dom().contains(id) implies b.dom().contains(id) by {
            if !a[id].transient {
                assert(history(a).contains(id));
                assert(history(b).contains(id));
            }
        }
        assert(b =~= a);
    }
}

/// What is kept takes the place of what had its identifier, counts as not seen, and touches nothing else. It stays
/// unless others kept it from being among the newest.
pub proof fn kept_notifications_are_not_seen(a: ServiceView, n: Notification, b: ServiceView, id: u32)
    requires
        stored(a, n, b),
    ensures
        !b.seen.contains(n.id),
        b.notifications.dom().contains(n.id) ==> b.notifications[n.id] == n,
        n.transient ==> b.notifications.dom().contains(n.id),
        id != n.id && b.notifications.dom().contains(id) ==> a.notifications.dom().contains(id) && b.notifications[id]
            == a.notifications[id],
        id != n.id ==> (b.seen.contains(id) <==> a.seen.contains(id) && b.notifications.dom().contains(id)),
        b.muted == a.muted && b.next_id == a.next_id && b.toasts == a.toasts && b.backend_available == a.backend_available
            && b.pending == a.pending && b.ready == a.ready,
{
    let all = a.notifications.insert(n.id, n);
    assert(all.dom().contains(n.id));
    if b.notifications.dom().contains(id) {
        lemma_of_submap(all, b.notifications, id);
    }
    if b.notifications.dom().contains(n.id) {
        lemma_of_submap(all, b.notifications, n.id);
    }
}

/// A notification that leaves is neither kept nor seen any more; all others stay as they are.
pub proof fn notifications_leave_alone(s: ServiceView, id: u32, other: u32)
    ensures
        !without(s, id).notifications.dom().contains(id),
        !without(s, id).seen.contains(id),
        other != id ==> (without(s, id).notifications.dom().contains(other) <==> s.notifications.dom().contains(other)),
        other != id && s.notifications.dom().contains(other) ==> without(s, id).notifications[other]
            == s.notifications[other] && (without(s, id).seen.contains(other) <==> s.seen.contains(other)),
        without(s, id).next_id == s.next_id && without(s, id).muted == s.muted && without(s, id).toasts == s.toasts,
{
}

/// A notification that takes the place of one that is kept gets its identifier. Every other gets the next one,
/// and the one after is larger by one, or one at the end of the numbers.
pub proof fn identifiers_are_taken_in_turn(s: ServiceView, replaces: Option<u32>)
    ensures
        replaces matches Some(id) ==> (id != 0 && s.notifications.dom().contains(id) ==> id_for(s, replaces) == id && numbered(
            s,
            replaces,
        ) == s),
        (replaces is None || replaces->0 == 0 || !s.notifications.dom().contains(replaces->0)) ==> {
            &&& id_for(s, replaces) == s.next_id
            &&& s.next_id < u32::MAX ==> numbered(s, replaces).next_id == s.next_id + 1
            &&& s.next_id == u32::MAX ==> numbered(s, replaces).next_id == 1
            &&& numbered(s, replaces).notifications == s.notifications && numbered(s, replaces).seen == s.seen
        },
{
}

/// A notification is being shown from the first output that shows it until the last one hides it.
pub proof fn outputs_that_show_are_counted(toasts: Map<u32, u32>, id: u32, other: u32)
    requires
        toasts.dom().contains(id) ==> 0 < toasts[id] < u32::MAX,
    ensures
        shown_once_more(toasts, id).dom().contains(id),
        toasts.dom().contains(id) ==> shown_once_more(toasts, id)[id] == toasts[id] + 1,
        !toasts.dom().contains(id) ==> shown_once_more(toasts, id)[id] == 1,
        shown_once_less(toasts, id).dom().contains(id) <==> toasts.dom().contains(id) && toasts[id] > 1,
        toasts.dom().contains(id) && toasts[id] > 1 ==> shown_once_less(toasts, id)[id] == toasts[id] - 1,
        other != id ==> (shown_once_more(toasts, id).dom().contains(other) <==> toasts.dom().contains(other)),
        other != id ==> (shown_once_less(toasts, id).dom().contains(other) <==> toasts.dom().contains(other)),
        other != id && toasts.dom().contains(other) ==> shown_once_more(toasts, id)[other] == toasts[other]
            && shown_once_less(toasts, id)[other] == toasts[other],
{
}

proof fn lemma_saved_of(pairs: Seq<(u32, Notification)>, p: PersistedView)
    ensures
        saved_of(pairs).contains(p) <==> exists|i: int|
            0 <= i < pairs.len() && !(#[trigger] pairs[i]).1.transient && saved(pairs[i].1@) == p,
    decreases pairs.len(),
{
    if pairs.len() > 0 {
        let head = pairs.drop_last();
        let before = saved_of(head);
        let after = saved_of(pairs);
        lemma_saved_of(head, p);
        assert(pairs[pairs.len() - 1] == pairs.last());
        if before.contains(p) {
            let i = choose|i: int| 0 <= i < head.len() && !(#[trigger] head[i]).1.transient && saved(head[i].1@) == p;
            assert(pairs[i] == head[i]);
            let k = choose|k: int| 0 <= k < before.len() && before[k] == p;
            assert(after[k] == p);
        }
        if !pairs.last().1.transient {
            assert(after[before.len() as int] == saved(pairs.last().1@));
        }
        if exists|i: int| 0 <= i < pairs.len() && !(#[trigger] pairs[i]).1.transient && saved(pairs[i].1@) == p {
            let i = choose|i: int| 0 <= i < pairs.len() && !(#[trigger] pairs[i]).1.transient && saved(pairs[i].1@) == p;
            if i < head.len() {
                assert(head[i] == pairs[i]);
            }
        }
        if after.contains(p) && !before.contains(p) {
            let k = choose|k: int| 0 <= k < after.len() && after[k] == p;
            assert(k == before.len());
        }
    }
}

/// What is saved holds every notification that is kept for later and no other, the most recent first. It tells
/// which were seen, in ascending order.
pub proof fn what_is_kept_is_saved(out: Saved, s: ServiceView, p: PersistedView, i: int, j: int)
    requires
        saved_from(out, s),
    ensures
        persisted_views(out.history@).contains(p) <==> exists|id: u32| #[trigger]
            s.notifications.dom().contains(id) && !s.notifications[id].transient && saved(s.notifications[id]@) == p,
        0 <= i < j < out.history@.len() && out.history@[i].timestamp < 0x8000_0000_0000_0000 && out.history@[j].timestamp
            < 0x8000_0000_0000_0000 ==> out.history@[i].timestamp >= out.history@[j].timestamp,
        out.muted == s.muted,
        out.next_id == s.next_id,
        forall|id: u32| out.seen_ids@.contains(id) <==> s.seen.contains(id),
        0 <= i < j < out.seen_ids@.len() ==> out.seen_ids@[i] < out.seen_ids@[j],
{
    let pairs = choose|pairs: Seq<(u32, Notification)>| #[trigger]
        saves(out, s, pairs) && distinct(pairs) && as_map(pairs) == s.notifications;
    let list = saved_of(pairs);
    let views = persisted_views(out.history@);
    lemma_as_map(pairs);
    lemma_saved_of(pairs, p);
    order::ranked_is_stable_sort(list);
    order::ranked_holds_the_same(list, p);
    if list.contains(p) {
        let k = choose|k: int| 0 <= k < pairs.len() && !(#[trigger] pairs[k]).1.transient && saved(pairs[k].1@) == p;
        assert(s.notifications.dom().contains(pairs[k].0));
    }
    if exists|id: u32| #[trigger]
        s.notifications.dom().contains(id) && !s.notifications[id].transient && saved(s.notifications[id]@) == p {
        let id = choose|id: u32| #[trigger]
            s.notifications.dom().contains(id) && !s.notifications[id].transient && saved(s.notifications[id]@) == p;
        assert(as_map(pairs).dom().contains(id));
        let k = choose|k: int| 0 <= k < pairs.len() && (#[trigger] pairs[k]).0 == id;
        assert(pairs[k].1 == s.notifications[id]);
    }
    if 0 <= i < j < out.history@.len() {
        assert(!views[j].before(views[i]));
        assert(views[i] == out.history@[i]@ && views[j] == out.history@[j]@);
    }
}

/// Every notification that was saved comes back; of two with one identifier the later. The largest identifier is one
/// that came back, and none is larger.
pub proof fn saved_notifications_come_back(list: Seq<PersistedView>, id: u32, i: int)
    requires
        0 <= i < list.len(),
    ensures
        brought_back(list).dom().contains(id) <==> exists|k: int| 0 <= k < list.len() && (#[trigger] list[k]).id == id,
        (forall|k: int| i < k < list.len() ==> (#[trigger] list[k]).id != list[i].id) ==> brought_back(list).dom().contains(
            list[i].id,
        ) && brought_back(list)[list[i].id] == restored(list[i]),
        list[i].id <= largest(list),
        exists|k: int| 0 <= k < list.len() && (#[trigger] list[k]).id == largest(list),
    decreases list.len(),
{
    let head = list.drop_last();
    assert(list[list.len() - 1] == list.last());
    if head.len() > 0 {
        let h = if i < head.len() { i } else { 0 };
        saved_notifications_come_back(head, id, h);
        if exists|k: int| 0 <= k < head.len() && (#[trigger] head[k]).id == id {
            let k = choose|k: int| 0 <= k < head.len() && (#[trigger] head[k]).id == id;
            assert(list[k].id == id);
        }
        let m = choose|m: int| 0 <= m < head.len() && (#[trigger] head[m]).id == largest(head);
        assert(list[m].id == largest(head));
        if exists|k: int| 0 <= k < list.len() && (#[trigger] list[k]).id == id {
            let k = choose|k: int| 0 <= k < list.len() && (#[trigger] list[k]).id == id;
            if k < head.len() {
                assert(head[k].id == id);
            }
        }
        if i < head.len() && (forall|k: int| i < k < list.len() ==> (#[trigger] list[k]).id != list[i].id) {
            assert(list[list.len() - 1].id != list[i].id);
            assert forall|k: int| i < k < head.len() implies (#[trigger] head[k]).id != head[i].id by {
                assert(list[k].id != list[i].id);
            }
        }
    } else {
        assert(brought_back(head) == Map::<u32, crate::notification::NotificationView>::empty());
    }
}

/// Those that are kept for later are notifications that are there and that are not shown only for a moment.
pub proof fn kept_notifications_are_there(notifications: Map<u32, Notification>, n: Notification, id: u32)
    ensures
        kept_for_later(notifications, n) ==> !n.transient,
        kept_for_later(notifications, n) ==> exists|k: u32| #[trigger] notifications.dom().contains(k) && notifications[k] == n,
        notifications.dom().contains(id) && !notifications[id].transient ==> kept_for_later(notifications, notifications[id]),
{
    if kept_for_later(notifications, n) {
        let k = choose|k: u32| #[trigger] history(notifications).contains(k) && notifications[k] == n;
        assert(notifications.dom().contains(k));
    }
    if notifications.dom().contains(id) && !notifications[id].transient {
        assert(history(notifications).contains(id));
    }
}

} // verus!
