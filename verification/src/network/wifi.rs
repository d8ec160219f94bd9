//! Wi-Fi rows: which access point is confirmed, which rows are shown and in what order.

use vstd::prelude::*;
use crate::network::{SecurityType, WifiNetwork, WifiState, WifiView};
use crate::order::{self, Order, Ranked};
use crate::text::{self, chars_before, chars_of};

verus! {

/// Device state of an activated device.
pub const DEVICE_STATE_ACTIVATED: u32 = 100;

/// Whether the device confirms a connection through an access point: Wi-Fi is not switched
/// off, the device is activated, and it names an access point.
pub open spec fn confirmed(enabled: Option<bool>, device_state: Option<u32>, ap: Option<Seq<char>>) -> bool {
    &&& enabled != Some(false)
    &&& device_state == Some(DEVICE_STATE_ACTIVATED)
    &&& ap is Some
    &&& ap->0 != "/"@
}

/// `networks` with the access point `ap` marked active and no other.
pub open spec fn marked(networks: Seq<WifiNetwork>, ap: Option<Seq<char>>) -> Seq<WifiNetwork> {
    networks.map_values(|n: WifiNetwork| WifiNetwork { active: ap is Some && chars_of(n.path) == ap, ..n })
}

/// The first network that stands for the access point `ap`.
pub open spec fn at_access_point(networks: Seq<WifiNetwork>, ap: Seq<char>) -> Option<WifiNetwork>
    decreases networks.len(),
{
    if networks.len() == 0 {
        None
    } else if chars_of(networks[0].path) == Some(ap) {
        Some(networks[0])
    } else {
        at_access_point(networks.drop_first(), ap)
    }
}

/// The Wi-Fi state once its connection follows the device state, the active access point and
/// the list of networks.
pub open spec fn reconciled(
    state: WifiView,
    device_state: Option<u32>,
    active_ap: Option<Seq<char>>,
    networks: Seq<WifiNetwork>,
) -> WifiView {
    let connected = confirmed(state.enabled, device_state, active_ap);
    let ap = if connected { active_ap } else { None };
    let row = if connected { at_access_point(networks, active_ap->0) } else { None };
    WifiView {
        connected,
        networks: marked(networks, ap),
        ssid: (if row is Some { Some(row->0.ssid) } else { None }),
        strength: (if row is Some { row->0.strength } else { 0 }),
        ..state
    }
}

impl WifiState {
    /// Derives the connection and the rows from what the device reports.
    ///
    /// The active flags of `networks` are not trusted: a row is active exactly when the
    /// device confirms a connection through its access point.
    pub fn reconcile_connection(
        &mut self,
        device_state: Option<u32>,
        active_ap: Option<&str>,
        networks: &Vec<WifiNetwork>,
    )
        ensures
            final(self)@ == reconciled(
                old(self)@,
                device_state,
                (match active_ap {
                    Some(ap) => Some(ap@),
                    None => None,
                }),
                networks@,
            ),
    {
        let ghost before = self@;
        let ghost ap_chars: Option<Seq<char>> = match active_ap {
            Some(ap) => Some(ap@),
            None => None,
        };
        let off = match self.enabled {
            Some(enabled) => !enabled,
            None => false,
        };
        let activated = match device_state {
            Some(state) => state == DEVICE_STATE_ACTIVATED,
            None => false,
        };
        let named = match active_ap {
            Some(ap) => !text::str_eq(ap, "/"),
            None => false,
        };
        let connected = !off && activated && named;
        assert(connected == confirmed(before.enabled, device_state, ap_chars));
        let ghost ap = if connected { ap_chars } else { None };
        let mut rows: Vec<WifiNetwork> = Vec::new();
        let mut ssid: Option<String> = None;
        let mut strength: i32 = 0;
        let mut found = false;
        let mut i: usize = 0;
        proof {
            assert(networks@.skip(0) =~= networks@);
        }
        while i < networks.len()
            invariant
                i <= networks@.len(),
                connected ==> active_ap is Some,
                ap_chars == (match active_ap {
                    Some(ap) => Some(ap@),
                    None => None,
                }),
                ap == (if connected { ap_chars } else { None }),
                rows@ == marked(networks@, ap).take(i as int),
                !connected ==> !found,
                found ==> at_access_point(networks@, ap->0) is Some && ssid == Some(at_access_point(networks@, ap->0)->0.ssid)
                    && strength == at_access_point(networks@, ap->0)->0.strength,
                !found ==> ssid is None && strength == 0,
                !found && connected ==> at_access_point(networks@, ap->0) == at_access_point(networks@.skip(i as int), ap->0),
            decreases networks@.len() - i,
        {
            let mut row = networks[i].clone();
            let matches_ap = match (active_ap, &row.path) {
                (Some(ap), Some(path)) => connected && text::str_eq(path.as_str(), ap),
                _ => false,
            };
            proof {
                assert(networks@.skip(i as int)[0] == networks@[i as int]);
                assert(networks@.skip(i as int).drop_first() =~= networks@.skip(i + 1));
                assert(matches_ap == (ap is Some && chars_of(networks@[i as int].path) == ap));
            }
            if matches_ap && !found {
                ssid = Some(row.ssid.clone());
                strength = row.strength;
                found = true;
            }
            row.active = matches_ap;
            rows.push(row);
            i += 1;
            proof {
                assert(marked(networks@, ap).take(i as int) =~= marked(networks@, ap).take(i - 1).push(marked(networks@, ap)[i - 1]));
            }
        }
        proof {
            assert(marked(networks@, ap).take(i as int) =~= marked(networks@, ap));
            assert(networks@.skip(i as int).len() == 0);
        }
        self.connected = connected;
        self.networks = rows;
        self.ssid = ssid;
        self.strength = strength;
    }
}

/// Rows with equal keys stand for one network.
pub open spec fn same_row(a: WifiNetwork, b: WifiNetwork) -> bool {
    a.ssid@ == b.ssid@ && a.security == b.security
}

/// Whether `b` shows a network better than `a`: an active access point beats an inactive one,
/// and a stronger one a weaker one.
pub open spec fn better(a: WifiNetwork, b: WifiNetwork) -> bool {
    (b.active && !a.active) || (b.active == a.active && b.strength > a.strength)
}

/// One row for both networks: the access point of the better one, the flags of both.
pub open spec fn merge(row: WifiNetwork, net: WifiNetwork) -> WifiNetwork {
    WifiNetwork {
        path: if better(row, net) { net.path } else { row.path },
        strength: if better(row, net) { net.strength } else { row.strength },
        active: row.active || net.active,
        known: row.known || net.known,
        ..row
    }
}

/// The first row for the network of `net`.
pub open spec fn row_of(rows: Seq<WifiNetwork>, net: WifiNetwork) -> Option<int>
    decreases rows.len(),
{
    if rows.len() == 0 {
        None
    } else if row_of(rows.drop_last(), net) is Some {
        row_of(rows.drop_last(), net)
    } else if same_row(rows.last(), net) {
        Some(rows.len() - 1)
    } else {
        None
    }
}

/// The rows after `net` has been merged in.
pub open spec fn merged_in(rows: Seq<WifiNetwork>, net: WifiNetwork) -> Seq<WifiNetwork> {
    match row_of(rows, net) {
        Some(i) => rows.update(i, merge(rows[i], net)),
        None => rows.push(net),
    }
}

/// One row for each network, in the order in which the networks first occur.
pub open spec fn deduped(networks: Seq<WifiNetwork>) -> Seq<WifiNetwork>
    decreases networks.len(),
{
    if networks.len() == 0 {
        Seq::empty()
    } else {
        merged_in(deduped(networks.drop_last()), networks.last())
    }
}

proof fn lemma_row_of(rows: Seq<WifiNetwork>, net: WifiNetwork)
    ensures
        match row_of(rows, net) {
            Some(i) => 0 <= i < rows.len() && same_row(rows[i], net) && forall|j: int| 0 <= j < i ==> !same_row(
                #[trigger] rows[j],
                net,
            ),
            None => forall|j: int| 0 <= j < rows.len() ==> !same_row(#[trigger] rows[j], net),
        },
    decreases rows.len(),
{
    if rows.len() > 0 {
        lemma_row_of(rows.drop_last(), net);
        assert forall|j: int| 0 <= j < rows.len() - 1 implies rows.drop_last()[j] == #[trigger] rows[j] by {}
    }
}

fn find_row(rows: &Vec<WifiNetwork>, net: &WifiNetwork) -> (found: Option<usize>)
    ensures
        match found {
            Some(i) => row_of(rows@, *net) == Some(i as int) && i < rows@.len(),
            None => row_of(rows@, *net) is None,
        },
{
    let mut i: usize = 0;
    while i < rows.len()
        invariant
            i <= rows@.len(),
            forall|j: int| 0 <= j < i ==> !same_row(#[trigger] rows@[j], *net),
        decreases rows@.len() - i,
    {
        if rows[i].security == net.security && text::str_eq(rows[i].ssid.as_str(), net.ssid.as_str()) {
            proof {
                lemma_row_of(rows@, *net);
            }
            return Some(i);
        }
        i += 1;
    }
    proof {
        lemma_row_of(rows@, *net);
    }
    None
}

/// One row for each SSID and security, showing its active or else its strongest access point.
pub fn dedupe_networks(networks: Vec<WifiNetwork>) -> (rows: Vec<WifiNetwork>)
    ensures
        rows@ == deduped(networks@),
{
    let mut rows: Vec<WifiNetwork> = Vec::new();
    let mut i: usize = 0;
    while i < networks.len()
        invariant
            i <= networks@.len(),
            rows@ == deduped(networks@.take(i as int)),
        decreases networks@.len() - i,
    {
        let net = networks[i].clone();
        proof {
            assert(networks@.take(i + 1).drop_last() =~= networks@.take(i as int));
        }
        match find_row(&rows, &net) {
            Some(at) => {
                let row = rows[at].clone();
                let net_better = (net.active && !row.active) || (net.active == row.active && net.strength > row.strength);
                let active = row.active || net.active;
                let known = row.known || net.known;
                let merged = if net_better {
                    WifiNetwork { path: net.path, strength: net.strength, active, known, ..row }
                } else {
                    WifiNetwork { active, known, ..row }
                };
                rows.set(at, merged);
            }
            None => {
                rows.push(net);
            }
        }
        i += 1;
    }
    proof {
        assert(networks@.take(i as int) =~= networks@);
    }
    rows
}

/// No two rows stand for the same network.
pub open spec fn distinct_rows(rows: Seq<WifiNetwork>) -> bool {
    forall|i: int, j: int| #![trigger rows[i], rows[j]] 0 <= i < j < rows.len() ==> !same_row(rows[i], rows[j])
}

/// Whether `row` shows what `networks` hold of its network: it is active or known exactly when
/// one of its access points is, and its access point is one that no other betters.
#[verifier::opaque]
pub open spec fn summarises(networks: Seq<WifiNetwork>, row: WifiNetwork) -> bool {
    &&& row.active <==> exists|i: int| 0 <= i < networks.len() && same_row(#[trigger] networks[i], row) && networks[i].active
    &&& row.known <==> exists|i: int| 0 <= i < networks.len() && same_row(#[trigger] networks[i], row) && networks[i].known
    &&& exists|i: int|
        0 <= i < networks.len() && same_row(#[trigger] networks[i], row) && networks[i].path == row.path
            && networks[i].strength == row.strength && networks[i].active == row.active
    &&& forall|i: int|
        0 <= i < networks.len() && same_row(#[trigger] networks[i], row) && networks[i].active == row.active
            ==> networks[i].strength <= row.strength
}

/// Deduplication leaves one row for each network, every network has its row, and each row
/// summarises the access points of its network.
pub proof fn deduped_rows_summarise(networks: Seq<WifiNetwork>)
    ensures
        distinct_rows(deduped(networks)),
        forall|i: int|
            0 <= i < networks.len() ==> exists|j: int|
                0 <= j < deduped(networks).len() && same_row(#[trigger] deduped(networks)[j], #[trigger] networks[i]),
        forall|j: int| 0 <= j < deduped(networks).len() ==> summarises(networks, #[trigger] deduped(networks)[j]),
    decreases networks.len(),
{
    if networks.len() > 0 {
        let old_nets = networks.drop_last();
        let net = networks.last();
        let rows = deduped(old_nets);
        let new_rows = deduped(networks);
        deduped_rows_summarise(old_nets);
        lemma_row_of(rows, net);
        let at = row_of(rows, net);
        assert forall|i: int| 0 <= i < old_nets.len() implies old_nets[i] == #[trigger] networks[i] by {}
        assert(networks[networks.len() - 1] == net);
        assert forall|j: int| 0 <= j < new_rows.len() implies summarises(networks, #[trigger] new_rows[j]) by {
            let row = new_rows[j];
            if at == Some(j) {
                let r = rows[j];
                assert(row == merge(r, net));
                assert(summarises(old_nets, r));
                lemma_merge_summarises(old_nets, r, net);
                assert(old_nets.push(net) =~= networks);
            } else if j < rows.len() {
                assert(row == rows[j]);
                assert(summarises(old_nets, row));
                if at is Some {
                    assert(!same_row(rows[at->0], rows[j])) by {
                        if at->0 < j {
                            assert(rows[at->0] == rows[at->0] && rows[j] == rows[j]);
                        }
                    }
                }
                assert(!same_row(net, row));
                lemma_other_summarises(old_nets, row, net);
                assert(old_nets.push(net) =~= networks);
            } else {
                assert(row == net);
                assert forall|i: int| 0 <= i < old_nets.len() implies !same_row(#[trigger] old_nets[i], net) by {
                    if same_row(old_nets[i], net) {
                        let k = choose|k: int| 0 <= k < rows.len() && same_row(#[trigger] rows[k], old_nets[i]);
                        assert(same_row(rows[k], net));
                    }
                }
                lemma_new_row_summarises(old_nets, net);
                assert(old_nets.push(net) =~= networks);
            }
        }
        assert forall|i: int| 0 <= i < networks.len() implies exists|j: int|
            0 <= j < new_rows.len() && same_row(#[trigger] new_rows[j], #[trigger] networks[i]) by {
            if i < old_nets.len() {
                assert(old_nets[i] == networks[i]);
                let k = choose|k: int| 0 <= k < rows.len() && same_row(#[trigger] rows[k], old_nets[i]);
                assert(same_row(new_rows[k], networks[i]));
            } else if at is Some {
                assert(same_row(new_rows[at->0], networks[i]));
            } else {
                assert(new_rows[rows.len() as int] == net);
                assert(same_row(new_rows[rows.len() as int], networks[i]));
            }
        }
        assert forall|i: int, j: int| #![trigger new_rows[i], new_rows[j]] 0 <= i < j < new_rows.len() implies !same_row(
            new_rows[i],
            new_rows[j],
        ) by {
            if j < rows.len() {
                assert(!same_row(rows[i], rows[j]));
            } else {
                assert(!same_row(rows[i], net));
            }
        }
    }
}

proof fn lemma_merge_summarises(nets: Seq<WifiNetwork>, row: WifiNetwork, net: WifiNetwork)
    requires
        summarises(nets, row),
        same_row(row, net),
    ensures
        summarises(nets.push(net), merge(row, net)),
{
    reveal(summarises);
    let all = nets.push(net);
    let merged = merge(row, net);
    assert forall|i: int| 0 <= i < nets.len() implies nets[i] == #[trigger] all[i] by {}
    assert(all[nets.len() as int] == net);
    let b = choose|i: int|
        0 <= i < nets.len() && same_row(#[trigger] nets[i], row) && nets[i].path == row.path && nets[i].strength
            == row.strength && nets[i].active == row.active;
    if row.active {
        let i = choose|i: int| 0 <= i < nets.len() && same_row(#[trigger] nets[i], row) && nets[i].active;
        assert(same_row(all[i], merged) && all[i].active);
    }
    if row.known {
        let i = choose|i: int| 0 <= i < nets.len() && same_row(#[trigger] nets[i], row) && nets[i].known;
        assert(same_row(all[i], merged) && all[i].known);
    }
    assert(same_row(all[nets.len() as int], merged));
    if better(row, net) {
        assert(all[nets.len() as int].path == merged.path);
    } else {
        assert(same_row(all[b], merged) && all[b].path == merged.path);
    }
    assert forall|i: int| 0 <= i < all.len() && same_row(#[trigger] all[i], merged) && all[i].active == merged.active
        implies all[i].strength <= merged.strength by {
        if i < nets.len() {
            assert(same_row(nets[i], row));
        }
    }
}

proof fn lemma_new_row_summarises(nets: Seq<WifiNetwork>, net: WifiNetwork)
    requires
        forall|i: int| 0 <= i < nets.len() ==> !same_row(#[trigger] nets[i], net),
    ensures
        summarises(nets.push(net), net),
{
    reveal(summarises);
    let all = nets.push(net);
    assert forall|i: int| 0 <= i < nets.len() implies !same_row(#[trigger] all[i], net) by {
        assert(all[i] == nets[i]);
    }
    assert(same_row(all[nets.len() as int], net));
}

proof fn lemma_other_summarises(nets: Seq<WifiNetwork>, row: WifiNetwork, net: WifiNetwork)
    requires
        summarises(nets, row),
        !same_row(net, row),
    ensures
        summarises(nets.push(net), row),
{
    reveal(summarises);
    let all = nets.push(net);
    assert forall|i: int| 0 <= i < nets.len() implies nets[i] == #[trigger] all[i] by {}
    assert(all[nets.len() as int] == net);
    let b = choose|i: int|
        0 <= i < nets.len() && same_row(#[trigger] nets[i], row) && nets[i].path == row.path && nets[i].strength
            == row.strength && nets[i].active == row.active;
    assert(same_row(all[b], row));
    if row.active {
        let i = choose|i: int| 0 <= i < nets.len() && same_row(#[trigger] nets[i], row) && nets[i].active;
        assert(same_row(all[i], row) && all[i].active);
    }
    if row.known {
        let i = choose|i: int| 0 <= i < nets.len() && same_row(#[trigger] nets[i], row) && nets[i].known;
        assert(same_row(all[i], row) && all[i].known);
    }
    assert forall|i: int| 0 <= i < all.len() && same_row(#[trigger] all[i], row) && all[i].active == row.active
        implies all[i].strength <= row.strength by {
        if i < nets.len() {
            assert(same_row(nets[i], row));
        }
    }
}

/// Group of a row: active rows first, then known networks, then the others.
pub open spec fn group(n: WifiNetwork) -> int {
    if n.active {
        0
    } else if n.known {
        1
    } else {
        2
    }
}

fn group_of(n: &WifiNetwork) -> (g: u8)
    ensures
        g == group(*n),
{
    if n.active {
        0
    } else if n.known {
        1
    } else {
        2
    }
}

impl Order for WifiNetwork {
    /// By group, then by descending strength, then by SSID.
    open spec fn before(self, other: Self) -> bool {
        if group(self) != group(other) {
            group(self) < group(other)
        } else if self.strength != other.strength {
            self.strength > other.strength
        } else {
            chars_before(self.ssid@, other.ssid@)
        }
    }

    proof fn before_is_asymmetric(a: Self, b: Self) {
        text::chars_before_is_asymmetric(a.ssid@, b.ssid@);
    }

    proof fn before_is_weak(a: Self, b: Self, c: Self) {
        text::chars_before_is_weak(a.ssid@, b.ssid@, c.ssid@);
    }
}

impl Ranked for WifiNetwork {
    fn is_before(&self, other: &Self) -> (yes: bool) {
        let mine: u8 = group_of(self);
        let theirs: u8 = group_of(other);
        if mine != theirs {
            mine < theirs
        } else if self.strength != other.strength {
            self.strength > other.strength
        } else {
            text::str_before(self.ssid.as_str(), other.ssid.as_str())
        }
    }
}

/// Active rows first, then known networks, then the others; each group by strength and SSID.
pub fn sort_networks(networks: Vec<WifiNetwork>) -> (sorted: Vec<WifiNetwork>)
    ensures
        sorted@ == order::ranked(networks@),
        order::is_stable_sort(networks@, sorted@),
{
    order::stable_sort(networks)
}

/// Every sorted row shows the access point of a network that is active as the row is.
pub proof fn sorted_row_has_source(networks: Seq<WifiNetwork>, j: int)
    requires
        0 <= j < order::ranked(deduped(networks)).len(),
    ensures
        exists|i: int|
            0 <= i < networks.len() && (#[trigger] networks[i]).path == order::ranked(deduped(networks))[j].path
                && networks[i].active == order::ranked(deduped(networks))[j].active,
{
    let rows = deduped(networks);
    let row = order::ranked(rows)[j];
    order::ranked_holds_the_same(rows, row);
    assert(rows.contains(row));
    let k = choose|k: int| 0 <= k < rows.len() && rows[k] == row;
    deduped_rows_summarise(networks);
    lemma_source_of(networks, rows[k]);
}

proof fn lemma_source_of(networks: Seq<WifiNetwork>, row: WifiNetwork)
    requires
        summarises(networks, row),
    ensures
        exists|i: int|
            0 <= i < networks.len() && (#[trigger] networks[i]).path == row.path && networks[i].active == row.active,
{
    reveal(summarises);
}

/// Every active network has an active sorted row.
pub proof fn active_network_has_sorted_row(networks: Seq<WifiNetwork>, i: int)
    requires
        0 <= i < networks.len(),
        networks[i].active,
    ensures
        exists|j: int|
            0 <= j < order::ranked(deduped(networks)).len() && (#[trigger] order::ranked(deduped(networks))[j]).active
                && same_row(order::ranked(deduped(networks))[j], networks[i]),
{
    let rows = deduped(networks);
    deduped_rows_summarise(networks);
    let k = choose|k: int| 0 <= k < rows.len() && same_row(#[trigger] rows[k], networks[i]);
    assert(summarises(networks, rows[k]));
    lemma_active_row(networks, rows[k], i);
    order::ranked_holds_the_same(rows, rows[k]);
    assert(rows.contains(rows[k]));
    let j = choose|j: int| 0 <= j < order::ranked(rows).len() && order::ranked(rows)[j] == rows[k];
    assert(order::ranked(rows)[j].active);
}

proof fn lemma_active_row(networks: Seq<WifiNetwork>, row: WifiNetwork, i: int)
    requires
        summarises(networks, row),
        0 <= i < networks.len(),
        same_row(row, networks[i]),
        networks[i].active,
    ensures
        row.active,
{
    reveal(summarises);
    assert(same_row(networks[i], row));
}

/// Of two sorted rows, the active one stands before one that is not, and a known network before one that is
/// neither. Among rows of one kind the stronger stands first, and of equally strong ones that whose SSID comes
/// first.
pub proof fn rows_are_sorted_by_kind_strength_and_name(networks: Seq<WifiNetwork>, i: int, j: int)
    requires
        0 <= i < j < order::ranked(networks).len(),
    ensures
        ({
            let a = order::ranked(networks)[i];
            let b = order::ranked(networks)[j];
            &&& b.active ==> a.active
            &&& !a.active && !a.known ==> !b.active && !b.known
            &&& ((a.active && b.active) || (!a.active && !b.active && a.known == b.known)) ==> {
                &&& a.strength >= b.strength
                &&& a.strength == b.strength ==> !chars_before(b.ssid@, a.ssid@)
            }
        }),
{
    order::ranked_is_stable_sort(networks);
    assert(!order::ranked(networks)[j].before(order::ranked(networks)[i]));
}

/// Sorting neither adds nor drops a row.
pub proof fn sorting_keeps_the_rows(networks: Seq<WifiNetwork>)
    ensures
        order::ranked(networks).to_multiset() == networks.to_multiset(),
        order::ranked(networks).len() == networks.len(),
{
    order::ranked_is_stable_sort(networks);
    networks.to_multiset_ensures();
    order::ranked(networks).to_multiset_ensures();
}

proof fn lemma_summary(networks: Seq<WifiNetwork>, row: WifiNetwork, i: int)
    requires
        summarises(networks, row),
        0 <= i < networks.len(),
    ensures
        networks[i].ssid@ == row.ssid@ && networks[i].security == row.security ==> {
            &&& networks[i].active ==> row.active
            &&& networks[i].known ==> row.known
            &&& networks[i].active == row.active ==> networks[i].strength <= row.strength
        },
        exists|m: int| 0 <= m < networks.len() && is_shown_by(#[trigger] networks[m], row),
        row.known ==> exists|m: int|
            0 <= m < networks.len() && (#[trigger] networks[m]).ssid@ == row.ssid@ && networks[m].security == row.security
                && networks[m].known,
{
    reveal(summarises);
    let m = choose|m: int|
        0 <= m < networks.len() && same_row(#[trigger] networks[m], row) && networks[m].path == row.path
            && networks[m].strength == row.strength && networks[m].active == row.active;
    assert(is_shown_by(networks[m], row));
    if row.known {
        let n = choose|n: int| 0 <= n < networks.len() && same_row(#[trigger] networks[n], row) && networks[n].known;
        assert(networks[n].ssid@ == row.ssid@);
    }
    if networks[i].ssid@ == row.ssid@ && networks[i].security == row.security {
        assert(same_row(networks[i], row));
    }
}

/// Whether a row shows an access point.
pub open spec fn is_shown_by(network: WifiNetwork, row: WifiNetwork) -> bool {
    &&& network.ssid@ == row.ssid@ && network.security == row.security
    &&& network.path == row.path && network.strength == row.strength && network.active == row.active
}

/// Deduplication leaves at most one row for each SSID and security.
pub proof fn no_network_has_two_rows(networks: Seq<WifiNetwork>, j: int, k: int)
    requires
        0 <= j < k < deduped(networks).len(),
    ensures
        deduped(networks)[j].ssid@ != deduped(networks)[k].ssid@ || deduped(networks)[j].security != deduped(
            networks,
        )[k].security,
{
    deduped_rows_summarise(networks);
    assert(!same_row(deduped(networks)[j], deduped(networks)[k]));
}

/// A row shows an access point of its SSID and security. It is active or known exactly if one of them is, and
/// none that is as active as the row is stronger.
pub proof fn rows_show_the_best_access_point(networks: Seq<WifiNetwork>, i: int, j: int)
    requires
        0 <= i < networks.len(),
        0 <= j < deduped(networks).len(),
    ensures
        ({
            let row = deduped(networks)[j];
            &&& networks[i].ssid@ == row.ssid@ && networks[i].security == row.security ==> {
                &&& networks[i].active ==> row.active
                &&& networks[i].known ==> row.known
                &&& networks[i].active == row.active ==> networks[i].strength <= row.strength
            }
            &&& exists|m: int| 0 <= m < networks.len() && is_shown_by(#[trigger] networks[m], row)
            &&& row.known ==> exists|m: int|
                0 <= m < networks.len() && (#[trigger] networks[m]).ssid@ == row.ssid@ && networks[m].security
                    == row.security && networks[m].known
        }),
{
    deduped_rows_summarise(networks);
    assert(summarises(networks, deduped(networks)[j]));
    lemma_summary(networks, deduped(networks)[j], i);
}

/// Every access point has a row for its SSID and security.
pub proof fn every_network_has_a_row(networks: Seq<WifiNetwork>, i: int)
    requires
        0 <= i < networks.len(),
    ensures
        exists|j: int|
            0 <= j < deduped(networks).len() && (#[trigger] deduped(networks)[j]).ssid@ == networks[i].ssid@ && deduped(
                networks,
            )[j].security == networks[i].security,
{
    deduped_rows_summarise(networks);
    let j = choose|j: int|
        0 <= j < deduped(networks).len() && same_row(#[trigger] deduped(networks)[j], networks[i]);
    assert(deduped(networks)[j].ssid@ == networks[i].ssid@);
}

proof fn lemma_at_access_point(networks: Seq<WifiNetwork>, ap: Seq<char>, i: int)
    requires
        0 <= i < networks.len(),
        chars_of(networks[i].path) == Some(ap),
        forall|k: int| 0 <= k < i ==> chars_of((#[trigger] networks[k]).path) != Some(ap),
    ensures
        at_access_point(networks, ap) == Some(networks[i]),
    decreases networks.len(),
{
    if i > 0 {
        let rest = networks.drop_first();
        assert(chars_of(networks[0].path) != Some(ap));
        assert forall|k: int| 0 <= k < i - 1 implies chars_of((#[trigger] rest[k]).path) != Some(ap) by {
            assert(rest[k] == networks[k + 1]);
        }
        lemma_at_access_point(rest, ap, i - 1);
    }
}

proof fn lemma_no_access_point(networks: Seq<WifiNetwork>, ap: Seq<char>)
    requires
        forall|k: int| 0 <= k < networks.len() ==> chars_of((#[trigger] networks[k]).path) != Some(ap),
    ensures
        at_access_point(networks, ap) is None,
    decreases networks.len(),
{
    if networks.len() > 0 {
        let rest = networks.drop_first();
        assert(chars_of(networks[0].path) != Some(ap));
        assert forall|k: int| 0 <= k < rest.len() implies chars_of((#[trigger] rest[k]).path) != Some(ap) by {
            assert(rest[k] == networks[k + 1]);
        }
        lemma_no_access_point(rest, ap);
    }
}

/// Wi-Fi is connected exactly if it is not switched off, its device is activated and names an access point.
/// Then the rows of that access point are active and no others, and the first of them tells SSID and
/// strength. Otherwise nothing is active.
pub proof fn connections_are_confirmed_by_the_device(
    state: WifiView,
    device_state: Option<u32>,
    ap: Option<Seq<char>>,
    networks: Seq<WifiNetwork>,
    i: int,
)
    requires
        0 <= i < networks.len(),
    ensures
        ({
            let after = reconciled(state, device_state, ap, networks);
            &&& after.connected <==> state.enabled != Some(false) && device_state == Some(100u32) && ap is Some && ap->0
                != "/"@
            &&& after.networks.len() == networks.len()
            &&& after.networks[i] == (WifiNetwork { active: after.networks[i].active, ..networks[i] })
            &&& after.networks[i].active <==> after.connected && networks[i].path is Some && networks[i].path->0@ == ap->0
            &&& after.networks[i].active && (forall|k: int| 0 <= k < i ==> !(#[trigger] after.networks[k]).active)
                ==> after.ssid == Some(networks[i].ssid) && after.strength == networks[i].strength
            &&& (forall|k: int| 0 <= k < networks.len() ==> !(#[trigger] after.networks[k]).active) ==> after.ssid is None
                && after.strength == 0
            &&& after.enabled == state.enabled && after.has_device == state.has_device && after.scanning == state.scanning
            &&& after.is_ready == state.is_ready && after.connecting_ssid == state.connecting_ssid && after.failed_ssid
                == state.failed_ssid
        }),
{
    let after = reconciled(state, device_state, ap, networks);
    if after.connected {
        if after.networks[i].active && (forall|k: int| 0 <= k < i ==> !(#[trigger] after.networks[k]).active) {
            assert forall|k: int| 0 <= k < i implies chars_of((#[trigger] networks[k]).path) != ap by {
                assert(!after.networks[k].active);
            }
            lemma_at_access_point(networks, ap->0, i);
        }
        if forall|k: int| 0 <= k < networks.len() ==> !(#[trigger] after.networks[k]).active {
            assert forall|k: int| 0 <= k < networks.len() implies chars_of((#[trigger] networks[k]).path) != Some(
                ap->0,
            ) by {
                assert(!after.networks[k].active);
            }
            lemma_no_access_point(networks, ap->0);
        }
    }
}

} // verus!
