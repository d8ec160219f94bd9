//! What holds of the workspaces that Mango tells, tag by tag.

use vstd::prelude::*;
use crate::compositor::mango::{
    active_tags, collected, first_active, focus_differs, fresh_output, listed, number, updated, with_focus, with_layout,
    with_monitor, with_monitors, with_tag, with_tags, workspaces_differ, Collected, Gathered, MangoView,
};
use crate::compositor::mango_windows::{listed_windows, placed, window_of, windows_of};
use crate::compositor::scene_laws::{any, lemma_any_last};
use crate::compositor::{WindowView, WorkspaceView};
use crate::json::Tree;
use crate::order::{ranked, ranked_holds_the_same, ranked_is_stable_sort, Order};
use crate::text::{chars_before, chars_before_is_total, digits};

verus! {

/// Whether a tag has that number.
pub open spec fn is_tag(tag: Tree, id: i32) -> bool {
    tag.i64("index"@) matches Some(index) && index as i32 == id
}

/// How many clients a tag tells.
pub open spec fn clients_on(tag: Tree) -> u32 {
    match tag.u64("client_count"@) {
        Some(n) => n as u32,
        None => 0,
    }
}

/// Whether a monitor lists a tag as active.
pub open spec fn lists(monitor: Tree, id: i32) -> bool {
    monitor.array("active_tags"@) matches Some(tags) && exists|i: int|
        0 <= i < tags.len() && ((#[trigger] tags[i]).as_i64() matches Some(tag) && tag as i32 == id)
}

/// Whether a monitor lists any tag as active.
pub open spec fn lists_some(monitor: Tree) -> bool {
    monitor.array("active_tags"@) matches Some(tags) && exists|i: int|
        0 <= i < tags.len() && (#[trigger] tags[i]).as_i64() is Some
}

/// Whether a monitor shows the overview, whose number is zero.
pub open spec fn shows_all(monitor: Tree) -> bool {
    lists(monitor, 0i32)
}

/// Whether a tag is on screen: the list of its monitor decides, and its own mark where there is none.
pub open spec fn on_screen(monitor: Tree, tag: Tree, id: i32) -> bool {
    is_tag(tag, id) && if lists_some(monitor) {
        lists(monitor, id)
    } else {
        tag.bool("is_active"@) == Some(true)
    }
}

/// Whether a monitor has a tag of some kind.
pub open spec fn has_tag(monitor: Tree, kind: spec_fn(Tree) -> bool) -> bool {
    monitor.array("tags"@) matches Some(tags) && any(tags, kind)
}

/// Whether a tag tells clients.
pub open spec fn occupied_tag(id: i32) -> spec_fn(Tree) -> bool {
    |t: Tree| is_tag(t, id) && clients_on(t) > 0
}

/// Whether a tag is urgent.
pub open spec fn urgent_tag(id: i32) -> spec_fn(Tree) -> bool {
    |t: Tree| is_tag(t, id) && t.bool("is_urgent"@) == Some(true)
}

/// Whether a tag is on screen.
pub open spec fn shown_tag(monitor: Tree, id: i32) -> spec_fn(Tree) -> bool {
    |t: Tree| on_screen(monitor, t, id)
}

/// Whether a tag has that number.
pub open spec fn numbered(id: i32) -> spec_fn(Tree) -> bool {
    |t: Tree| is_tag(t, id)
}

/// Whether a monitor tells that a workspace has windows.
pub open spec fn tells_occupied(monitor: Tree, id: i32) -> bool {
    !shows_all(monitor) && has_tag(monitor, occupied_tag(id))
}

/// Whether a monitor tells that a workspace is on screen. In the overview no tag is.
pub open spec fn tells_active(monitor: Tree, id: i32) -> bool {
    monitor.array("tags"@) is Some && if shows_all(monitor) {
        id == 0
    } else {
        has_tag(monitor, shown_tag(monitor, id))
    }
}

/// The clients that a monitor tells on the tags with that number, the first `n` of its tags.
pub open spec fn sum_of_tags(tags: Seq<Tree>, n: nat, id: i32) -> nat
    decreases n,
{
    if n == 0 {
        0
    } else {
        sum_of_tags(tags, (n - 1) as nat, id) + (if is_tag(tags[n - 1], id) { clients_on(tags[n - 1]) as nat } else { 0 })
    }
}

/// The clients that a monitor tells on a workspace; none in the overview or without a name.
pub open spec fn sum_of_monitor(monitor: Tree, id: i32) -> nat {
    match monitor.array("tags"@) {
        Some(tags) => if monitor.str("name"@) is Some && !shows_all(monitor) {
            sum_of_tags(tags, tags.len(), id)
        } else {
            0
        },
        None => 0,
    }
}

/// The clients that the first `n` monitors tell on a workspace.
pub open spec fn sum_of_monitors(monitors: Seq<Tree>, n: nat, id: i32) -> nat
    decreases n,
{
    if n == 0 {
        0
    } else {
        sum_of_monitors(monitors, (n - 1) as nat, id) + sum_of_monitor(monitors[n - 1], id)
    }
}

spec fn count_of(counts: Map<i32, u32>, id: i32) -> int {
    if counts.dom().contains(id) {
        counts[id] as int
    } else {
        0
    }
}

proof fn lemma_active(monitor: Tree, id: i32)
    ensures
        active_tags(monitor).contains(id) <==> lists(monitor, id),
        (active_tags(monitor) == Set::<i32>::empty()) <==> !lists_some(monitor),
{
    match monitor.array("active_tags"@) {
        Some(tags) => {
            if active_tags(monitor).contains(id) {
                let i = choose|i: int|
                    0 <= i < tags.len() && (#[trigger] tags[i]).as_i64() is Some && number(tags[i].as_i64()->0) == id;
                assert(tags[i].as_i64() matches Some(tag) && tag as i32 == id);
            }
            if lists(monitor, id) {
                let i = choose|i: int|
                    0 <= i < tags.len() && ((#[trigger] tags[i]).as_i64() matches Some(tag) && tag as i32 == id);
                assert(number(tags[i].as_i64()->0) == id);
            }
            if lists_some(monitor) {
                let i = choose|i: int| 0 <= i < tags.len() && (#[trigger] tags[i]).as_i64() is Some;
                assert(active_tags(monitor).contains(number(tags[i].as_i64()->0)));
            } else {
                assert(active_tags(monitor) =~= Set::<i32>::empty());
            }
        },
        None => {
            assert(active_tags(monitor) =~= Set::<i32>::empty());
        },
    }
}

proof fn lemma_occupied(g: Gathered, focused: bool, monitor: Tree, tags: Seq<Tree>, id: i32)
    ensures
        ({
            let after = with_tags(g, focused, active_tags(monitor), tags);
            let told = !shows_all(monitor) && any(tags, occupied_tag(id));
            &&& after.all.occupied.contains(id) <==> g.all.occupied.contains(id) || told
            &&& after.output.occupied.contains(id) <==> g.output.occupied.contains(id) || told
            &&& after.all.counts.dom().contains(id) <==> g.all.counts.dom().contains(id) || told
            &&& after.all.per_output == g.all.per_output
        }),
    decreases tags.len(),
{
    lemma_active(monitor, 0i32);
    if tags.len() > 0 {
        let head = tags.drop_last();
        lemma_occupied(g, focused, monitor, head, id);
        lemma_any_last(tags, occupied_tag(id));
        let before = with_tags(g, focused, active_tags(monitor), head);
        assert(with_tags(g, focused, active_tags(monitor), tags) == with_tag(
            before,
            focused,
            active_tags(monitor),
            tags.last(),
        ));
    }
}

proof fn lemma_shown(g: Gathered, focused: bool, monitor: Tree, tags: Seq<Tree>, id: i32)
    ensures
        ({
            let after = with_tags(g, focused, active_tags(monitor), tags);
            let told = !shows_all(monitor) && any(tags, shown_tag(monitor, id));
            &&& after.output.active.contains(id) <==> g.output.active.contains(id) || told
            &&& after.all.active.contains(id) <==> g.all.active.contains(id) || (focused && told)
        }),
    decreases tags.len(),
{
    lemma_active(monitor, 0i32);
    lemma_active(monitor, id);
    if tags.len() > 0 {
        let head = tags.drop_last();
        lemma_shown(g, focused, monitor, head, id);
        lemma_any_last(tags, shown_tag(monitor, id));
        let before = with_tags(g, focused, active_tags(monitor), head);
        assert(with_tags(g, focused, active_tags(monitor), tags) == with_tag(
            before,
            focused,
            active_tags(monitor),
            tags.last(),
        ));
    }
}

proof fn lemma_urgent(g: Gathered, focused: bool, monitor: Tree, tags: Seq<Tree>, id: i32)
    requires
        g.output.urgent is Some,
    ensures
        ({
            let after = with_tags(g, focused, active_tags(monitor), tags);
            let told = any(tags, urgent_tag(id));
            &&& after.all.urgent.contains(id) <==> g.all.urgent.contains(id) || told
            &&& after.output.urgent is Some
            &&& after.output.urgent->0.contains(id) <==> g.output.urgent->0.contains(id) || told
        }),
    decreases tags.len(),
{
    if tags.len() > 0 {
        let head = tags.drop_last();
        lemma_urgent(g, focused, monitor, head, id);
        lemma_any_last(tags, urgent_tag(id));
        let before = with_tags(g, focused, active_tags(monitor), head);
        assert(with_tags(g, focused, active_tags(monitor), tags) == with_tag(
            before,
            focused,
            active_tags(monitor),
            tags.last(),
        ));
    }
}

proof fn lemma_counts(g: Gathered, focused: bool, monitor: Tree, tags: Seq<Tree>, id: i32)
    ensures
        ({
            let after = with_tags(g, focused, active_tags(monitor), tags);
            count_of(after.all.counts, id) == (count_of(g.all.counts, id) + (if shows_all(monitor) {
                0
            } else {
                sum_of_tags(tags, tags.len(), id) as int
            })) % 0x1_0000_0000
        }),
    decreases tags.len(),
{
    lemma_active(monitor, 0i32);
    if tags.len() > 0 {
        let head = tags.drop_last();
        lemma_counts(g, focused, monitor, head, id);
        lemma_sum_prefix(tags, head.len(), id);
        let before = with_tags(g, focused, active_tags(monitor), head);
        let after = with_tags(g, focused, active_tags(monitor), tags);
        assert(after == with_tag(before, focused, active_tags(monitor), tags.last()));
        let start = count_of(g.all.counts, id);
        let sum = sum_of_tags(head, head.len(), id) as int;
        let more = clients_on(tags.last()) as int;
        if is_tag(tags.last(), id) && !shows_all(monitor) {
            assert(count_of(after.all.counts, id) == (count_of(before.all.counts, id) + more) % 0x1_0000_0000);
            assert(((start + sum) % 0x1_0000_0000 + more) % 0x1_0000_0000 == (start + sum + more) % 0x1_0000_0000)
                by (nonlinear_arith);
        } else {
            assert(count_of(after.all.counts, id) == count_of(before.all.counts, id));
        }
    }
}

proof fn lemma_output_counts(g: Gathered, focused: bool, monitor: Tree, tags: Seq<Tree>, id: i32)
    requires
        !shows_all(monitor),
    ensures
        ({
            let after = with_tags(g, focused, active_tags(monitor), tags).output.counts;
            &&& after.dom().contains(id) <==> g.output.counts.dom().contains(id) || any(tags, numbered(id))
            &&& forall|t: int|
                0 <= t < tags.len() && is_tag(#[trigger] tags[t], id) && (forall|u: int|
                    t < u < tags.len() ==> !is_tag(#[trigger] tags[u], id)) ==> after[id] == clients_on(tags[t])
        }),
    decreases tags.len(),
{
    lemma_active(monitor, 0i32);
    if tags.len() > 0 {
        let head = tags.drop_last();
        lemma_output_counts(g, focused, monitor, head, id);
        lemma_any_last(tags, numbered(id));
        let before = with_tags(g, focused, active_tags(monitor), head);
        let after = with_tags(g, focused, active_tags(monitor), tags);
        assert(after == with_tag(before, focused, active_tags(monitor), tags.last()));
        assert forall|t: int|
            0 <= t < tags.len() && is_tag(#[trigger] tags[t], id) && (forall|u: int|
                t < u < tags.len() ==> !is_tag(#[trigger] tags[u], id)) implies after.output.counts[id] == clients_on(
            tags[t],
        ) by {
            if t < head.len() {
                assert(head[t] == tags[t]);
                assert(!is_tag(tags[tags.len() - 1], id));
                assert forall|u: int| t < u < head.len() implies !is_tag(#[trigger] head[u], id) by {
                    assert(head[u] == tags[u]);
                }
                assert(before.output.counts[id] == clients_on(head[t]));
            }
        }
    }
}

proof fn lemma_max(g: Gathered, focused: bool, monitor: Tree, tags: Seq<Tree>, id: i32)
    ensures
        ({
            let after = with_tags(g, focused, active_tags(monitor), tags);
            &&& after.max_tag >= g.max_tag
            &&& any(tags, numbered(id)) && id > 0 ==> after.max_tag >= id
            &&& after.max_tag > g.max_tag ==> 0 < after.max_tag <= i32::MAX && any(
                tags,
                numbered(after.max_tag as i32),
            )
        }),
    decreases tags.len(),
{
    if tags.len() > 0 {
        let head = tags.drop_last();
        lemma_max(g, focused, monitor, head, id);
        let before = with_tags(g, focused, active_tags(monitor), head);
        let after = with_tags(g, focused, active_tags(monitor), tags);
        assert(after == with_tag(before, focused, active_tags(monitor), tags.last()));
        lemma_any_last(tags, numbered(id));
        lemma_any_last(tags, numbered(after.max_tag as i32));
    }
}

proof fn lemma_sum_prefix(tags: Seq<Tree>, n: nat, id: i32)
    requires
        tags.len() > 0,
        n <= tags.drop_last().len(),
    ensures
        sum_of_tags(tags, n, id) == sum_of_tags(tags.drop_last(), n, id),
    decreases n,
{
    if n > 0 {
        lemma_sum_prefix(tags, (n - 1) as nat, id);
        assert(tags.drop_last()[n - 1] == tags[n - 1]);
    }
}

/// Whether a monitor has that name.
pub open spec fn named(monitor: Tree, name: Seq<char>) -> bool {
    monitor.str("name"@) == Some(name)
}

/// Whether a monitor with a name tells that a workspace has windows.
pub open spec fn some_occupied(id: i32) -> spec_fn(Tree) -> bool {
    |m: Tree| m.str("name"@) is Some && tells_occupied(m, id)
}

/// Whether the focused monitor tells that a workspace is on screen.
pub open spec fn focused_active(id: i32) -> spec_fn(Tree) -> bool {
    |m: Tree| m.str("name"@) is Some && m.bool("active"@) == Some(true) && tells_active(m, id)
}

/// Whether a monitor with a name tells that a workspace is urgent.
pub open spec fn some_urgent(id: i32) -> spec_fn(Tree) -> bool {
    |m: Tree| m.str("name"@) is Some && has_tag(m, urgent_tag(id))
}

/// Whether a monitor with that name tells that a workspace has windows.
pub open spec fn named_occupied(name: Seq<char>, id: i32) -> spec_fn(Tree) -> bool {
    |m: Tree| named(m, name) && tells_occupied(m, id)
}

/// Whether a monitor with that name tells that a workspace is on screen.
pub open spec fn named_active(name: Seq<char>, id: i32) -> spec_fn(Tree) -> bool {
    |m: Tree| named(m, name) && tells_active(m, id)
}

spec fn has_name(name: Seq<char>) -> spec_fn(Tree) -> bool {
    |m: Tree| named(m, name)
}

spec fn started(c: Collected, monitor: Tree) -> Gathered {
    Gathered {
        output: fresh_output(c.all, monitor.str("name"@)->0),
        all: c.all,
        max_tag: c.max_tag,
    }
}

proof fn lemma_monitor(c: Collected, monitor: Tree, id: i32, name: Seq<char>)
    requires
        monitor.str("name"@) is Some,
    ensures
        ({
            let after = with_monitor(c, monitor);
            let here = named(monitor, name);
            &&& after.all.occupied.contains(id) <==> c.all.occupied.contains(id) || tells_occupied(monitor, id)
            &&& after.all.counts.dom().contains(id) <==> c.all.counts.dom().contains(id) || tells_occupied(monitor, id)
            &&& after.all.active.contains(id) <==> c.all.active.contains(id) || (monitor.bool("active"@) == Some(true)
                && tells_active(monitor, id))
            &&& after.all.urgent.contains(id) <==> c.all.urgent.contains(id) || has_tag(monitor, urgent_tag(id))
            &&& after.all.per_output.dom().contains(name) <==> c.all.per_output.dom().contains(name) || here
            &&& !here ==> after.all.per_output[name] == c.all.per_output[name]
            &&& here ==> {
                let known = c.all.per_output.dom().contains(name);
                let old = c.all.per_output[name];
                let new = after.all.per_output[name];
                &&& new.occupied.contains(id) <==> (known && old.occupied.contains(id)) || tells_occupied(monitor, id)
                &&& new.active.contains(id) <==> (known && old.active.contains(id)) || tells_active(monitor, id)
                &&& new.urgent matches Some(urgent) && (urgent.contains(id) <==> has_tag(monitor, urgent_tag(id)))
            }
        }),
{
    lemma_active(monitor, 0i32);
    let start = started(c, monitor);
    let focused = monitor.flag("active"@);
    if monitor.array("tags"@) is Some {
        let tags = monitor.array("tags"@)->0;
        lemma_occupied(start, focused, monitor, tags, id);
        lemma_shown(start, focused, monitor, tags, id);
        lemma_urgent(start, focused, monitor, tags, id);
    }
}

proof fn lemma_monitor_count(c: Collected, monitor: Tree, id: i32)
    ensures
        count_of(with_monitor(c, monitor).all.counts, id) == (count_of(c.all.counts, id) + sum_of_monitor(monitor, id))
            % 0x1_0000_0000,
{
    lemma_active(monitor, 0i32);
    assert(0 <= count_of(c.all.counts, id) < 0x1_0000_0000);
    if monitor.str("name"@) is Some && monitor.array("tags"@) is Some {
        lemma_counts(started(c, monitor), monitor.flag("active"@), monitor, monitor.array("tags"@)->0, id);
    }
}

proof fn lemma_collected(monitors: Seq<Tree>, id: i32, name: Seq<char>)
    ensures
        ({
            let c = collected(monitors).all;
            &&& c.occupied.contains(id) <==> any(monitors, some_occupied(id))
            &&& c.counts.dom().contains(id) <==> any(monitors, some_occupied(id))
            &&& c.active.contains(id) <==> any(monitors, focused_active(id))
            &&& c.urgent.contains(id) <==> any(monitors, some_urgent(id))
            &&& c.per_output.dom().contains(name) <==> any(monitors, has_name(name))
            &&& c.per_output.dom().contains(name) ==> {
                &&& c.per_output[name].occupied.contains(id) <==> any(monitors, named_occupied(name, id))
                &&& c.per_output[name].active.contains(id) <==> any(monitors, named_active(name, id))
            }
        }),
    decreases monitors.len(),
{
    if monitors.len() > 0 {
        let head = monitors.drop_last();
        let monitor = monitors.last();
        lemma_collected(head, id, name);
        lemma_any_last(monitors, some_occupied(id));
        lemma_any_last(monitors, focused_active(id));
        lemma_any_last(monitors, some_urgent(id));
        lemma_any_last(monitors, has_name(name));
        lemma_any_last(monitors, named_occupied(name, id));
        lemma_any_last(monitors, named_active(name, id));
        if !any(head, has_name(name)) {
            lemma_none_named(head, name, id);
        }
        if monitor.str("name"@) is Some {
            lemma_monitor(collected(head), monitor, id, name);
        }
    }
}

proof fn lemma_none_named(monitors: Seq<Tree>, name: Seq<char>, id: i32)
    requires
        !any(monitors, has_name(name)),
    ensures
        !any(monitors, named_occupied(name, id)),
        !any(monitors, named_active(name, id)),
{
    if any(monitors, named_occupied(name, id)) {
        let i = choose|i: int| 0 <= i < monitors.len() && named_occupied(name, id)(#[trigger] monitors[i]);
        assert(has_name(name)(monitors[i]));
    }
    if any(monitors, named_active(name, id)) {
        let i = choose|i: int| 0 <= i < monitors.len() && named_active(name, id)(#[trigger] monitors[i]);
        assert(has_name(name)(monitors[i]));
    }
}

proof fn lemma_total(monitors: Seq<Tree>, n: nat, id: i32)
    requires
        n <= monitors.len(),
    ensures
        count_of(collected(monitors.take(n as int)).all.counts, id) == sum_of_monitors(monitors, n, id) % 0x1_0000_0000,
    decreases n,
{
    if n == 0 {
        assert(monitors.take(0) =~= Seq::empty());
    } else {
        let m = (n - 1) as nat;
        lemma_total(monitors, m, id);
        assert(monitors.take(n as int).drop_last() =~= monitors.take(m as int));
        assert(monitors.take(n as int).last() == monitors[m as int]);
        lemma_monitor_count(collected(monitors.take(m as int)), monitors[m as int], id);
        let sum = sum_of_monitors(monitors, m, id) as int;
        let more = sum_of_monitor(monitors[m as int], id) as int;
        assert((sum % 0x1_0000_0000 + more) % 0x1_0000_0000 == (sum + more) % 0x1_0000_0000) by (nonlinear_arith);
    }
}

/// A workspace is occupied exactly if some monitor tells clients on it: that of the snapshot over all
/// monitors, that of an output over its own. Tags of a monitor in the overview do not count.
pub proof fn workspaces_with_clients_are_occupied(s: MangoView, document: Tree, name: Seq<char>, id: i32)
    requires
        document.array("monitors"@) is Some,
    ensures
        ({
            let monitors = document.array("monitors"@)->0;
            let after = with_monitors(s, document).snapshot;
            &&& after.occupied.contains(id) <==> any(
                monitors,
                |m: Tree| m.str("name"@) is Some && !shows_all(m) && has_tag(m, |t: Tree| is_tag(t, id) && clients_on(t) > 0),
            )
            &&& after.per_output.dom().contains(name) ==> (after.per_output[name].occupied.contains(id) <==> any(
                monitors,
                |m: Tree|
                    m.str("name"@) == Some(name) && !shows_all(m) && has_tag(
                        m,
                        |t: Tree| is_tag(t, id) && clients_on(t) > 0,
                    ),
            ))
            &&& after.per_output.dom().contains(name) <==> any(monitors, |m: Tree| m.str("name"@) == Some(name))
        }),
{
    let monitors = document.array("monitors"@)->0;
    lemma_collected(monitors, id, name);
    lemma_same(
        monitors,
        some_occupied(id),
        |m: Tree| m.str("name"@) is Some && !shows_all(m) && has_tag(m, |t: Tree| is_tag(t, id) && clients_on(t) > 0),
    );
    lemma_same(
        monitors,
        named_occupied(name, id),
        |m: Tree|
            m.str("name"@) == Some(name) && !shows_all(m) && has_tag(m, |t: Tree| is_tag(t, id) && clients_on(t) > 0),
    );
    lemma_same(monitors, has_name(name), |m: Tree| m.str("name"@) == Some(name));
}

proof fn lemma_same(items: Seq<Tree>, a: spec_fn(Tree) -> bool, b: spec_fn(Tree) -> bool)
    requires
        forall|t: Tree| #[trigger] a(t) == b(t),
    ensures
        any(items, a) == any(items, b),
{
    if any(items, a) {
        let i = choose|i: int| 0 <= i < items.len() && a(#[trigger] items[i]);
        assert(b(items[i]));
    }
    if any(items, b) {
        let i = choose|i: int| 0 <= i < items.len() && b(#[trigger] items[i]);
        assert(a(items[i]));
    }
}

/// The windows of an occupied workspace are added up over the monitors, in 32 bits. A workspace that is not
/// occupied has no count.
pub proof fn windows_are_added_up(s: MangoView, document: Tree, id: i32)
    requires
        document.array("monitors"@) is Some,
    ensures
        ({
            let monitors = document.array("monitors"@)->0;
            let after = with_monitors(s, document).snapshot;
            &&& after.counts.dom() == after.occupied
            &&& after.occupied.contains(id) ==> after.counts[id] == sum_of_monitors(monitors, monitors.len(), id)
                % 0x1_0000_0000
        }),
{
    let monitors = document.array("monitors"@)->0;
    lemma_total(monitors, monitors.len(), id);
    assert(monitors.take(monitors.len() as int) =~= monitors);
    let after = collected(monitors).all;
    lemma_collected(monitors, id, Seq::empty());
    assert forall|k: i32| after.counts.dom().contains(k) <==> after.occupied.contains(k) by {
        lemma_collected(monitors, k, Seq::empty());
    }
    assert(after.counts.dom() =~= after.occupied);
}

/// A workspace is active on an output exactly if a monitor of that name shows it, and active as such
/// exactly if the focused monitor does. The list of a monitor decides, or the marks of its tags where it has
/// no list; in the overview only the overview is shown.
pub proof fn workspaces_on_screen_are_active(s: MangoView, document: Tree, name: Seq<char>, id: i32)
    requires
        document.array("monitors"@) is Some,
    ensures
        ({
            let monitors = document.array("monitors"@)->0;
            let after = with_monitors(s, document).snapshot;
            &&& after.active.contains(id) <==> any(monitors, focused_active(id))
            &&& after.per_output.dom().contains(name) ==> (after.per_output[name].active.contains(id) <==> any(
                monitors,
                named_active(name, id),
            ))
        }),
{
    lemma_collected(document.array("monitors"@)->0, id, name);
}

proof fn lemma_last(monitors: Seq<Tree>, o: int, name: Seq<char>, id: i32)
    requires
        0 <= o < monitors.len(),
        named(monitors[o], name),
        forall|k: int| o < k < monitors.len() ==> !named(#[trigger] monitors[k], name),
    ensures
        collected(monitors).all.per_output.dom().contains(name),
        collected(monitors).all.per_output[name].urgent matches Some(urgent) && (urgent.contains(id) <==> has_tag(
            monitors[o],
            urgent_tag(id),
        )),
        !shows_all(monitors[o]) ==> (monitors[o].array("tags"@) matches Some(tags) ==> forall|t: int|
            0 <= t < tags.len() && is_tag(#[trigger] tags[t], id) && (forall|u: int|
                t < u < tags.len() ==> !is_tag(#[trigger] tags[u], id)) ==> collected(
                monitors,
            ).all.per_output[name].counts.dom().contains(id) && collected(monitors).all.per_output[name].counts[id]
                == clients_on(tags[t])),
        (monitors[o].i64("x"@) matches Some(x) && monitors[o].i64("y"@) matches Some(y)) ==> collected(
            monitors,
        ).geometry.dom().contains(name) && collected(monitors).geometry[name] == (
            monitors[o].i64("x"@)->0,
            monitors[o].i64("y"@)->0,
        ),
    decreases monitors.len(),
{
    let head = monitors.drop_last();
    let monitor = monitors.last();
    let c = collected(head);
    if o < head.len() {
        assert(head[o] == monitors[o]);
        assert forall|k: int| o < k < head.len() implies !named(#[trigger] head[k], name) by {
            assert(head[k] == monitors[k]);
        }
        lemma_last(head, o, name, id);
        assert(!named(monitors[monitors.len() - 1], name));
        if monitor.str("name"@) is Some {
            lemma_monitor(c, monitor, id, name);
        }
    } else {
        lemma_monitor(c, monitor, id, name);
        if !shows_all(monitor) && monitor.array("tags"@) is Some {
            let tags = monitor.array("tags"@)->0;
            lemma_active(monitor, 0i32);
            lemma_output_counts(started(c, monitor), monitor.flag("active"@), monitor, tags, id);
            assert forall|t: int|
                0 <= t < tags.len() && is_tag(#[trigger] tags[t], id) implies collected(
                monitors,
            ).all.per_output[name].counts.dom().contains(id) by {
                assert(numbered(id)(tags[t]));
            }
        }
    }
}

/// A workspace is urgent exactly if some monitor tells so; of an output what the last monitor of its name
/// tells counts. The same monitor tells where the output is and how many windows each of its workspaces has.
pub proof fn outputs_are_told_by_their_monitors(s: MangoView, document: Tree, o: int, name: Seq<char>, id: i32)
    requires
        document.array("monitors"@) matches Some(monitors) && 0 <= o < monitors.len() && named(monitors[o], name)
            && forall|k: int| o < k < monitors.len() ==> !named(#[trigger] monitors[k], name),
    ensures
        ({
            let monitors = document.array("monitors"@)->0;
            let monitor = monitors[o];
            let after = with_monitors(s, document);
            &&& after.snapshot.urgent.contains(id) <==> any(monitors, some_urgent(id))
            &&& after.snapshot.per_output.dom().contains(name)
            &&& after.snapshot.per_output[name].urgent matches Some(urgent) && (urgent.contains(id) <==> has_tag(
                monitor,
                |t: Tree| is_tag(t, id) && t.bool("is_urgent"@) == Some(true),
            ))
            &&& !shows_all(monitor) ==> (monitor.array("tags"@) matches Some(tags) ==> forall|t: int|
                0 <= t < tags.len() && is_tag(#[trigger] tags[t], id) && (forall|u: int|
                    t < u < tags.len() ==> !is_tag(#[trigger] tags[u], id)) ==> after.snapshot.per_output[name].counts.dom().contains(
                    id,
                ) && after.snapshot.per_output[name].counts[id] == clients_on(tags[t]))
            &&& (monitor.i64("x"@) matches Some(x) && monitor.i64("y"@) matches Some(y)) ==> after.geometry.dom().contains(
                name,
            ) && after.geometry[name] == (monitor.i64("x"@)->0, monitor.i64("y"@)->0)
        }),
{
    let monitors = document.array("monitors"@)->0;
    lemma_collected(monitors, id, name);
    lemma_last(monitors, o, name, id);
    assert(urgent_tag(id) == (|t: Tree| is_tag(t, id) && t.bool("is_urgent"@) == Some(true)));
}

/// Whether a monitor with a name has a tag with that number.
pub open spec fn tells_tag(id: i32) -> spec_fn(Tree) -> bool {
    |m: Tree| m.str("name"@) is Some && has_tag(m, numbered(id))
}

proof fn lemma_largest(monitors: Seq<Tree>, id: i32)
    ensures
        ({
            let max = collected(monitors).max_tag;
            &&& id > 0 && any(monitors, tells_tag(id)) ==> max >= id
            &&& max > 0 ==> max <= i32::MAX && any(monitors, tells_tag(max as i32))
        }),
    decreases monitors.len(),
{
    if monitors.len() > 0 {
        let head = monitors.drop_last();
        let monitor = monitors.last();
        lemma_largest(head, id);
        let c = collected(head);
        let max = collected(monitors).max_tag;
        lemma_any_last(monitors, tells_tag(id));
        lemma_any_last(monitors, tells_tag(max as i32));
        if monitor.str("name"@) is Some && monitor.array("tags"@) is Some {
            lemma_max(started(c, monitor), monitor.flag("active"@), monitor, monitor.array("tags"@)->0, id);
        }
    }
}

/// There are as many tags as the largest number that a monitor tells. Documents without a tag leave the
/// number as it was.
pub proof fn the_largest_tag_counts(s: MangoView, document: Tree, id: i32)
    requires
        document.array("monitors"@) is Some,
    ensures
        ({
            let monitors = document.array("monitors"@)->0;
            let count = with_monitors(s, document).tag_count;
            &&& id > 0 && any(monitors, tells_tag(id)) ==> count >= id
            &&& count == s.tag_count || (0 < count <= i32::MAX && any(monitors, tells_tag(count as i32)))
            &&& id > 0 && any(monitors, tells_tag(id)) ==> any(monitors, tells_tag(count as i32))
        }),
{
    lemma_largest(document.array("monitors"@)->0, id);
}

/// A document about monitors changes nothing else, and one without monitors nothing at all.
pub proof fn monitors_tell_of_workspaces_only(s: MangoView, document: Tree)
    ensures
        ({
            let after = with_monitors(s, document);
            &&& after.windows == s.windows && after.layout == s.layout
            &&& after.focused_window == s.focused_window && after.focused_client_id == s.focused_client_id
            &&& document.array("monitors"@) is None ==> after == s
        }),
{
}

/// Whether `m` is the first monitor that is active.
pub open spec fn first_focused(document: Tree, m: int) -> bool {
    document.array("monitors"@) matches Some(monitors) && 0 <= m < monitors.len() && monitors[m].bool("active"@) == Some(
        true,
    ) && forall|k: int| 0 <= k < m ==> (#[trigger] monitors[k]).bool("active"@) != Some(true)
}

proof fn lemma_first_active(monitors: Seq<Tree>, m: int)
    requires
        0 <= m < monitors.len(),
        monitors[m].bool("active"@) == Some(true),
        forall|k: int| 0 <= k < m ==> (#[trigger] monitors[k]).bool("active"@) != Some(true),
    ensures
        first_active(monitors) == Some(monitors[m]),
    decreases monitors.len(),
{
    if m > 0 {
        let rest = monitors.drop_first();
        assert(monitors[0].bool("active"@) != Some(true));
        assert(rest[m - 1] == monitors[m]);
        assert forall|k: int| 0 <= k < m - 1 implies (#[trigger] rest[k]).bool("active"@) != Some(true) by {
            assert(rest[k] == monitors[k + 1]);
        }
        lemma_first_active(rest, m - 1);
    }
}

proof fn lemma_none_active(monitors: Seq<Tree>)
    requires
        forall|k: int| 0 <= k < monitors.len() ==> (#[trigger] monitors[k]).bool("active"@) != Some(true),
    ensures
        first_active(monitors) is None,
    decreases monitors.len(),
{
    if monitors.len() > 0 {
        let rest = monitors.drop_first();
        assert(monitors[0].bool("active"@) != Some(true));
        assert forall|k: int| 0 <= k < rest.len() implies (#[trigger] rest[k]).bool("active"@) != Some(true) by {
            assert(rest[k] == monitors[k + 1]);
        }
        lemma_none_active(rest);
    }
}

/// Whether a text is the one under a key, or empty where there is none.
pub open spec fn is_text_under(t: Tree, key: Seq<char>, s: Seq<char>) -> bool {
    match t.str(key) {
        Some(told) => s == told,
        None => s.len() == 0,
    }
}

/// The focus is on the client of the first active monitor, and so is the keyboard layout.
pub proof fn the_active_monitor_has_the_focus(s: MangoView, document: Tree, m: int)
    requires
        first_focused(document, m),
    ensures
        ({
            let monitor = document.array("monitors"@)->0[m];
            let focused = with_focus(s, document);
            let laid_out = with_layout(s, document);
            &&& (monitor.str("name"@) is Some && monitor.get("active_client"@) is Some) ==> {
                let client = monitor.get("active_client"@)->0;
                &&& focused.focused_client_id == client.u64("id"@)
                &&& focused.focused_window matches Some(window) && {
                    &&& is_text_under(client, "title"@, window.title)
                    &&& is_text_under(client, "appid"@, window.app_id)
                    &&& window.output == monitor.str("name"@)
                }
            }
            &&& (monitor.str("name"@) is None || monitor.get("active_client"@) is None) ==> focused == s
            &&& monitor.str("keyboardlayout"@) matches Some(name) ==> laid_out.layout matches Some(layout) && layout.name
                == name && layout.count is None
            &&& monitor.str("keyboardlayout"@) is None ==> laid_out == s
        }),
{
    lemma_first_active(document.array("monitors"@)->0, m);
    assert(forall|t: Seq<char>| t.len() == 0 ==> #[trigger] t.len() == Seq::<char>::empty().len());
}

/// Without an active monitor the focus and the keyboard layout stay. Neither touches anything else.
pub proof fn focus_and_layout_touch_nothing_else(s: MangoView, document: Tree)
    ensures
        ({
            let focused = with_focus(s, document);
            let laid_out = with_layout(s, document);
            &&& focused.snapshot == s.snapshot && focused.windows == s.windows && focused.layout == s.layout
            &&& focused.geometry == s.geometry && focused.tag_count == s.tag_count
            &&& laid_out == (MangoView { layout: laid_out.layout, ..s })
            &&& (document.array("monitors"@) matches Some(monitors) ==> forall|k: int|
                0 <= k < monitors.len() ==> (#[trigger] monitors[k]).bool("active"@) != Some(true)) ==> focused == s
                && laid_out == s
        }),
{
    if document.array("monitors"@) is Some {
        let monitors = document.array("monitors"@)->0;
        if forall|k: int| 0 <= k < monitors.len() ==> (#[trigger] monitors[k]).bool("active"@) != Some(true) {
            lemma_none_active(monitors);
        }
    }
}

/// After an update a window is marked as focused exactly if it has the focused id, where the focus
/// changed. The marks of windows are all that an update changes in the list.
pub proof fn updates_move_the_focus_mark(s: MangoView, document: Tree, i: int)
    requires
        0 <= i < s.windows.len(),
    ensures
        ({
            let after = updated(s, document);
            &&& after.windows.len() == s.windows.len()
            &&& after.windows[i] == (WindowView { is_focused: after.windows[i].is_focused, ..s.windows[i] })
            &&& after.focused_client_id != s.focused_client_id || after.focused_window != s.focused_window ==> (
            after.windows[i].is_focused <==> after.focused_client_id == Some(s.windows[i].id))
            &&& after.focused_client_id == s.focused_client_id && after.focused_window == s.focused_window ==> after.windows
                == s.windows
            &&& after.snapshot == with_monitors(s, document).snapshot
            &&& after.tag_count == with_monitors(s, document).tag_count
            &&& after.geometry == with_monitors(s, document).geometry
            &&& after.focused_window == with_focus(s, document).focused_window
            &&& after.focused_client_id == with_focus(s, document).focused_client_id
            &&& after.layout == with_layout(s, document).layout
        }),
{
}

/// The tags are listed by their numbers from one on, and the overview behind them exactly while an output
/// shows it.
pub proof fn tags_are_listed_by_number(count: u32, all: WorkspaceView, i: int)
    requires
        count <= i32::MAX,
    ensures
        ({
            let list = listed(count, all);
            let overview = all.active.contains(0i32) || exists|name: Seq<char>| #[trigger]
                all.per_output.dom().contains(name) && all.per_output[name].active.contains(0i32);
            &&& list.len() == count + (if overview { 1int } else { 0 })
            &&& 0 <= i < count ==> list[i].id == i + 1 && list[i].idx == i + 1 && list[i].name == digits((i + 1) as nat)
                && list[i].output is None
            &&& overview ==> list.last().id == 0 && list.last().idx == 0 && list.last().name == "overview"@
                && list.last().output is None
        }),
{
}

/// Whether a client is listed: it tells an id, is not swallowed, and is no scratchpad that is put away.
pub open spec fn is_listed(client: Tree) -> bool {
    &&& client.u64("id"@) is Some
    &&& client.bool("is_swallowedby"@) != Some(true)
    &&& (client.bool("is_scratchpad"@) == Some(true) || client.bool("is_namedscratchpad"@) == Some(true)) ==> (
    client.array("tags"@) matches Some(tags) && tags.len() > 0)
}

/// Whether a window is that of a client. The mark of the client counts only where no focus is known.
pub open spec fn is_window_of(client: Tree, focused: Option<u64>, known: bool, w: WindowView) -> bool {
    &&& client.u64("id"@) == Some(w.id)
    &&& is_text_under(client, "title"@, w.title)
    &&& is_text_under(client, "appid"@, w.app_id)
    &&& w.output == client.str("monitor"@)
    &&& w.is_urgent <==> client.bool("is_urgent"@) == Some(true)
    &&& w.is_scratchpad <==> client.bool("is_scratchpad"@) == Some(true) || client.bool("is_namedscratchpad"@) == Some(true)
    &&& w.is_focused <==> if known { focused == Some(w.id) } else { client.bool("is_focused"@) == Some(true) }
    &&& match client.array("tags"@) {
        Some(tags) => if tags.len() > 0 {
            match tags[0].as_i64() {
                Some(tag) => w.workspace_id == Some(tag as i32),
                None => w.workspace_id is None,
            }
        } else {
            w.workspace_id is None
        },
        None => w.workspace_id is None,
    }
}

proof fn lemma_window(client: Tree, focused: Option<u64>, known: bool, w: WindowView)
    ensures
        window_of(client, focused, known) == Some(w) <==> is_window_of(client, focused, known, w),
{
    if client.str("title"@) is None {
        assert(w.title.len() == 0 ==> w.title =~= Seq::<char>::empty());
    }
    if client.str("appid"@) is None {
        assert(w.app_id.len() == 0 ==> w.app_id =~= Seq::<char>::empty());
    }
}

spec fn listed_as(focused: Option<u64>, known: bool, w: WindowView) -> spec_fn(Tree) -> bool {
    |c: Tree| is_listed(c) && is_window_of(c, focused, known, w)
}

proof fn lemma_windows(clients: Seq<Tree>, focused: Option<u64>, known: bool, w: WindowView)
    ensures
        windows_of(clients, focused, known).contains(w) <==> any(clients, listed_as(focused, known, w)),
    decreases clients.len(),
{
    if clients.len() > 0 {
        let head = clients.drop_last();
        let client = clients.last();
        let before = windows_of(head, focused, known);
        let after = windows_of(clients, focused, known);
        lemma_windows(head, focused, known, w);
        lemma_any_last(clients, listed_as(focused, known, w));
        lemma_window(client, focused, known, w);
        if after.len() > before.len() {
            assert(after == before.push(window_of(client, focused, known)->0));
            assert(after[before.len() as int] == window_of(client, focused, known)->0);
            lemma_window(client, focused, known, window_of(client, focused, known)->0);
        }
        if before.contains(w) {
            let i = choose|i: int| 0 <= i < before.len() && before[i] == w;
            assert(after[i] == w);
        }
        if after.contains(w) && !before.contains(w) {
            let i = choose|i: int| 0 <= i < after.len() && after[i] == w;
            assert(i == before.len());
        }
    }
}

/// The window list holds exactly the windows of the clients that are listed.
pub proof fn listed_clients_have_windows(s: MangoView, document: Tree, w: WindowView)
    requires
        document.array("clients"@) is Some,
    ensures
        listed_windows(s, document).contains(w) <==> any(
            document.array("clients"@)->0,
            |c: Tree| is_listed(c) && is_window_of(c, s.focused_client_id, s.focused_window is Some, w),
        ),
{
    let focused = s.focused_client_id;
    let known = s.focused_window is Some;
    let clients = document.array("clients"@)->0;
    lemma_windows(clients, focused, known, w);
    assert(listed_as(focused, known, w) == (|c: Tree| is_listed(c) && is_window_of(c, focused, known, w)));
    lemma_same(clients, listed_as(focused, known, w), |c: Tree| is_listed(c) && is_window_of(c, s.focused_client_id, s.focused_window is Some, w));
    let windows = windows_of(clients, focused, known);
    let geometry = s.geometry;
    let f = |v: WindowView| placed(v, geometry);
    let entries = windows.map_values(f);
    let list = listed_windows(s, document);
    if windows.contains(w) {
        let k = choose|k: int| 0 <= k < windows.len() && windows[k] == w;
        assert(entries[k] == f(w));
        ranked_holds_the_same(entries, f(w));
        let i = choose|i: int| 0 <= i < ranked(entries).len() && ranked(entries)[i] == f(w);
        assert(list[i] == w);
    }
    if list.contains(w) {
        let i = choose|i: int| 0 <= i < list.len() && list[i] == w;
        let entry = ranked(entries)[i];
        assert(ranked(entries).contains(entry));
        ranked_holds_the_same(entries, entry);
        let k = choose|k: int| 0 <= k < entries.len() && entries[k] == entry;
        assert(windows[k] == w);
    }
}

/// Where the output of a window is; outputs that are not known lie behind all others.
pub open spec fn stands_at(geometry: Map<Seq<char>, (i64, i64)>, w: WindowView) -> (i64, i64) {
    let name = match w.output {
        Some(name) => name,
        None => Seq::empty(),
    };
    if geometry.dom().contains(name) {
        geometry[name]
    } else {
        (i64::MAX, i64::MAX)
    }
}

/// Of two windows in the list, the output of the first lies left of that of the second or, in one column,
/// above it. On one output the first is on no later workspace; windows without one come last.
pub proof fn windows_are_listed_by_place(s: MangoView, document: Tree, i: int, j: int)
    requires
        document.array("clients"@) is Some,
        0 <= i < j < listed_windows(s, document).len(),
    ensures
        ({
            let a = listed_windows(s, document)[i];
            let b = listed_windows(s, document)[j];
            let (ax, ay) = stands_at(s.geometry, a);
            let (bx, by) = stands_at(s.geometry, b);
            &&& ax <= bx
            &&& ax == bx ==> ay <= by
            &&& ax == bx && ay == by && a.output is Some && b.output is Some && a.output != b.output ==> chars_before(
                a.output->0,
                b.output->0,
            )
            &&& a.output == b.output && a.workspace_id is None ==> b.workspace_id is None || b.workspace_id == Some(i32::MAX)
            &&& a.output == b.output && a.workspace_id is Some && b.workspace_id is Some ==> a.workspace_id->0
                <= b.workspace_id->0
        }),
{
    let windows = windows_of(document.array("clients"@)->0, s.focused_client_id, s.focused_window is Some);
    let geometry = s.geometry;
    let entries = windows.map_values(|v: WindowView| placed(v, geometry));
    ranked_is_stable_sort(entries);
    let p = ranked(entries)[i];
    let q = ranked(entries)[j];
    assert(!q.before(p));
    assert(ranked(entries).contains(p) && ranked(entries).contains(q));
    ranked_holds_the_same(entries, p);
    ranked_holds_the_same(entries, q);
    let k = choose|k: int| 0 <= k < entries.len() && entries[k] == p;
    let l = choose|l: int| 0 <= l < entries.len() && entries[l] == q;
    assert(p == placed(windows[k], geometry) && q == placed(windows[l], geometry));
    chars_before_is_total(p.output, q.output);
}

/// Listeners are told exactly of what changed: of workspaces when one of them, or their number, did, and of the focus
/// when another window has it or the window is told differently.
pub proof fn changes_are_told(a: MangoView, b: MangoView)
    ensures
        a.tag_count != b.tag_count ==> workspaces_differ(a, b),
        a.snapshot != b.snapshot ==> workspaces_differ(a, b),
        a.tag_count == b.tag_count && a.snapshot == b.snapshot ==> !workspaces_differ(a, b),
        a.focused_client_id != b.focused_client_id ==> focus_differs(a, b),
        a.focused_window != b.focused_window ==> focus_differs(a, b),
        a.focused_client_id == b.focused_client_id && a.focused_window == b.focused_window ==> !focus_differs(a, b),
{
}

/// Before the first document there are nine workspaces, and neither windows nor a focus.
pub proof fn compositors_begin_empty()
    ensures
        ({
            let s = MangoView::initial();
            &&& s.tag_count == 9 && s.windows.len() == 0 && s.layout is None
            &&& s.focused_window is None && s.focused_client_id is None && s.geometry.dom() == Set::<Seq<char>>::empty()
            &&& s.snapshot.active == Set::<i32>::empty() && s.snapshot.occupied == Set::<i32>::empty()
            &&& s.snapshot.urgent == Set::<i32>::empty() && s.snapshot.counts.dom() == Set::<i32>::empty()
            &&& s.snapshot.per_output.dom() == Set::<Seq<char>>::empty()
        }),
{
}

} // verus!
