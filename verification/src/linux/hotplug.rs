//! What a whole scan for touch devices does: each new device gets an identity
//! that none had before, each lost one gives one reset, and the others keep
//! theirs.

use vstd::prelude::*;
use crate::platform::{InputDeviceId, InputEvent};
use crate::table::texts_ascending;
use super::input::{
    all_lost, gone, gone_resets, identities_given, lost, open_result, visited, EventNodeIdentity,
    NodeState, Opened, SourceView, Visit,
};

verus! {

/// The source after the nodes that are gone were forgotten. `keys` are the paths
/// that were known, in order.
pub open spec fn forgotten_missing(
    v: SourceView,
    keys: Seq<Seq<char>>,
    present: Map<Seq<char>, EventNodeIdentity>,
) -> SourceView {
    SourceView {
        nodes: v.nodes.remove_keys(gone(v.nodes, present)),
        errors: v.errors.remove_keys(gone(v.nodes, present)),
        pending: v.pending + gone_resets(keys, v.nodes, present, keys.len()),
        ..v
    }
}

/// The source after a node was visited and, where that asked for it, opened with
/// the given outcome.
#[verifier::opaque]
pub open spec fn node_scanned(
    v: SourceView,
    path: Seq<char>,
    identity: EventNodeIdentity,
    outcome: Opened,
    now: u64,
) -> SourceView {
    let (w, visit) = visited(v, path, identity, now);
    match visit {
        Visit::Leave => w,
        Visit::Open { device, retry_delay } => open_result(
            w,
            path,
            identity,
            outcome,
            retry_delay,
            now,
        ),
    }
}

/// Whether there is no identity left for a node that is opened.
pub open spec fn runs_out(
    v: SourceView,
    path: Seq<char>,
    identity: EventNodeIdentity,
    outcome: Opened,
    now: u64,
) -> bool {
    let (w, visit) = visited(v, path, identity, now);
    visit is Open && outcome is Touch && w.next_device_id == u64::MAX
}

/// The source after the nodes at the first `n` paths were scanned.
pub open spec fn nodes_scanned(
    v: SourceView,
    present: Map<Seq<char>, EventNodeIdentity>,
    paths: Seq<Seq<char>>,
    outcomes: Seq<Opened>,
    now: u64,
    n: nat,
) -> SourceView
    decreases n,
{
    if n == 0 {
        v
    } else {
        node_scanned(
            nodes_scanned(v, present, paths, outcomes, now, (n - 1) as nat),
            paths[n - 1],
            present[paths[n - 1]],
            outcomes[n - 1],
            now,
        )
    }
}

/// Whether the first `n` nodes were scanned without running out of identities.
pub open spec fn enough_identities(
    v: SourceView,
    present: Map<Seq<char>, EventNodeIdentity>,
    paths: Seq<Seq<char>>,
    outcomes: Seq<Opened>,
    now: u64,
    n: nat,
) -> bool {
    forall|i: int|
        0 <= i < n ==> !runs_out(
            nodes_scanned(v, present, paths, outcomes, now, i as nat),
            #[trigger] paths[i],
            present[paths[i]],
            outcomes[i],
            now,
        )
}

/// The source after a whole scan.
pub open spec fn scan_done(
    v: SourceView,
    keys: Seq<Seq<char>>,
    present: Map<Seq<char>, EventNodeIdentity>,
    paths: Seq<Seq<char>>,
    outcomes: Seq<Opened>,
    now: u64,
) -> SourceView {
    nodes_scanned(forgotten_missing(v, keys, present), present, paths, outcomes, now, paths.len())
}

/// The device that is open at a path, if any.
pub open spec fn open_at(nodes: Map<Seq<char>, NodeState>, path: Seq<char>) -> Option<
    InputDeviceId,
> {
    if nodes.dom().contains(path) {
        match nodes[path] {
            NodeState::Open { device, identity } => Some(device),
            _ => None,
        }
    } else {
        None
    }
}

/// The number of the device that is open at a path.
pub open spec fn number_at(nodes: Map<Seq<char>, NodeState>, path: Seq<char>) -> u64 {
    match open_at(nodes, path) {
        Some(device) => device.0,
        None => 0,
    }
}

/// Whether a device is open at a path, and its node is still the one there.
pub open spec fn unchanged(
    nodes: Map<Seq<char>, NodeState>,
    present: Map<Seq<char>, EventNodeIdentity>,
    path: Seq<char>,
) -> bool {
    &&& open_at(nodes, path) is Some
    &&& present.dom().contains(path)
    &&& nodes[path]->Open_identity == present[path]
}

/// Whether no two devices have the same identity.
#[verifier::opaque]
pub open spec fn identities_distinct(v: SourceView) -> bool {
    forall|p: Seq<char>, q: Seq<char>|
        p != q && (#[trigger] open_at(v.nodes, p)) is Some && (#[trigger] open_at(v.nodes, q)) is Some
            ==> open_at(v.nodes, p) != open_at(v.nodes, q)
}

/// The resets of the devices at the given paths, in their order.
pub open spec fn resets_of(nodes: Map<Seq<char>, NodeState>, paths: Seq<Seq<char>>) -> Seq<
    InputEvent,
> {
    Seq::new(
        paths.len(),
        |i: int| InputEvent::Resync { device: open_at(nodes, paths[i]) },
    )
}

/// Those of the first `n` paths at which a device is open and its node is gone,
/// or another one.
pub open spec fn lost_paths(
    nodes: Map<Seq<char>, NodeState>,
    present: Map<Seq<char>, EventNodeIdentity>,
    paths: Seq<Seq<char>>,
    n: nat,
) -> Seq<Seq<char>>
    decreases n,
{
    if n == 0 {
        Seq::empty()
    } else {
        let before = lost_paths(nodes, present, paths, (n - 1) as nat);
        let p = paths[n - 1];
        if open_at(nodes, p) is Some && !unchanged(nodes, present, p) {
            before.push(p)
        } else {
            before
        }
    }
}

/// Whether no path stands twice.
pub open spec fn each_once(paths: Seq<Seq<char>>) -> bool {
    forall|i: int, j: int| 0 <= i < j < paths.len() ==> paths[i] != paths[j]
}

proof fn ascending_each_once(paths: Seq<Seq<char>>)
    requires
        texts_ascending(paths),
    ensures
        each_once(paths),
{
    assert forall|i: int, j: int| 0 <= i < j < paths.len() implies paths[i] != paths[j] by {
        assert(crate::order::text_lt(paths[i], paths[j]));
        crate::order::text_lt_irreflexive(paths[i]);
    }
}

/// The paths of lost devices are among those looked at, each once.
proof fn lost_paths_are(
    nodes: Map<Seq<char>, NodeState>,
    present: Map<Seq<char>, EventNodeIdentity>,
    paths: Seq<Seq<char>>,
    n: nat,
)
    requires
        n <= paths.len(),
        each_once(paths),
    ensures
        each_once(lost_paths(nodes, present, paths, n)),
        forall|p: Seq<char>| #[trigger]
            lost_paths(nodes, present, paths, n).contains(p) <==> (paths.take(n as int).contains(p)
                && open_at(nodes, p) is Some && !unchanged(nodes, present, p)),
    decreases n,
{
    let all = lost_paths(nodes, present, paths, n);
    if n > 0 {
        lost_paths_are(nodes, present, paths, (n - 1) as nat);
        let before = lost_paths(nodes, present, paths, (n - 1) as nat);
        let p = paths[n - 1];
        let seen = paths.take(n - 1);
        assert(paths.take(n as int) =~= seen.push(p));
        assert(!seen.contains(p)) by {
            if seen.contains(p) {
                let k = choose|k: int| 0 <= k < seen.len() && seen[k] == p;
                assert(paths[k] == paths[n - 1]);
            }
        }
        assert(!before.contains(p));
        assert forall|q: Seq<char>| #[trigger] all.contains(q) <==> (paths.take(n as int).contains(q)
            && open_at(nodes, q) is Some && !unchanged(nodes, present, q)) by {
            pushed_contains(seen, p, q);
            pushed_contains(before, p, q);
        }
        assert forall|i: int, j: int| 0 <= i < j < all.len() implies all[i] != all[j] by {
            if j == before.len() {
                assert(before.contains(before[i]));
            }
        }
    } else {
        assert(paths.take(0) =~= Seq::empty());
    }
}

proof fn pushed_contains(s: Seq<Seq<char>>, p: Seq<char>, q: Seq<char>)
    ensures
        s.push(p).contains(q) <==> s.contains(q) || q == p,
{
    if s.contains(q) {
        let k = choose|k: int| 0 <= k < s.len() && s[k] == q;
        assert(s.push(p)[k] == q);
    }
    assert(s.push(p)[s.len() as int] == p);
}

/// Forgetting what is gone gives one reset for each device among it.
proof fn gone_resets_are(
    keys: Seq<Seq<char>>,
    nodes: Map<Seq<char>, NodeState>,
    present: Map<Seq<char>, EventNodeIdentity>,
    n: nat,
)
    requires
        n <= keys.len(),
        forall|i: int| 0 <= i < keys.len() ==> nodes.dom().contains(#[trigger] keys[i]),
    ensures
        gone_resets(keys, nodes, present, n) == resets_of(
            nodes,
            gone_paths(nodes, present, keys, n),
        ),
    decreases n,
{
    if n > 0 {
        gone_resets_are(keys, nodes, present, (n - 1) as nat);
        assert(nodes.dom().contains(keys[n - 1]));
    }
    assert(gone_resets(keys, nodes, present, n) =~= resets_of(
        nodes,
        gone_paths(nodes, present, keys, n),
    ));
}

/// Those of the first `n` paths at which a device is open and no node is found.
pub open spec fn gone_paths(
    nodes: Map<Seq<char>, NodeState>,
    present: Map<Seq<char>, EventNodeIdentity>,
    keys: Seq<Seq<char>>,
    n: nat,
) -> Seq<Seq<char>>
    decreases n,
{
    if n == 0 {
        Seq::empty()
    } else {
        let before = gone_paths(nodes, present, keys, (n - 1) as nat);
        let p = keys[n - 1];
        if open_at(nodes, p) is Some && !present.dom().contains(p) {
            before.push(p)
        } else {
            before
        }
    }
}

proof fn gone_paths_are(
    nodes: Map<Seq<char>, NodeState>,
    present: Map<Seq<char>, EventNodeIdentity>,
    keys: Seq<Seq<char>>,
    n: nat,
)
    requires
        n <= keys.len(),
        each_once(keys),
    ensures
        each_once(gone_paths(nodes, present, keys, n)),
        forall|p: Seq<char>| #[trigger]
            gone_paths(nodes, present, keys, n).contains(p) <==> (keys.take(n as int).contains(p)
                && open_at(nodes, p) is Some && !present.dom().contains(p)),
    decreases n,
{
    let all = gone_paths(nodes, present, keys, n);
    if n > 0 {
        gone_paths_are(nodes, present, keys, (n - 1) as nat);
        let before = gone_paths(nodes, present, keys, (n - 1) as nat);
        let p = keys[n - 1];
        let seen = keys.take(n - 1);
        assert(keys.take(n as int) =~= seen.push(p));
        assert(!seen.contains(p)) by {
            if seen.contains(p) {
                let k = choose|k: int| 0 <= k < seen.len() && seen[k] == p;
                assert(keys[k] == keys[n - 1]);
            }
        }
        assert(!before.contains(p));
        assert forall|q: Seq<char>| #[trigger] all.contains(q) <==> (keys.take(n as int).contains(q)
            && open_at(nodes, q) is Some && !present.dom().contains(q)) by {
            pushed_contains(seen, p, q);
            pushed_contains(before, p, q);
        }
        assert forall|i: int, j: int| 0 <= i < j < all.len() implies all[i] != all[j] by {
            if j == before.len() {
                assert(before.contains(before[i]));
            }
        }
    } else {
        assert(keys.take(0) =~= Seq::empty());
    }
}

/// What one node of a scan does.
proof fn one_node(
    v: SourceView,
    path: Seq<char>,
    present: Map<Seq<char>, EventNodeIdentity>,
    outcome: Opened,
    now: u64,
)
    requires
        present.dom().contains(path),
        identities_given(v),
        identities_distinct(v),
        !runs_out(v, path, present[path], outcome, now),
    ensures
        ({
            let w = node_scanned(v, path, present[path], outcome, now);
            &&& identities_given(w)
            &&& identities_distinct(w)
            &&& v.next_device_id <= w.next_device_id
            &&& w.pending == v.pending + (if open_at(v.nodes, path) is Some && !unchanged(
                v.nodes,
                present,
                path,
            ) {
                seq![InputEvent::Resync { device: open_at(v.nodes, path) }]
            } else {
                Seq::empty()
            })
            &&& forall|q: Seq<char>|
                q != path ==> (#[trigger] w.nodes.dom().contains(q) <==> v.nodes.dom().contains(q))
                    && (w.nodes.dom().contains(q) ==> w.nodes[q] == v.nodes[q])
            &&& unchanged(v.nodes, present, path) ==> w == v
            &&& open_at(w.nodes, path) is Some && !unchanged(v.nodes, present, path)
                ==> v.next_device_id <= number_at(w.nodes, path) < w.next_device_id
        }),
{
    reveal(node_scanned);
    reveal(identities_distinct);
    let w = node_scanned(v, path, present[path], outcome, now);
    assert forall|q: Seq<char>| q != path implies (#[trigger] w.nodes.dom().contains(q)
        <==> v.nodes.dom().contains(q)) && (w.nodes.dom().contains(q) ==> w.nodes[q]
        == v.nodes[q]) by {}
    assert(w.pending =~= v.pending + (if open_at(v.nodes, path) is Some && !unchanged(
        v.nodes,
        present,
        path,
    ) {
        seq![InputEvent::Resync { device: open_at(v.nodes, path) }]
    } else {
        Seq::empty()
    }));
    assert forall|p: Seq<char>| w.nodes.dom().contains(p) implies match #[trigger] w.nodes[p] {
        NodeState::Open { device, identity } => device.0 < w.next_device_id,
        _ => true,
    } by {
        if p != path {
            assert(v.nodes.dom().contains(p));
            assert(w.nodes[p] == v.nodes[p]);
        } else if v.nodes.dom().contains(p) {
            assert(match v.nodes[p] {
                NodeState::Open { device, identity } => device.0 < v.next_device_id,
                _ => true,
            });
        }
    }
    assert forall|p: Seq<char>, q: Seq<char>|
        p != q && (#[trigger] open_at(w.nodes, p)) is Some && (#[trigger] open_at(w.nodes, q)) is Some implies open_at(
        w.nodes,
        p,
    ) != open_at(w.nodes, q) by {
        if p != path {
            assert(open_at(w.nodes, p) == open_at(v.nodes, p));
            assert(number_at(v.nodes, p) < v.next_device_id) by {
                assert(v.nodes.dom().contains(p));
                assert(match v.nodes[p] {
                    NodeState::Open { device, identity } => device.0 < v.next_device_id,
                    _ => true,
                });
            }
        }
        if q != path {
            assert(open_at(w.nodes, q) == open_at(v.nodes, q));
            assert(number_at(v.nodes, q) < v.next_device_id) by {
                assert(v.nodes.dom().contains(q));
                assert(match v.nodes[q] {
                    NodeState::Open { device, identity } => device.0 < v.next_device_id,
                    _ => true,
                });
            }
        }
    }
}

/// What the first `n` nodes of a scan do.
proof fn first_nodes(
    v: SourceView,
    present: Map<Seq<char>, EventNodeIdentity>,
    paths: Seq<Seq<char>>,
    outcomes: Seq<Opened>,
    now: u64,
    n: nat,
)
    requires
        n <= paths.len(),
        each_once(paths),
        forall|i: int| 0 <= i < paths.len() ==> present.dom().contains(#[trigger] paths[i]),
        identities_given(v),
        identities_distinct(v),
        enough_identities(v, present, paths, outcomes, now, n),
    ensures
        ({
            let w = nodes_scanned(v, present, paths, outcomes, now, n);
            let seen = paths.take(n as int);
            &&& identities_given(w)
            &&& identities_distinct(w)
            &&& v.next_device_id <= w.next_device_id
            &&& w.pending == v.pending + resets_of(
                v.nodes,
                lost_paths(v.nodes, present, paths, n),
            )
            &&& forall|p: Seq<char>|
                !seen.contains(p) ==> (#[trigger] w.nodes.dom().contains(p)
                    <==> v.nodes.dom().contains(p)) && (w.nodes.dom().contains(p) ==> w.nodes[p]
                    == v.nodes[p])
            &&& forall|p: Seq<char>|
                #![trigger unchanged(v.nodes, present, p)]
                unchanged(v.nodes, present, p) ==> w.nodes.dom().contains(p) && w.nodes[p]
                    == v.nodes[p]
            &&& forall|p: Seq<char>|
                #![trigger open_at(w.nodes, p)]
                seen.contains(p) && open_at(w.nodes, p) is Some && !unchanged(
                    v.nodes,
                    present,
                    p,
                ) ==> v.next_device_id <= number_at(w.nodes, p) < w.next_device_id
        }),
    decreases n,
{
    let w = nodes_scanned(v, present, paths, outcomes, now, n);
    let seen = paths.take(n as int);
    if n == 0 {
        assert(seen =~= Seq::empty());
        assert(w.pending =~= v.pending + resets_of(
            v.nodes,
            lost_paths(v.nodes, present, paths, n),
        ));
    } else {
        let m = (n - 1) as nat;
        let p = paths[n - 1];
        first_nodes(v, present, paths, outcomes, now, m);
        let u = nodes_scanned(v, present, paths, outcomes, now, m);
        let earlier = paths.take(m as int);
        assert(seen =~= earlier.push(p));
        assert(!earlier.contains(p)) by {
            if earlier.contains(p) {
                let k = choose|k: int| 0 <= k < earlier.len() && earlier[k] == p;
                assert(paths[k] == paths[n - 1]);
            }
        }
        assert(u.nodes.dom().contains(p) <==> v.nodes.dom().contains(p));
        assert(open_at(u.nodes, p) == open_at(v.nodes, p));
        assert(unchanged(u.nodes, present, p) == unchanged(v.nodes, present, p));
        one_node(u, p, present, outcomes[n - 1], now);
        assert(w.pending =~= v.pending + resets_of(
            v.nodes,
            lost_paths(v.nodes, present, paths, n),
        ));
        assert forall|q: Seq<char>| !seen.contains(q) implies (#[trigger] w.nodes.dom().contains(q)
            <==> v.nodes.dom().contains(q)) && (w.nodes.dom().contains(q) ==> w.nodes[q]
            == v.nodes[q]) by {
            pushed_contains(earlier, p, q);
            assert(u.nodes.dom().contains(q) <==> v.nodes.dom().contains(q));
        }
        assert forall|q: Seq<char>|
            #![trigger unchanged(v.nodes, present, q)]
            unchanged(v.nodes, present, q) implies w.nodes.dom().contains(q) && w.nodes[q]
            == v.nodes[q] by {
            assert(u.nodes.dom().contains(q) && u.nodes[q] == v.nodes[q]);
            if q != p {
                assert(w.nodes.dom().contains(q) <==> u.nodes.dom().contains(q));
            }
        }
        assert forall|q: Seq<char>|
            #![trigger open_at(w.nodes, q)]
            seen.contains(q) && open_at(w.nodes, q) is Some && !unchanged(
                v.nodes,
                present,
                q,
            ) implies v.next_device_id <= number_at(w.nodes, q) < w.next_device_id by {
            pushed_contains(earlier, p, q);
            if q != p {
                assert(w.nodes.dom().contains(q) <==> u.nodes.dom().contains(q));
                assert(open_at(u.nodes, q) == open_at(w.nodes, q));
            }
        }
    }
}

proof fn forgetting_keeps_identities(
    v: SourceView,
    keys: Seq<Seq<char>>,
    present: Map<Seq<char>, EventNodeIdentity>,
)
    requires
        identities_given(v),
        identities_distinct(v),
    ensures
        identities_given(forgotten_missing(v, keys, present)),
        identities_distinct(forgotten_missing(v, keys, present)),
{
    reveal(identities_distinct);
    let u = forgotten_missing(v, keys, present);
    assert forall|p: Seq<char>| #[trigger] u.nodes.dom().contains(p) <==> v.nodes.dom().contains(p)
        && present.dom().contains(p) by {}
    assert forall|p: Seq<char>|
        present.dom().contains(p) implies #[trigger] open_at(u.nodes, p) == open_at(v.nodes, p) by {
        assert(u.nodes.dom().contains(p) <==> v.nodes.dom().contains(p));
    }
    assert forall|p: Seq<char>| u.nodes.dom().contains(p) implies match #[trigger] u.nodes[p] {
        NodeState::Open { device, identity } => device.0 < u.next_device_id,
        _ => true,
    } by {
        assert(v.nodes.dom().contains(p) && u.nodes[p] == v.nodes[p]);
    }
    assert forall|p: Seq<char>, q: Seq<char>|
        p != q && (#[trigger] open_at(u.nodes, p)) is Some && (#[trigger] open_at(u.nodes, q)) is Some implies open_at(
        u.nodes,
        p,
    ) != open_at(u.nodes, q) by {
        assert(present.dom().contains(p) && present.dom().contains(q));
        assert(open_at(v.nodes, p) is Some && open_at(v.nodes, q) is Some);
    }
}

proof fn lost_is_gone_or_changed(
    v: SourceView,
    keys: Seq<Seq<char>>,
    present: Map<Seq<char>, EventNodeIdentity>,
    paths: Seq<Seq<char>>,
)
    requires
        each_once(keys),
        each_once(paths),
        forall|p: Seq<char>| #[trigger] keys.contains(p) <==> v.nodes.dom().contains(p),
        forall|p: Seq<char>| #[trigger] paths.contains(p) <==> present.dom().contains(p),
    ensures
        ({
            let u = forgotten_missing(v, keys, present);
            let first = gone_paths(v.nodes, present, keys, keys.len());
            let second = lost_paths(u.nodes, present, paths, paths.len());
            let lost = first + second;
            &&& each_once(lost)
            &&& forall|p: Seq<char>| #[trigger]
                lost.contains(p) <==> open_at(v.nodes, p) is Some && !unchanged(
                    v.nodes,
                    present,
                    p,
                )
            &&& resets_of(v.nodes, first) + resets_of(u.nodes, second) == resets_of(v.nodes, lost)
        }),
{
    let u = forgotten_missing(v, keys, present);
    let first = gone_paths(v.nodes, present, keys, keys.len());
    let second = lost_paths(u.nodes, present, paths, paths.len());
    let lost = first + second;
    gone_paths_are(v.nodes, present, keys, keys.len());
    lost_paths_are(u.nodes, present, paths, paths.len());
    assert(keys.take(keys.len() as int) =~= keys);
    assert(paths.take(paths.len() as int) =~= paths);
    assert forall|p: Seq<char>| #[trigger] lost.contains(p) <==> open_at(v.nodes, p) is Some
        && !unchanged(v.nodes, present, p) by {
        joined_contains(first, second, p);
        forgetting_keeps_nodes(v, keys, present, p);
        assert(keys.contains(p) <==> v.nodes.dom().contains(p));
        assert(paths.contains(p) <==> present.dom().contains(p));
    }
    assert forall|i: int, j: int| 0 <= i < j < lost.len() implies lost[i] != lost[j] by {
        if i < first.len() && j >= first.len() {
            assert(first.contains(lost[i]));
            assert(second[j - first.len()] == lost[j]);
            assert(second.contains(lost[j]));
            assert(paths.contains(lost[j]));
        } else if i >= first.len() {
            assert(second[i - first.len()] == lost[i] && second[j - first.len()] == lost[j]);
        }
    }
    assert forall|k: int| 0 <= k < second.len() implies open_at(u.nodes, #[trigger] second[k])
        == open_at(v.nodes, second[k]) by {
        assert(second.contains(second[k]));
        assert(paths.contains(second[k]));
        forgetting_keeps_nodes(v, keys, present, second[k]);
    }
    assert(resets_of(v.nodes, first) + resets_of(u.nodes, second) =~= resets_of(v.nodes, lost));
}

proof fn forgetting_keeps_nodes(
    v: SourceView,
    keys: Seq<Seq<char>>,
    present: Map<Seq<char>, EventNodeIdentity>,
    p: Seq<char>,
)
    ensures
        ({
            let u = forgotten_missing(v, keys, present);
            &&& u.nodes.dom().contains(p) <==> v.nodes.dom().contains(p) && present.dom().contains(
                p,
            )
            &&& present.dom().contains(p) ==> open_at(u.nodes, p) == open_at(v.nodes, p)
            &&& unchanged(u.nodes, present, p) == unchanged(v.nodes, present, p)
            &&& u.nodes.dom().contains(p) ==> u.nodes[p] == v.nodes[p]
        }),
{
}

/// A whole scan, from any state in which identities were given out once:
///
/// - each device that it opens gets an identity that none had before, and no two
///   of them the same;
/// - each device whose node is gone, or another one, adds exactly one reset, and
///   nothing else is added;
/// - each device whose node is unchanged keeps its identity, and no reset is for
///   it.
pub proof fn a_scan_resets_what_is_lost_and_keeps_the_rest(
    v: SourceView,
    keys: Seq<Seq<char>>,
    present: Map<Seq<char>, EventNodeIdentity>,
    paths: Seq<Seq<char>>,
    outcomes: Seq<Opened>,
    now: u64,
) -> (lost: Seq<Seq<char>>)
    requires
        identities_given(v),
        identities_distinct(v),
        texts_ascending(keys),
        keys.to_set() == v.nodes.dom(),
        texts_ascending(paths),
        paths.to_set() == present.dom(),
        enough_identities(
            forgotten_missing(v, keys, present),
            present,
            paths,
            outcomes,
            now,
            paths.len(),
        ),
    ensures
        ({
            let w = scan_done(v, keys, present, paths, outcomes, now);
            &&& identities_given(w)
            &&& identities_distinct(w)
            &&& forall|p: Seq<char>|
                #![trigger open_at(w.nodes, p)]
                open_at(w.nodes, p) is Some && !unchanged(v.nodes, present, p)
                    ==> v.next_device_id <= number_at(w.nodes, p) < w.next_device_id
            &&& forall|p: Seq<char>|
                #![trigger unchanged(v.nodes, present, p)]
                unchanged(v.nodes, present, p) ==> w.nodes.dom().contains(p) && w.nodes[p]
                    == v.nodes[p]
            &&& each_once(lost)
            &&& forall|p: Seq<char>| #[trigger]
                lost.contains(p) <==> open_at(v.nodes, p) is Some && !unchanged(
                    v.nodes,
                    present,
                    p,
                )
            &&& w.pending == v.pending + resets_of(v.nodes, lost)
            &&& forall|p: Seq<char>, i: int|
                #![trigger open_at(v.nodes, p), lost[i]]
                unchanged(v.nodes, present, p) && 0 <= i < lost.len() ==> open_at(v.nodes, lost[i])
                    != open_at(v.nodes, p)
        }),
{
    let u = forgotten_missing(v, keys, present);
    let w = scan_done(v, keys, present, paths, outcomes, now);
    ascending_each_once(keys);
    ascending_each_once(paths);
    assert forall|i: int| 0 <= i < keys.len() implies v.nodes.dom().contains(#[trigger] keys[i]) by {
        assert(keys.to_set().contains(keys[i]));
    }
    assert forall|i: int| 0 <= i < paths.len() implies present.dom().contains(#[trigger] paths[i]) by {
        assert(paths.to_set().contains(paths[i]));
    }
    assert(keys.take(keys.len() as int) =~= keys);
    assert(paths.take(paths.len() as int) =~= paths);
    assert forall|p: Seq<char>| #[trigger] paths.contains(p) <==> present.dom().contains(p) by {
        assert(paths.to_set().contains(p) <==> present.dom().contains(p));
    }
    assert forall|p: Seq<char>| #[trigger] keys.contains(p) <==> v.nodes.dom().contains(p) by {
        assert(keys.to_set().contains(p) <==> v.nodes.dom().contains(p));
    }
    gone_resets_are(keys, v.nodes, present, keys.len());
    forgetting_keeps_identities(v, keys, present);
    first_nodes(u, present, paths, outcomes, now, paths.len());
    lost_is_gone_or_changed(v, keys, present, paths);
    let first = gone_paths(v.nodes, present, keys, keys.len());
    let second = lost_paths(u.nodes, present, paths, paths.len());
    let lost = first + second;
    assert(w.pending =~= v.pending + (resets_of(v.nodes, first) + resets_of(u.nodes, second)));
    assert forall|p: Seq<char>|
        #![trigger open_at(w.nodes, p)]
        open_at(w.nodes, p) is Some && !unchanged(v.nodes, present, p) implies v.next_device_id
        <= number_at(w.nodes, p) < w.next_device_id by {
        forgetting_keeps_nodes(v, keys, present, p);
        if !paths.contains(p) {
            assert(w.nodes.dom().contains(p) <==> u.nodes.dom().contains(p));
        }
    }
    assert forall|p: Seq<char>|
        #![trigger unchanged(v.nodes, present, p)]
        unchanged(v.nodes, present, p) implies w.nodes.dom().contains(p) && w.nodes[p]
        == v.nodes[p] by {
        forgetting_keeps_nodes(v, keys, present, p);
    }
    assert forall|p: Seq<char>, i: int|
        #![trigger open_at(v.nodes, p), lost[i]]
        unchanged(v.nodes, present, p) && 0 <= i < lost.len() implies open_at(v.nodes, lost[i])
        != open_at(v.nodes, p) by {
        assert(lost.contains(lost[i]));
        reveal(identities_distinct);
    }
    lost
}

proof fn joined_contains(a: Seq<Seq<char>>, b: Seq<Seq<char>>, p: Seq<char>)
    ensures
        (a + b).contains(p) <==> a.contains(p) || b.contains(p),
{
    if a.contains(p) {
        let k = choose|k: int| 0 <= k < a.len() && a[k] == p;
        assert((a + b)[k] == p);
    }
    if b.contains(p) {
        let k = choose|k: int| 0 <= k < b.len() && b[k] == p;
        assert((a + b)[a.len() + k] == p);
    }
}

/// A source that knows no node has given no identity out twice.
pub proof fn identities_start_distinct(v: SourceView)
    requires
        v.nodes == Map::<Seq<char>, NodeState>::empty(),
    ensures
        identities_given(v),
        identities_distinct(v),
{
    reveal(identities_distinct);
}

/// Losing devices while they are read keeps the identities of the others.
pub proof fn losing_keeps_identities(v: SourceView, paths: Seq<Seq<char>>, n: nat, now: u64)
    requires
        identities_given(v),
        identities_distinct(v),
    ensures
        identities_given(all_lost(v, paths, n, now)),
        identities_distinct(all_lost(v, paths, n, now)),
        all_lost(v, paths, n, now).next_device_id == v.next_device_id,
    decreases n,
{
    if n > 0 {
        losing_keeps_identities(v, paths, (n - 1) as nat, now);
        let u = all_lost(v, paths, (n - 1) as nat, now);
        let w = lost(u, paths[n - 1], now);
        reveal(identities_distinct);
        assert forall|p: Seq<char>| w.nodes.dom().contains(p) implies match #[trigger] w.nodes[p] {
            NodeState::Open { device, identity } => device.0 < w.next_device_id,
            _ => true,
        } by {
            if p != paths[n - 1] || w == u {
                assert(u.nodes.dom().contains(p) && w.nodes[p] == u.nodes[p]);
            }
        }
        assert forall|p: Seq<char>| (#[trigger] open_at(w.nodes, p)) is Some implies open_at(
            w.nodes,
            p,
        ) == open_at(u.nodes, p) by {}
    }
}

} // verus!
