//! Maximum-cardinality matching in a bipartite graph.
use vstd::prelude::*;

verus! {

/// The distance of a vertex that the breadth-first search has not reached.
pub const HK_INFINITY: i16 = i16::MAX;

/// `adjacency[u]` lists the right-hand neighbours of the left-hand vertex
/// `u`; vertices are numbered from 1 on both sides and 0 stands for no vertex.
pub open spec fn is_graph(adjacency: Seq<Vec<i16>>, u_size: int, v_size: int) -> bool {
    &&& 0 <= u_size < adjacency.len()
    &&& 0 <= v_size
    &&& u_size < i16::MAX
    &&& v_size < i16::MAX
    &&& forall|u: int, k: int|
        #![trigger adjacency[u]@[k]]
        1 <= u <= u_size && 0 <= k < adjacency[u]@.len() ==> 1 <= adjacency[u]@[k] <= v_size
}

/// There is an edge from the left-hand vertex `u` to the right-hand one `v`.
pub open spec fn is_edge(adjacency: Seq<Vec<i16>>, u: int, v: int) -> bool {
    adjacency[u]@.contains(v as i16)
}

/// `pair_uv` and `pair_vu` describe one and the same set of edges of the graph,
/// no two of which share a vertex; an unmatched vertex is paired with 0.
pub open spec fn is_matching(
    adjacency: Seq<Vec<i16>>,
    u_size: int,
    v_size: int,
    pair_uv: Seq<i16>,
    pair_vu: Seq<i16>,
) -> bool {
    &&& pair_uv.len() == u_size + 1
    &&& pair_vu.len() == v_size + 1
    &&& pair_uv[0] == 0
    &&& pair_vu[0] == 0
    &&& forall|u: int| 1 <= u <= u_size ==> 0 <= #[trigger] pair_uv[u] <= v_size
    &&& forall|v: int| 1 <= v <= v_size ==> 0 <= #[trigger] pair_vu[v] <= u_size
    &&& forall|u: int|
        1 <= u <= u_size && #[trigger] pair_uv[u] != 0 ==> {
            &&& pair_vu[pair_uv[u] as int] == u
            &&& is_edge(adjacency, u, pair_uv[u] as int)
        }
    &&& forall|v: int|
        1 <= v <= v_size && #[trigger] pair_vu[v] != 0 ==> pair_uv[pair_vu[v] as int] == v
}

/// The left-hand vertices that are matched.
pub open spec fn matched(pair_uv: Seq<i16>) -> Set<int> {
    Set::new(|u: int| 1 <= u < pair_uv.len() && pair_uv[u] != 0)
}

/// One step of a layered alternating path: from `u` over its `k`-th edge and
/// back to the left-hand side, one layer further from the start.
pub open spec fn layer_step(
    adjacency: Seq<Vec<i16>>,
    pair_vu: Seq<i16>,
    distance: Seq<i16>,
    u: int,
    k: int,
) -> bool {
    &&& 0 <= k < adjacency[u]@.len()
    &&& distance[pair_vu[adjacency[u]@[k] as int] as int] == distance[u] + 1
}

/// A layered alternating path leads from `u` to an unmatched right-hand vertex.
pub open spec fn augmentable(
    adjacency: Seq<Vec<i16>>,
    pair_vu: Seq<i16>,
    distance: Seq<i16>,
    u: int,
) -> bool
    decreases
            if u == 0 {
                0
            } else {
                i16::MAX - distance[u] + 1
            },
{
    u == 0 || (distance[u] != HK_INFINITY && exists|k: int| #[trigger]
        layer_step(adjacency, pair_vu, distance, u, k) && augmentable(
            adjacency,
            pair_vu,
            distance,
            pair_vu[adjacency[u]@[k] as int] as int,
        ))
}

/// What a search from `u` leaves as it was: the pairs and distances of the
/// vertices in the layers before that of `u`.
pub open spec fn earlier_layers_kept(
    uv_before: Seq<i16>,
    uv_after: Seq<i16>,
    dist_before: Seq<i16>,
    dist_after: Seq<i16>,
    u: int,
) -> bool {
    forall|x: int|
        #![trigger dist_before[x]]
        0 <= x < dist_before.len() && dist_before[x] < dist_before[u] ==> {
            &&& uv_after[x] == uv_before[x]
            &&& dist_after[x] == dist_before[x]
        }
}

/// Distances have only changed to infinity, and only where no layered path
/// led on.
pub open spec fn only_dead_ends_dropped(
    adjacency: Seq<Vec<i16>>,
    pair_vu: Seq<i16>,
    before: Seq<i16>,
    after: Seq<i16>,
) -> bool {
    &&& after.len() == before.len()
    &&& forall|x: int|
        0 <= x < before.len() ==> #[trigger] after[x] == before[x] || (after[x] == HK_INFINITY
            && !augmentable(adjacency, pair_vu, before, x))
}

/// Every vertex that an edge or a pair leads to is there; `u_len` counts the
/// left-hand vertices and 0.
pub open spec fn ids_in_range(adjacency: Seq<Vec<i16>>, u_len: int, pair_vu: Seq<i16>) -> bool {
    &&& 0 < u_len <= adjacency.len()
    &&& u_len <= i16::MAX + 1
    &&& forall|u: int, k: int|
        #![trigger adjacency[u]@[k]]
        1 <= u < u_len && 0 <= k < adjacency[u]@.len() ==> 0 <= adjacency[u]@[k] < pair_vu.len()
    &&& forall|v: int| 0 <= v < pair_vu.len() ==> 0 <= #[trigger] pair_vu[v] < u_len
}

proof fn lemma_augmentable_kept(
    adjacency: Seq<Vec<i16>>,
    pair_vu: Seq<i16>,
    before: Seq<i16>,
    after: Seq<i16>,
    u: int,
)
    requires
        ids_in_range(adjacency, before.len() as int, pair_vu),
        only_dead_ends_dropped(adjacency, pair_vu, before, after),
        0 <= u < before.len(),
    ensures
        augmentable(adjacency, pair_vu, before, u) == augmentable(adjacency, pair_vu, after, u),
    decreases
            if u == 0 {
                0
            } else {
                i16::MAX - before[u] + 1
            },
{
    if u != 0 {
        if augmentable(adjacency, pair_vu, before, u) {
            let k = choose|k: int| #[trigger]
                layer_step(adjacency, pair_vu, before, u, k) && augmentable(
                    adjacency,
                    pair_vu,
                    before,
                    pair_vu[adjacency[u]@[k] as int] as int,
                );
            let v = adjacency[u]@[k] as int;
            let w = pair_vu[v] as int;
            assert(0 <= w < before.len());
            lemma_augmentable_kept(adjacency, pair_vu, before, after, w);
            assert(after[u] == before[u]);
            assert(after[w] == before[w]);
            assert(layer_step(adjacency, pair_vu, after, u, k));
        }
        if augmentable(adjacency, pair_vu, after, u) {
            assert(after[u] == before[u]);
            let k = choose|k: int| #[trigger]
                layer_step(adjacency, pair_vu, after, u, k) && augmentable(
                    adjacency,
                    pair_vu,
                    after,
                    pair_vu[adjacency[u]@[k] as int] as int,
                );
            let v = adjacency[u]@[k] as int;
            let w = pair_vu[v] as int;
            assert(0 <= w < before.len());
            if after[w] == before[w] {
                lemma_augmentable_kept(adjacency, pair_vu, before, after, w);
                assert(layer_step(adjacency, pair_vu, before, u, k));
            } else {
                assert(after[w] == HK_INFINITY);
                assert(w == 0);
                assert(augmentable(adjacency, pair_vu, before, 0));
            }
        }
    }
}

/// Pairing `u` with `v` once the former partner of `v` has been paired anew.
proof fn lemma_flip(
    adjacency: Seq<Vec<i16>>,
    u_size: int,
    v_size: int,
    uv0: Seq<i16>,
    uv1: Seq<i16>,
    vu0: Seq<i16>,
    vu1: Seq<i16>,
    u: int,
    v: int,
)
    requires
        is_graph(adjacency, u_size, v_size),
        is_matching(adjacency, u_size, v_size, uv0, vu0),
        is_matching(adjacency, u_size, v_size, uv1, vu1.update(v, 0)),
        vu1.len() == vu0.len(),
        1 <= u <= u_size,
        1 <= v <= v_size,
        uv1[u] == uv0[u],
        uv0[u] != v,
        is_edge(adjacency, u, v),
    ensures
        is_matching(
            adjacency,
            u_size,
            v_size,
            uv1.update(u, v as i16),
            vu1.update(v, u as i16).update(uv0[u] as int, 0),
        ),
        vu1[uv0[u] as int] == vu0[uv0[u] as int],
{
    let left = uv0[u] as int;
    let uv2 = uv1.update(u, v as i16);
    let vu2 = vu1.update(v, u as i16).update(left, 0);
    let vu1z = vu1.update(v, 0);
    assert(vu1z[left] == vu1[left]);
    if left != 0 {
        assert(vu1z[left] == u);
        assert(vu0[left] == u);
    }
    assert forall|x: int| 1 <= x <= u_size && #[trigger] uv2[x] != 0 implies vu2[uv2[x] as int] == x
        && is_edge(adjacency, x, uv2[x] as int) by {
        if x != u {
            let y = uv1[x] as int;
            assert(uv2[x] == uv1[x]);
            assert(vu1z[y] == x);
        }
    }
    assert forall|y: int| 1 <= y <= v_size && #[trigger] vu2[y] != 0 implies uv2[vu2[y] as int]
        == y by {
        if y != v && y != left {
            assert(vu1z[y] == vu2[y]);
        }
    }
    assert forall|y: int| 1 <= y <= v_size implies 0 <= #[trigger] vu2[y] <= u_size by {
        if y != v && y != left {
            assert(vu1z[y] == vu2[y]);
        }
    }
}

/// Searches for a layered alternating path from `u` to an unmatched right-hand
/// vertex and, where there is one, flips the edges along it. A vertex from
/// which the search fails is not entered again: its distance becomes infinite.
///
/// After a success every vertex that was paired still is, and so is `u`. If the
/// pairs were a matching, they are one again; where `u` was matched before, its
/// former partner is left to the caller, who reaches `u` over it.
pub fn hk_depth_search(
    adjacency: &[Vec<i16>],
    pair_uv: &mut Vec<i16>,
    pair_vu: &mut Vec<i16>,
    distance: &mut Vec<i16>,
    u: usize,
) -> (found: bool)
    requires
        ids_in_range(adjacency@, old(pair_uv)@.len() as int, old(pair_vu)@),
        old(distance)@.len() == old(pair_uv)@.len(),
        u < old(pair_uv)@.len(),
    ensures
        found == augmentable(adjacency@, old(pair_vu)@, old(distance)@, u as int),
        final(pair_uv)@.len() == old(pair_uv)@.len(),
        final(pair_vu)@.len() == old(pair_vu)@.len(),
        final(distance)@.len() == old(distance)@.len(),
        earlier_layers_kept(
            old(pair_uv)@,
            final(pair_uv)@,
            old(distance)@,
            final(distance)@,
            u as int,
        ),
        u == 0 || !found ==> {
            &&& final(pair_uv)@ == old(pair_uv)@
            &&& final(pair_vu)@ == old(pair_vu)@
        },
        !found ==> final(distance)@[u as int] == HK_INFINITY && only_dead_ends_dropped(
            adjacency@,
            old(pair_vu)@,
            old(distance)@,
            final(distance)@,
        ),
        u == 0 ==> final(distance)@ == old(distance)@,
        forall|x: int|
            0 <= x < old(distance)@.len() ==> #[trigger] final(distance)@[x] == old(distance)@[x]
                || final(distance)@[x] == HK_INFINITY,
        is_graph(adjacency@, old(pair_uv)@.len() - 1, old(pair_vu)@.len() - 1) ==> forall|x: int|
            0 <= x < old(pair_uv)@.len() && old(pair_uv)@[x] != 0
                ==> #[trigger] final(pair_uv)@[x] != 0,
        forall|y: int|
            0 <= y < old(pair_vu)@.len() && old(pair_vu)@[y] != 0
                ==> #[trigger] final(pair_vu)@[y] != 0,
        u != 0 && found && is_graph(
            adjacency@,
            old(pair_uv)@.len() - 1,
            old(pair_vu)@.len() - 1,
        ) && is_matching(
            adjacency@,
            old(pair_uv)@.len() - 1,
            old(pair_vu)@.len() - 1,
            old(pair_uv)@,
            old(pair_vu)@,
        ) ==> {
            let left = old(pair_uv)@[u as int] as int;
            &&& is_matching(
                adjacency@,
                old(pair_uv)@.len() - 1,
                old(pair_vu)@.len() - 1,
                final(pair_uv)@,
                final(pair_vu)@.update(left, 0),
            )
            &&& final(pair_vu)@[left] == old(pair_vu)@[left]
            &&& final(pair_uv)@[u as int] != left
            &&& final(pair_uv)@[u as int] != 0
            &&& forall|x: int|
                0 <= x < old(pair_uv)@.len() && x != u ==> (#[trigger] final(pair_uv)@[x] == 0)
                    == (old(pair_uv)@[x] == 0)
        },
    decreases
            if u == 0 {
                0
            } else {
                i16::MAX - old(distance)@[u as int] + 1
            },
{
    if u == 0 {
        return true;
    }
    if distance[u] == HK_INFINITY {
        return false;
    }
    let ghost us = pair_uv@.len() - 1;
    let ghost vs = pair_vu@.len() - 1;
    let ghost uv0 = pair_uv@;
    let ghost vu0 = pair_vu@;
    let ghost d0 = distance@;
    let nextdist: i16 = distance[u] + 1;
    let mut idx: usize = 0;
    while idx < adjacency[u].len()
        invariant
            0 < u <= us,
            u < distance@.len(),
            us == uv0.len() - 1,
            vs == vu0.len() - 1,
            ids_in_range(adjacency@, us + 1, vu0),
            uv0 == old(pair_uv)@,
            vu0 == old(pair_vu)@,
            d0 == old(distance)@,
            pair_uv@ == uv0,
            pair_vu@ == vu0,
            d0.len() == us + 1,
            d0[u as int] < HK_INFINITY,
            nextdist == d0[u as int] + 1,
            distance@[u as int] == d0[u as int],
            only_dead_ends_dropped(adjacency@, vu0, d0, distance@),
            earlier_layers_kept(uv0, uv0, d0, distance@, u as int),
            idx <= adjacency@[u as int]@.len(),
            forall|k: int|
                0 <= k < idx && #[trigger] layer_step(adjacency@, vu0, d0, u as int, k)
                    ==> !augmentable(
                    adjacency@,
                    vu0,
                    d0,
                    vu0[adjacency@[u as int]@[k] as int] as int,
                ),
        decreases adjacency@[u as int]@.len() - idx,
    {
        let v: usize = adjacency[u][idx] as usize;
        let w: usize = pair_vu[v] as usize;
        let ghost d1 = distance@;
        assert(0 <= w <= us);
        if distance[w] == nextdist {
            let found = hk_depth_search(adjacency, pair_uv, pair_vu, distance, w);
            proof {
                lemma_augmentable_kept(adjacency@, vu0, d0, d1, w as int);
            }
            if found {
                proof {
                    assert(layer_step(adjacency@, vu0, d0, u as int, idx as int));
                    if is_graph(adjacency@, us, vs) && is_matching(adjacency@, us, vs, uv0, vu0) {
                        lemma_flip(
                            adjacency@,
                            us,
                            vs,
                            uv0,
                            pair_uv@,
                            vu0,
                            pair_vu@,
                            u as int,
                            v as int,
                        );
                    }
                    assert forall|x: int| 0 <= x < d0.len() implies #[trigger] distance@[x] == d0[x]
                        || distance@[x] == HK_INFINITY by {
                        assert(d1[x] == d0[x] || d1[x] == HK_INFINITY);
                    }
                    assert(d1[u as int] < d1[w as int]);
                    assert forall|x: int|
                        #![trigger d0[x]]
                        0 <= x < d0.len() && d0[x] < d0[u as int] implies pair_uv@[x] == uv0[x]
                        && distance@[x] == d0[x] by {
                        assert(d1[x] == d0[x]);
                        assert(d1[x] < d1[w as int]);
                    }
                }
                pair_vu.set(v, u as i16);
                pair_uv.set(u, v as i16);
                return true;
            }
            proof {
                assert(d1[u as int] < d1[w as int]);
                assert forall|x: int| 0 <= x < d0.len() implies #[trigger] distance@[x] == d0[x] || (
                distance@[x] == HK_INFINITY && !augmentable(adjacency@, vu0, d0, x)) by {
                    lemma_augmentable_kept(adjacency@, vu0, d0, d1, x);
                    assert(d1[x] == d0[x] || d1[x] == HK_INFINITY);
                }
                assert forall|x: int|
                    #![trigger d0[x]]
                    0 <= x < d0.len() && d0[x] < d0[u as int] implies distance@[x] == d0[x] by {
                    assert(d1[x] == d0[x]);
                    assert(d1[x] < d1[w as int]);
                }
            }
        } else {
            assert(d1[w as int] == d0[w as int] || !augmentable(adjacency@, vu0, d0, w as int));
        }
        idx = idx + 1;
    }
    assert(!augmentable(adjacency@, vu0, d0, u as int));
    distance.set(u, HK_INFINITY);
    false
}

/// `x` is one layer beyond `y` and can be reached over the `k`-th edge of `y`.
spec fn reached_from(
    adjacency: Seq<Vec<i16>>,
    pair_vu: Seq<i16>,
    distance: Seq<i16>,
    x: int,
    y: int,
    k: int,
) -> bool {
    &&& 0 <= k < adjacency[y]@.len()
    &&& pair_vu[adjacency[y]@[k] as int] == x
    &&& distance[y] != HK_INFINITY
    &&& distance[y] + 1 == distance[x]
}

/// Every vertex that has been reached is an unmatched one or can be reached
/// from a vertex one layer before it.
spec fn rooted(
    adjacency: Seq<Vec<i16>>,
    u_size: int,
    pair_uv: Seq<i16>,
    pair_vu: Seq<i16>,
    distance: Seq<i16>,
) -> bool {
    forall|x: int|
        0 <= x <= u_size && #[trigger] distance[x] != HK_INFINITY ==> {
            ||| (x >= 1 && pair_uv[x] == 0 && distance[x] == 0)
            ||| exists|y: int, k: int|
                1 <= y <= u_size && #[trigger] reached_from(
                    adjacency,
                    pair_vu,
                    distance,
                    x,
                    y,
                    k,
                )
        }
}

/// The vertices with a finite distance are closed under alternating steps.
spec fn closed(
    adjacency: Seq<Vec<i16>>,
    u_size: int,
    pair_uv: Seq<i16>,
    pair_vu: Seq<i16>,
    distance: Seq<i16>,
) -> bool {
    &&& forall|u: int|
        1 <= u <= u_size && #[trigger] pair_uv[u] == 0 ==> distance[u] != HK_INFINITY
    &&& forall|u: int, k: int|
        #![trigger adjacency[u]@[k]]
        1 <= u <= u_size && distance[u] != HK_INFINITY && 0 <= k < adjacency[u]@.len()
            ==> distance[pair_vu[adjacency[u]@[k] as int] as int] != HK_INFINITY
}

proof fn lemma_root(
    adjacency: Seq<Vec<i16>>,
    u_size: int,
    pair_uv: Seq<i16>,
    pair_vu: Seq<i16>,
    distance: Seq<i16>,
    x: int,
) -> (r: int)
    requires
        rooted(adjacency, u_size, pair_uv, pair_vu, distance),
        forall|y: int| 0 <= y <= u_size ==> 0 <= #[trigger] distance[y],
        0 <= x <= u_size,
        distance[x] != HK_INFINITY,
        augmentable(adjacency, pair_vu, distance, x),
    ensures
        1 <= r <= u_size,
        pair_uv[r] == 0,
        augmentable(adjacency, pair_vu, distance, r),
    decreases distance[x],
{
    if x >= 1 && pair_uv[x] == 0 && distance[x] == 0 {
        x
    } else {
        let (y, k) = choose|y: int, k: int|
            1 <= y <= u_size && #[trigger] reached_from(
                adjacency,
                pair_vu,
                distance,
                x,
                y,
                k,
            );
        assert(layer_step(adjacency, pair_vu, distance, y, k));
        lemma_root(adjacency, u_size, pair_uv, pair_vu, distance, y)
    }
}

proof fn lemma_short_queue(queue: Seq<i16>, n: int)
    requires
        n >= 0,
        queue.no_duplicates(),
        forall|p: int| 0 <= p < queue.len() ==> 1 <= #[trigger] queue[p] <= n,
    ensures
        queue.len() <= n,
{
    let wide = queue.map_values(|x: i16| x as int);
    assert(wide.no_duplicates());
    wide.unique_seq_to_set();
    vstd::set_lib::lemma_int_range(1, n + 1);
    assert(wide.to_set().subset_of(vstd::set_lib::set_int_range(1, n + 1)));
    vstd::set_lib::lemma_len_subset(wide.to_set(), vstd::set_lib::set_int_range(1, n + 1));
}

/// What holds of the queue while the layers are built.
spec fn queue_inv(
    u_size: int,
    pair_uv: Seq<i16>,
    distance: Seq<i16>,
    queue: Seq<i16>,
) -> bool {
    &&& distance.len() == u_size + 1
    &&& queue.no_duplicates()
    &&& forall|x: int| 0 <= x <= u_size ==> 0 <= #[trigger] distance[x]
    &&& forall|p: int|
        0 <= p < queue.len() ==> {
            &&& 0 <= #[trigger] queue[p] <= u_size
            &&& distance[queue[p] as int] != HK_INFINITY
            &&& distance[queue[p] as int] <= p
        }
    &&& forall|x: int|
        0 <= x <= u_size && #[trigger] distance[x] != HK_INFINITY ==> queue.contains(x as i16)
    &&& forall|x: int| 1 <= x <= u_size && #[trigger] pair_uv[x] == 0 ==> distance[x] != HK_INFINITY
}

proof fn lemma_queue_bound(queue: Seq<i16>, n: int)
    requires
        n >= 0,
        queue.no_duplicates(),
        forall|p: int| 0 <= p < queue.len() ==> 0 <= #[trigger] queue[p] <= n,
    ensures
        queue.len() <= n + 1,
{
    let wide = queue.map_values(|x: i16| x as int);
    assert(wide.no_duplicates());
    wide.unique_seq_to_set();
    vstd::set_lib::lemma_int_range(0, n + 1);
    assert(wide.to_set().subset_of(vstd::set_lib::set_int_range(0, n + 1)));
    vstd::set_lib::lemma_len_subset(wide.to_set(), vstd::set_lib::set_int_range(0, n + 1));
}

proof fn lemma_layer_added(
    adjacency: Seq<Vec<i16>>,
    u_size: int,
    pair_uv: Seq<i16>,
    pair_vu: Seq<i16>,
    d0: Seq<i16>,
    d1: Seq<i16>,
    q0: Seq<i16>,
    q1: Seq<i16>,
    u: int,
    k: int,
    pos: int,
)
    requires
        1 <= u <= u_size < i16::MAX,
        0 <= k < adjacency[u]@.len(),
        queue_inv(u_size, pair_uv, d0, q0),
        rooted(adjacency, u_size, pair_uv, pair_vu, d0),
        0 <= pos < q0.len(),
        q0[pos] == u,
        ({
            let x = pair_vu[adjacency[u]@[k] as int] as int;
            &&& 0 <= x <= u_size
            &&& d0[x] == HK_INFINITY
            &&& d0[u] + 1 < HK_INFINITY
            &&& d1 == d0.update(x, (d0[u] + 1) as i16)
            &&& q1 == q0.push(x as i16)
        }),
    ensures
        queue_inv(u_size, pair_uv, d1, q1),
        rooted(adjacency, u_size, pair_uv, pair_vu, d1),
{
    let x = pair_vu[adjacency[u]@[k] as int] as int;
    assert(q1.no_duplicates());
    assert forall|y: int| 0 <= y <= u_size && #[trigger] d1[y] != HK_INFINITY implies q1.contains(
        y as i16,
    ) by {
        if y == x {
            assert(q1[q0.len() as int] == x as i16);
        } else {
            assert(d0[y] != HK_INFINITY);
            let p = choose|p: int| 0 <= p < q0.len() && q0[p] == y as i16;
            assert(q1[p] == y as i16);
        }
    }
    assert(d0[u] <= pos);
    assert forall|z: int| 0 <= z <= u_size && #[trigger] d1[z] != HK_INFINITY implies {
        ||| (z >= 1 && pair_uv[z] == 0 && d1[z] == 0)
        ||| exists|y: int, i: int|
            1 <= y <= u_size && #[trigger] reached_from(adjacency, pair_vu, d1, z, y, i)
    } by {
        if z == x {
            assert(reached_from(adjacency, pair_vu, d1, z, u, k));
        } else {
            assert(d0[z] != HK_INFINITY);
            if !(z >= 1 && pair_uv[z] == 0 && d0[z] == 0) {
                let (y, i) = choose|y: int, i: int|
                    1 <= y <= u_size && #[trigger] reached_from(
                        adjacency,
                        pair_vu,
                        d0,
                        z,
                        y,
                        i,
                    );
                assert(reached_from(adjacency, pair_vu, d1, z, y, i));
            }
        }
    }
}

/// Computes for each left-hand vertex how many alternating steps it is away
/// from the nearest unmatched one.
fn build_layers(
    u_size: usize,
    adjacency: &[Vec<i16>],
    pair_uv: &Vec<i16>,
    pair_vu: &Vec<i16>,
    distance: &mut Vec<i16>,
)
    requires
        is_graph(adjacency@, u_size as int, pair_vu@.len() - 1),
        is_matching(adjacency@, u_size as int, pair_vu@.len() - 1, pair_uv@, pair_vu@),
        old(distance)@.len() == u_size + 1,
    ensures
        final(distance)@.len() == u_size + 1,
        final(distance)@[0] == HK_INFINITY ==> closed(
            adjacency@,
            u_size as int,
            pair_uv@,
            pair_vu@,
            final(distance)@,
        ),
        final(distance)@[0] != HK_INFINITY ==> exists|r: int|
            1 <= r <= u_size && pair_uv@[r] == 0 && #[trigger] augmentable(
                adjacency@,
                pair_vu@,
                final(distance)@,
                r,
            ),
{
    let mut queue: Vec<i16> = Vec::new();
    distance.set(0, HK_INFINITY);
    let mut u: usize = 1;
    while u <= u_size
        invariant
            1 <= u <= u_size + 1,
            u_size < i16::MAX,
            is_matching(adjacency@, u_size as int, pair_vu@.len() - 1, pair_uv@, pair_vu@),
            distance@.len() == u_size + 1,
            distance@[0] == HK_INFINITY,
            queue@.no_duplicates(),
            forall|x: int|
                1 <= x < u ==> #[trigger] distance@[x] == (if pair_uv@[x] == 0 {
                    0i16
                } else {
                    HK_INFINITY
                }),
            forall|p: int|
                0 <= p < queue@.len() ==> 1 <= #[trigger] queue@[p] < u
                    && pair_uv@[queue@[p] as int] == 0,
            forall|x: int|
                1 <= x < u && #[trigger] pair_uv@[x] == 0 ==> queue@.contains(x as i16),
        decreases u_size + 1 - u,
    {
        let ghost q0 = queue@;
        if pair_uv[u] == 0 {
            distance.set(u, 0);
            queue.push(u as i16);
            proof {
                assert(queue@[q0.len() as int] == u as i16);
                assert forall|x: int| 1 <= x < u + 1 && #[trigger] pair_uv@[x] == 0 implies queue@.contains(
                x as i16) by {
                    if x < u {
                        let p = choose|p: int| 0 <= p < q0.len() && q0[p] == x as i16;
                        assert(queue@[p] == x as i16);
                    }
                }
            }
        } else {
            distance.set(u, HK_INFINITY);
        }
        u = u + 1;
    }
    assert(queue_inv(u_size as int, pair_uv@, distance@, queue@));
    assert(rooted(adjacency@, u_size as int, pair_uv@, pair_vu@, distance@));
    let mut qtail: usize = 0;
    while qtail < queue.len()
        invariant
            u_size < i16::MAX,
            qtail <= queue@.len(),
            is_graph(adjacency@, u_size as int, pair_vu@.len() - 1),
            is_matching(adjacency@, u_size as int, pair_vu@.len() - 1, pair_uv@, pair_vu@),
            queue_inv(u_size as int, pair_uv@, distance@, queue@),
            rooted(adjacency@, u_size as int, pair_uv@, pair_vu@, distance@),
            distance@[0] == HK_INFINITY ==> forall|p: int, k: int|
                #![trigger adjacency@[queue@[p] as int]@[k]]
                0 <= p < qtail && 0 <= k < adjacency@[queue@[p] as int]@.len()
                    ==> distance@[pair_vu@[adjacency@[queue@[p] as int]@[k] as int] as int]
                    != HK_INFINITY,
        decreases u_size + 1 - qtail,
    {
        let u: usize = queue[qtail] as usize;
        let ghost pos = qtail as int;
        qtail = qtail + 1;
        if distance[u] < distance[0] {
            let mut idx: usize = 0;
            while idx < adjacency[u].len()
                invariant
                    u_size < i16::MAX,
                    1 <= u <= u_size,
                    qtail == pos + 1,
                    0 <= pos < queue@.len(),
                    queue@[pos] == u,
                    idx <= adjacency@[u as int]@.len(),
                    is_graph(adjacency@, u_size as int, pair_vu@.len() - 1),
                    is_matching(adjacency@, u_size as int, pair_vu@.len() - 1, pair_uv@, pair_vu@),
                    queue_inv(u_size as int, pair_uv@, distance@, queue@),
                    rooted(adjacency@, u_size as int, pair_uv@, pair_vu@, distance@),
                    distance@[u as int] < distance@[0],
                    distance@[0] == HK_INFINITY ==> forall|p: int, k: int|
                        #![trigger adjacency@[queue@[p] as int]@[k]]
                        0 <= p < pos && 0 <= k < adjacency@[queue@[p] as int]@.len()
                            ==> distance@[pair_vu@[adjacency@[queue@[p] as int]@[k] as int] as int]
                            != HK_INFINITY,
                    forall|k: int|
                        0 <= k < idx ==> distance@[pair_vu@[#[trigger] adjacency@[u as int]@[k] as int] as int]
                            != HK_INFINITY,
                decreases adjacency@[u as int]@.len() - idx,
            {
                let v: usize = adjacency[u][idx] as usize;
                let u_next: usize = pair_vu[v] as usize;
                assert(0 <= u_next <= u_size);
                if distance[u_next] == HK_INFINITY {
                    let ghost d0 = distance@;
                    let ghost q0 = queue@;
                    proof {
                        if distance@[0] == HK_INFINITY {
                            assert forall|p: int| 0 <= p < queue@.len() implies 1
                                <= #[trigger] queue@[p] <= u_size by {}
                            lemma_short_queue(queue@, u_size as int);
                        }
                    }
                    distance.set(u_next, 1 + distance[u]);
                    queue.push(u_next as i16);
                    proof {
                        lemma_layer_added(
                            adjacency@,
                            u_size as int,
                            pair_uv@,
                            pair_vu@,
                            d0,
                            distance@,
                            q0,
                            queue@,
                            u as int,
                            idx as int,
                            pos,
                        );
                    }
                }
                idx = idx + 1;
            }
        }
        proof {
            lemma_queue_bound(queue@, u_size as int);
        }
    }
    proof {
        if distance@[0] == HK_INFINITY {
            assert forall|x: int, k: int|
                #![trigger adjacency@[x]@[k]]
                1 <= x <= u_size && distance@[x] != HK_INFINITY && 0 <= k
                    < adjacency@[x]@.len() implies distance@[pair_vu@[adjacency@[x]@[k] as int] as int]
                != HK_INFINITY by {
                let p = choose|p: int| 0 <= p < queue@.len() && queue@[p] == x as i16;
                assert(adjacency@[queue@[p] as int]@[k] == adjacency@[x]@[k]);
            }
        } else {
            assert(augmentable(adjacency@, pair_vu@, distance@, 0));
            let r = lemma_root(adjacency@, u_size as int, pair_uv@, pair_vu@, distance@, 0);
        }
    }
}

/// The unmatched left-hand vertices.
spec fn unmatched(pair_uv: Seq<i16>) -> Set<int> {
    vstd::set_lib::set_int_range(1, pair_uv.len() as int).difference(matched(pair_uv))
}

proof fn lemma_unmatched_shrinks(before: Seq<i16>, after: Seq<i16>, u: int)
    requires
        before.len() == after.len(),
        1 <= u < before.len(),
        before[u] == 0,
        after[u] != 0,
        forall|x: int| 1 <= x < before.len() && before[x] != 0 ==> #[trigger] after[x] != 0,
    ensures
        unmatched(after).len() < unmatched(before).len(),
{
    vstd::set_lib::lemma_int_range(1, before.len() as int);
    let range = vstd::set_lib::set_int_range(1, before.len() as int);
    assert(unmatched(before).subset_of(range));
    vstd::set_lib::lemma_len_subset(unmatched(before), range);
    assert(unmatched(before).contains(u));
    assert(unmatched(after).subset_of(unmatched(before).remove(u)));
    vstd::set_lib::lemma_len_subset(unmatched(after), unmatched(before).remove(u));
}

/// Where the reached vertices are closed under alternating steps and no
/// unmatched right-hand vertex is among the neighbours, no matching is larger.
proof fn lemma_closed_is_maximum(
    adjacency: Seq<Vec<i16>>,
    u_size: int,
    v_size: int,
    pair_uv: Seq<i16>,
    pair_vu: Seq<i16>,
    distance: Seq<i16>,
    other_uv: Seq<i16>,
    other_vu: Seq<i16>,
)
    requires
        is_graph(adjacency, u_size, v_size),
        is_matching(adjacency, u_size, v_size, pair_uv, pair_vu),
        is_matching(adjacency, u_size, v_size, other_uv, other_vu),
        distance[0] == HK_INFINITY,
        closed(adjacency, u_size, pair_uv, pair_vu, distance),
    ensures
        matched(other_uv).len() <= matched(pair_uv).len(),
{
    let f = |u: int|
        if distance[u] != HK_INFINITY {
            pair_vu[other_uv[u] as int] as int
        } else {
            u
        };
    let theirs = matched(other_uv);
    let ours = matched(pair_uv);
    let range = vstd::set_lib::set_int_range(1, u_size + 1);
    vstd::set_lib::lemma_int_range(1, u_size + 1);
    assert(theirs.subset_of(range));
    assert(ours.subset_of(range));
    vstd::set_lib::lemma_len_subset(theirs, range);
    vstd::set_lib::lemma_len_subset(ours, range);
    assert forall|u: int| theirs.contains(u) implies {
        let w = #[trigger] f(u);
        &&& ours.contains(w)
        &&& (distance[w] != HK_INFINITY) == (distance[u] != HK_INFINITY)
        &&& distance[u] != HK_INFINITY ==> pair_uv[w] == other_uv[u]
    } by {
        let v = other_uv[u] as int;
        assert(is_edge(adjacency, u, v));
        if distance[u] != HK_INFINITY {
            let k = choose|k: int| 0 <= k < adjacency[u]@.len() && adjacency[u]@[k] == v as i16;
            assert(adjacency[u]@[k] == v);
            assert(distance[pair_vu[v] as int] != HK_INFINITY);
            assert(pair_vu[v] != 0);
        }
    }
    let image = theirs.map(f);
    assert(vstd::relations::injective_on(f, theirs)) by {
        assert forall|a: int, b: int|
            theirs.contains(a) && theirs.contains(b) && #[trigger] f(a) == #[trigger] f(b) implies a
            == b by {
            if distance[a] != HK_INFINITY {
                assert(other_uv[a] == other_uv[b]);
                assert(other_vu[other_uv[a] as int] == a);
                assert(other_vu[other_uv[b] as int] == b);
            }
        }
    }
    vstd::set_lib::lemma_map_size(theirs, image, f);
    assert(image.subset_of(ours));
    vstd::set_lib::lemma_len_subset(image, ours);
}

/// Finds a matching of the greatest possible size in the bipartite graph with
/// `u_size` left-hand and `v_size` right-hand vertices, and returns for each
/// left-hand vertex its partner and for each right-hand one its partner.
pub fn bipartite_match(u_size: usize, v_size: usize, adjacency: &[Vec<i16>]) -> (pairs: (
    Vec<i16>,
    Vec<i16>,
))
    requires
        is_graph(adjacency@, u_size as int, v_size as int),
    ensures
        is_matching(adjacency@, u_size as int, v_size as int, pairs.0@, pairs.1@),
        forall|other_uv: Seq<i16>, other_vu: Seq<i16>| #[trigger]
            is_matching(adjacency@, u_size as int, v_size as int, other_uv, other_vu) ==> matched(
                other_uv,
            ).len() <= matched(pairs.0@).len(),
{
    let mut pair_uv: Vec<i16> = vec![0; u_size + 1];
    let mut pair_vu: Vec<i16> = vec![0; v_size + 1];
    let mut distance: Vec<i16> = vec![0; u_size + 1];
    loop
        invariant
            is_graph(adjacency@, u_size as int, v_size as int),
            is_matching(adjacency@, u_size as int, v_size as int, pair_uv@, pair_vu@),
            distance@.len() == u_size + 1,
        ensures
            distance@[0] == HK_INFINITY,
            closed(adjacency@, u_size as int, pair_uv@, pair_vu@, distance@),
        decreases unmatched(pair_uv@).len(),
    {
        build_layers(u_size, adjacency, &pair_uv, &pair_vu, &mut distance);
        if distance[0] == HK_INFINITY {
            break;
        }
        let ghost uv0 = pair_uv@;
        let ghost vu0 = pair_vu@;
        let ghost root = choose|r: int|
            1 <= r <= u_size && pair_uv@[r] == 0 && #[trigger] augmentable(
                adjacency@,
                pair_vu@,
                distance@,
                r,
            );
        let mut u: usize = 1;
        while u <= u_size
            invariant
                1 <= u <= u_size + 1,
                u_size < i16::MAX,
                is_graph(adjacency@, u_size as int, v_size as int),
                is_matching(adjacency@, u_size as int, v_size as int, pair_uv@, pair_vu@),
                distance@.len() == u_size + 1,
                uv0.len() == u_size + 1,
                1 <= root <= u_size,
                forall|x: int|
                    1 <= x <= u_size && uv0[x] != 0 ==> #[trigger] pair_uv@[x] != 0,
                pair_uv@ == uv0 && pair_vu@ == vu0 || unmatched(pair_uv@).len() < unmatched(
                    uv0,
                ).len(),
                pair_uv@ == uv0 ==> {
                    &&& pair_uv@[root] == 0
                    &&& augmentable(adjacency@, vu0, distance@, root)
                    &&& u <= root
                },
            decreases u_size + 1 - u,
        {
            if pair_uv[u] == 0 {
                let ghost uv1 = pair_uv@;
                let ghost d1 = distance@;
                let found = hk_depth_search(
                    adjacency,
                    &mut pair_uv,
                    &mut pair_vu,
                    &mut distance,
                    u,
                );
                proof {
                    if found {
                        assert(pair_vu@.update(0, 0) =~= pair_vu@);
                        assert(uv0[u as int] == 0);
                        assert(unmatched(pair_uv@).len() < unmatched(uv0).len()) by {
                            lemma_unmatched_shrinks(uv0, pair_uv@, u as int);
                        }
                    } else if pair_uv@ == uv0 {
                        lemma_augmentable_kept(adjacency@, vu0, d1, distance@, root);
                    }
                }
            }
            u = u + 1;
        }
    }
    proof {
        assert forall|other_uv: Seq<i16>, other_vu: Seq<i16>| #[trigger]
            is_matching(
                adjacency@,
                u_size as int,
                v_size as int,
                other_uv,
                other_vu,
            ) implies matched(other_uv).len() <= matched(pair_uv@).len() by {
            lemma_closed_is_maximum(
                adjacency@,
                u_size as int,
                v_size as int,
                pair_uv@,
                pair_vu@,
                distance@,
                other_uv,
                other_vu,
            );
        }
    }
    (pair_uv, pair_vu)
}

} // verus!
