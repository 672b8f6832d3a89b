//! Orders that can be had in only one way: a stable sort by key, a ranking by
//! score, and a list of distinct numbers in ascending order.
use vstd::prelude::*;

verus! {

/// A sort key: a rank, and a text that decides between equal ranks.
pub struct SortKey {
    pub rank: u64,
    pub text: Vec<char>,
}

/// A sort key as mathematical values.
pub struct KeyView {
    pub rank: u64,
    pub text: Seq<char>,
}

impl View for SortKey {
    type V = KeyView;

    open spec fn view(&self) -> KeyView {
        KeyView { rank: self.rank, text: self.text@ }
    }
}

/// Whether `a` comes before `b` at position `at`, where they first differ or
/// where `a` ends.
pub open spec fn parts_at(a: Seq<char>, b: Seq<char>, at: int) -> bool {
    &&& 0 <= at <= a.len()
    &&& at < b.len()
    &&& forall|k: int| 0 <= k < at ==> a[k] == b[k]
    &&& at < a.len() ==> a[at] < b[at]
}

/// The order of texts by their characters' code points, which is the order of
/// their UTF-8 bytes.
pub open spec fn text_less(a: Seq<char>, b: Seq<char>) -> bool {
    exists|at: int| parts_at(a, b, at)
}

/// Whether the item at `i` comes before the item at `j`: by rank, then by
/// text, then by position.
pub open spec fn precedes(keys: Seq<KeyView>, i: int, j: int) -> bool {
    ||| keys[i].rank < keys[j].rank
    ||| keys[i].rank == keys[j].rank && text_less(keys[i].text, keys[j].text)
    ||| keys[i].rank == keys[j].rank && keys[i].text == keys[j].text && i < j
}

/// The positions `from..to`, each once, in the order of their keys.
pub open spec fn is_order(keys: Seq<KeyView>, order: Seq<usize>, from: int, to: int) -> bool {
    &&& order.len() == to - from
    &&& forall|k: int| 0 <= k < order.len() ==> from <= #[trigger] order[k] < to
    &&& forall|a: int, b: int|
        0 <= a < b < order.len() ==> precedes(keys, order[a] as int, order[b] as int)
}

proof fn lemma_text_less_transitive(a: Seq<char>, b: Seq<char>, c: Seq<char>)
    requires
        text_less(a, b),
        text_less(b, c),
    ensures
        text_less(a, c),
{
    let x = choose|at: int| parts_at(a, b, at);
    let y = choose|at: int| parts_at(b, c, at);
    if x <= y {
        assert(parts_at(a, c, x));
    } else {
        assert(parts_at(a, c, y));
    }
}

proof fn lemma_text_less_irreflexive(a: Seq<char>)
    ensures
        !text_less(a, a),
{
}

proof fn lemma_precedes_transitive(keys: Seq<KeyView>, i: int, j: int, k: int)
    requires
        precedes(keys, i, j),
        precedes(keys, j, k),
    ensures
        precedes(keys, i, k),
{
    if text_less(keys[i].text, keys[j].text) && text_less(keys[j].text, keys[k].text) {
        lemma_text_less_transitive(keys[i].text, keys[j].text, keys[k].text);
    }
}

/// No item comes before itself, so no two orders put the same two items both
/// ways round.
pub proof fn lemma_precedes_asymmetric(keys: Seq<KeyView>, i: int, j: int)
    requires
        precedes(keys, i, j),
    ensures
        !precedes(keys, j, i),
{
    if precedes(keys, j, i) {
        lemma_precedes_transitive(keys, i, j, i);
        lemma_text_less_irreflexive(keys[i].text);
    }
}

enum Side {
    Less,
    Same,
    More,
}

fn side_of(a: &Vec<char>, b: &Vec<char>) -> (side: Side)
    ensures
        match side {
            Side::Less => text_less(a@, b@),
            Side::Same => a@ == b@,
            Side::More => text_less(b@, a@),
        },
{
    let mut i: usize = 0;
    while i < a.len() && i < b.len()
        invariant
            i <= a@.len(),
            i <= b@.len(),
            forall|k: int| 0 <= k < i ==> a@[k] == b@[k],
        decreases a@.len() - i,
    {
        let x = a[i];
        let y = b[i];
        if x < y {
            assert(parts_at(a@, b@, i as int));
            return Side::Less;
        }
        if y < x {
            assert(parts_at(b@, a@, i as int));
            return Side::More;
        }
        i += 1;
    }
    if i < b.len() {
        assert(parts_at(a@, b@, i as int));
        Side::Less
    } else if i < a.len() {
        assert(parts_at(b@, a@, i as int));
        Side::More
    } else {
        assert(a@ =~= b@);
        Side::Same
    }
}

/// Whether the item at `i` comes before the later item at `j`; if not, the
/// later one comes first.
fn comes_first(keys: &Vec<SortKey>, i: usize, j: usize) -> (first: bool)
    requires
        i < j < keys@.len(),
    ensures
        first ==> precedes(crate::text::views(keys@), i as int, j as int),
        !first ==> precedes(crate::text::views(keys@), j as int, i as int),
{
    if keys[i].rank < keys[j].rank {
        true
    } else if keys[j].rank < keys[i].rank {
        false
    } else {
        match side_of(&keys[i].text, &keys[j].text) {
            Side::More => false,
            _ => true,
        }
    }
}

fn merge(
    keys: &Vec<SortKey>,
    left: &Vec<usize>,
    right: &Vec<usize>,
    from: usize,
    middle: usize,
    to: usize,
) -> (order: Vec<usize>)
    requires
        from <= middle <= to <= keys@.len(),
        is_order(crate::text::views(keys@), left@, from as int, middle as int),
        is_order(crate::text::views(keys@), right@, middle as int, to as int),
    ensures
        is_order(crate::text::views(keys@), order@, from as int, to as int),
{
    let ghost views = crate::text::views(keys@);
    let mut order: Vec<usize> = Vec::new();
    let mut a: usize = 0;
    let mut b: usize = 0;
    while a < left.len() || b < right.len()
        invariant
            from <= middle <= to <= keys@.len(),
            views == crate::text::views(keys@),
            is_order(views, left@, from as int, middle as int),
            is_order(views, right@, middle as int, to as int),
            a <= left@.len(),
            b <= right@.len(),
            order@.len() == a + b,
            forall|k: int| 0 <= k < order@.len() ==> from <= #[trigger] order@[k] < to,
            forall|x: int, y: int|
                0 <= x < y < order@.len() ==> precedes(views, order@[x] as int, order@[y] as int),
            forall|x: int, y: int|
                0 <= x < order@.len() && a <= y < left@.len() ==> precedes(
                    views,
                    order@[x] as int,
                    left@[y] as int,
                ),
            forall|x: int, y: int|
                0 <= x < order@.len() && b <= y < right@.len() ==> precedes(
                    views,
                    order@[x] as int,
                    right@[y] as int,
                ),
        decreases left@.len() - a + right@.len() - b,
    {
        let take_left = if a == left.len() {
            false
        } else if b == right.len() {
            true
        } else {
            comes_first(keys, left[a], right[b])
        };
        let ghost before = order@;
        if take_left {
            proof {
                assert forall|y: int| b <= y < right@.len() implies precedes(
                    views,
                    left@[a as int] as int,
                    right@[y] as int,
                ) by {
                    if y > b {
                        lemma_precedes_transitive(
                            views,
                            left@[a as int] as int,
                            right@[b as int] as int,
                            right@[y] as int,
                        );
                    }
                }
            }
            order.push(left[a]);
            a += 1;
        } else {
            proof {
                assert forall|y: int| a <= y < left@.len() implies precedes(
                    views,
                    right@[b as int] as int,
                    left@[y] as int,
                ) by {
                    if y > a {
                        lemma_precedes_transitive(
                            views,
                            right@[b as int] as int,
                            left@[a as int] as int,
                            left@[y] as int,
                        );
                    }
                }
            }
            order.push(right[b]);
            b += 1;
        }
    }
    order
}

fn order_range(keys: &Vec<SortKey>, from: usize, to: usize) -> (order: Vec<usize>)
    requires
        from <= to <= keys@.len(),
    ensures
        is_order(crate::text::views(keys@), order@, from as int, to as int),
    decreases to - from,
{
    let mut order: Vec<usize> = Vec::new();
    if from == to {
        return order;
    }
    if to - from == 1 {
        order.push(from);
        return order;
    }
    let middle: usize = from + (to - from) / 2;
    let left = order_range(keys, from, middle);
    let right = order_range(keys, middle, to);
    merge(keys, &left, &right, from, middle, to)
}

/// The positions of the keys, sorted by key, equal keys in their given order.
pub fn stable_order(keys: &Vec<SortKey>) -> (order: Vec<usize>)
    ensures
        is_order(crate::text::views(keys@), order@, 0, keys@.len() as int),
{
    order_range(keys, 0, keys.len())
}

/// Every position stands in an order of all of them.
pub proof fn lemma_order_complete(keys: Seq<KeyView>, order: Seq<usize>, at: int)
    requires
        is_order(keys, order, 0, keys.len() as int),
        0 <= at < keys.len(),
    ensures
        order.contains(at as usize),
{
    let n = keys.len();
    assert(order.no_duplicates()) by {
        assert forall|a: int, b: int|
            0 <= a < order.len() && 0 <= b < order.len() && a != b implies order[a] != order[b] by {
            if a < b {
                lemma_precedes_asymmetric(keys, order[a] as int, order[b] as int);
            } else {
                lemma_precedes_asymmetric(keys, order[b] as int, order[a] as int);
            }
        }
    }
    if !order.contains(at as usize) {
        let ints = order.map_values(|x: usize| x as int);
        assert(ints.no_duplicates());
        assert(!ints.contains(at)) by {
            if ints.contains(at) {
                let k = ints.index_of(at);
                assert(order[k] == at as usize);
            }
        }
        let all = vstd::set_lib::set_int_range(0, n as int);
        vstd::set_lib::lemma_int_range(0, n as int);
        ints.unique_seq_to_set();
        assert(ints.to_set().subset_of(all.remove(at))) by {
            assert forall|x: int| ints.to_set().contains(x) implies all.remove(at).contains(x) by {
                let k = ints.index_of(x);
                assert(order[k] as int == x);
            }
        }
        vstd::set_lib::lemma_len_subset(ints.to_set(), all.remove(at));
        assert(false);
    }
}

/// Of two texts that agree so far, one comes before the other or they are the
/// same.
proof fn lemma_texts_compare(a: Seq<char>, b: Seq<char>, at: int)
    requires
        0 <= at <= a.len(),
        at <= b.len(),
        forall|k: int| 0 <= k < at ==> a[k] == b[k],
    ensures
        a == b || text_less(a, b) || text_less(b, a),
    decreases a.len() - at,
{
    if at < a.len() && at < b.len() && a[at] == b[at] {
        lemma_texts_compare(a, b, at + 1);
    } else if at == a.len() && at == b.len() {
        assert(a =~= b);
    } else if at < b.len() && (at == a.len() || a[at] < b[at]) {
        assert(parts_at(a, b, at));
    } else {
        assert(parts_at(b, a, at));
    }
}

/// Of two items one comes before the other.
proof fn lemma_precedes_total(keys: Seq<KeyView>, i: int, j: int)
    requires
        i != j,
    ensures
        precedes(keys, i, j) || precedes(keys, j, i),
{
    lemma_texts_compare(keys[i].text, keys[j].text, 0);
}

/// The first place in an order that an item comes before, from `from` on.
proof fn lemma_place_in_order(keys: Seq<KeyView>, order: Seq<usize>, x: int, from: int) -> (at: int)
    requires
        0 <= from <= order.len(),
        forall|k: int| 0 <= k < from ==> !precedes(keys, x, #[trigger] order[k] as int),
    ensures
        from <= at <= order.len(),
        forall|k: int| 0 <= k < at ==> !precedes(keys, x, #[trigger] order[k] as int),
        at < order.len() ==> precedes(keys, x, order[at] as int),
    decreases order.len() - from,
{
    if from < order.len() && !precedes(keys, x, order[from] as int) {
        lemma_place_in_order(keys, order, x, from + 1)
    } else {
        from
    }
}

proof fn lemma_order_built(keys: Seq<KeyView>, count: nat) -> (order: Seq<usize>)
    requires
        count <= usize::MAX,
    ensures
        is_order(keys, order, 0, count as int),
    decreases count,
{
    if count == 0 {
        Seq::empty()
    } else {
        let before = lemma_order_built(keys, (count - 1) as nat);
        let x = count - 1;
        let at = lemma_place_in_order(keys, before, x, 0);
        let order = before.take(at).push(x as usize) + before.skip(at);
        assert forall|k: int| 0 <= k < order.len() implies 0 <= #[trigger] order[k] < count by {
            if k < at {
                assert(order[k] == before[k]);
            } else if k > at {
                assert(order[k] == before[k - 1]);
            }
        }
        assert forall|a: int, b: int| 0 <= a < b < order.len() implies precedes(
            keys,
            order[a] as int,
            order[b] as int,
        ) by {
            if b < at {
                assert(order[a] == before[a] && order[b] == before[b]);
            } else if b == at {
                assert(order[a] == before[a]);
                lemma_precedes_total(keys, before[a] as int, x);
            } else if a < at {
                assert(order[a] == before[a] && order[b] == before[b - 1]);
            } else if a == at {
                assert(order[b] == before[b - 1]);
                if b - 1 > at {
                    lemma_precedes_transitive(keys, x, before[at] as int, before[b - 1] as int);
                }
            } else {
                assert(order[a] == before[a - 1] && order[b] == before[b - 1]);
            }
        }
        order
    }
}

/// There always is an order.
pub proof fn lemma_order_holds(keys: Seq<KeyView>)
    requires
        keys.len() <= usize::MAX,
    ensures
        exists|order: Seq<usize>| is_order(keys, order, 0, keys.len() as int),
{
    let order = lemma_order_built(keys, keys.len());
    assert(is_order(keys, order, 0, keys.len() as int));
}

/// There is only one order.
pub proof fn lemma_order_unique(keys: Seq<KeyView>, a: Seq<usize>, b: Seq<usize>)
    requires
        is_order(keys, a, 0, keys.len() as int),
        is_order(keys, b, 0, keys.len() as int),
        keys.len() <= usize::MAX,
    ensures
        a == b,
{
    assert forall|k: int| 0 <= k < a.len() implies a[k] == b[k] by {
        lemma_order_agrees(keys, a, b, k);
    }
    assert(a =~= b);
}

proof fn lemma_order_agrees(keys: Seq<KeyView>, a: Seq<usize>, b: Seq<usize>, k: int)
    requires
        is_order(keys, a, 0, keys.len() as int),
        is_order(keys, b, 0, keys.len() as int),
        keys.len() <= usize::MAX,
        0 <= k < a.len(),
    ensures
        a[k] == b[k],
    decreases k,
{
    assert forall|j: int| 0 <= j < k implies a[j] == b[j] by {
        lemma_order_agrees(keys, a, b, j);
    }
    if a[k] != b[k] {
        // Each order has the other's item at `k` somewhere further on.
        lemma_order_complete(keys, a, b[k] as int);
        lemma_order_complete(keys, b, a[k] as int);
        let x = a.index_of(b[k]);
        let y = b.index_of(a[k]);
        if x < k {
            assert(a[x] == b[x] && precedes(keys, b[x] as int, b[k] as int));
            lemma_precedes_asymmetric(keys, b[k] as int, b[k] as int);
        }
        if y < k {
            assert(a[y] == b[y] && precedes(keys, a[y] as int, a[k] as int));
            lemma_precedes_asymmetric(keys, a[k] as int, a[k] as int);
        }
        assert(precedes(keys, a[k] as int, b[k] as int));
        assert(precedes(keys, b[k] as int, a[k] as int));
        lemma_precedes_asymmetric(keys, a[k] as int, b[k] as int);
    }
}


/// Whether the item at `i` ranks above the item at `j`: by score, and between
/// equal scores by position.
pub open spec fn outranks(scores: Seq<Option<u32>>, i: int, j: int) -> bool {
    ||| scores[i]->0 > scores[j]->0
    ||| scores[i]->0 == scores[j]->0 && i < j
}

/// The positions that have a score, each once, best first.
pub open spec fn is_ranking(scores: Seq<Option<u32>>, ranked: Seq<usize>) -> bool {
    &&& forall|k: int|
        0 <= k < ranked.len() ==> (#[trigger] ranked[k]) < scores.len() && scores[ranked[k] as int] is Some
    &&& forall|a: int, b: int|
        0 <= a < b < ranked.len() ==> outranks(scores, ranked[a] as int, ranked[b] as int)
    &&& forall|i: usize|
        i < scores.len() && scores[i as int] is Some ==> #[trigger] ranked.contains(i)
}

/// The positions that have a score, best first.
pub open spec fn ranking(scores: Seq<Option<u32>>) -> Seq<usize> {
    choose|ranked: Seq<usize>| is_ranking(scores, ranked)
}

proof fn lemma_ranking_distinct(scores: Seq<Option<u32>>, ranked: Seq<usize>)
    requires
        is_ranking(scores, ranked),
    ensures
        ranked.no_duplicates(),
{
    assert forall|a: int, b: int|
        0 <= a < ranked.len() && 0 <= b < ranked.len() && a != b implies ranked[a] != ranked[b] by {
        if a < b {
            assert(outranks(scores, ranked[a] as int, ranked[b] as int));
        } else {
            assert(outranks(scores, ranked[b] as int, ranked[a] as int));
        }
    }
}

proof fn lemma_rankings_agree(scores: Seq<Option<u32>>, a: Seq<usize>, b: Seq<usize>, k: int)
    requires
        is_ranking(scores, a),
        is_ranking(scores, b),
        0 <= k < a.len(),
        k < b.len(),
    ensures
        a[k] == b[k],
    decreases k,
{
    assert forall|j: int| 0 <= j < k implies a[j] == b[j] by {
        lemma_rankings_agree(scores, a, b, j);
    }
    if a[k] != b[k] {
        assert(a.contains(b[k]));
        assert(b.contains(a[k]));
        let x = a.index_of(b[k]);
        let y = b.index_of(a[k]);
        if x < k {
            assert(outranks(scores, b[x] as int, b[k] as int));
        } else if y < k {
            assert(outranks(scores, a[y] as int, a[k] as int));
        } else {
            assert(outranks(scores, a[k] as int, a[x] as int));
            assert(outranks(scores, b[k] as int, b[y] as int));
        }
    }
}

/// There is only one ranking.
pub proof fn lemma_ranking_unique(scores: Seq<Option<u32>>, ranked: Seq<usize>)
    requires
        is_ranking(scores, ranked),
    ensures
        ranked == ranking(scores),
{
    let other = ranking(scores);
    assert(is_ranking(scores, other));
    lemma_ranking_distinct(scores, ranked);
    lemma_ranking_distinct(scores, other);
    ranked.unique_seq_to_set();
    other.unique_seq_to_set();
    assert(ranked.to_set() =~= other.to_set()) by {
        assert forall|i: usize| ranked.contains(i) == other.contains(i) by {
            if ranked.contains(i) {
                let k = ranked.index_of(i);
                assert(ranked[k] == i);
                assert(other.contains(i));
            }
            if other.contains(i) {
                let k = other.index_of(i);
                assert(other[k] == i);
                assert(ranked.contains(i));
            }
        }
    }
    assert forall|k: int| 0 <= k < ranked.len() implies ranked[k] == other[k] by {
        lemma_rankings_agree(scores, ranked, other, k);
    }
    assert(ranked =~= other);
}

proof fn lemma_insert_place(scores: Seq<Option<u32>>, ranked: Seq<usize>, score: u32) -> (at: int)
    ensures
        0 <= at <= ranked.len(),
        forall|k: int| 0 <= k < at ==> scores[(#[trigger] ranked[k]) as int]->0 >= score,
        at < ranked.len() ==> scores[ranked[at] as int]->0 < score,
    decreases ranked.len(),
{
    if ranked.len() == 0 {
        0
    } else {
        let before = lemma_insert_place(scores, ranked.drop_last(), score);
        let front = ranked.drop_last();
        assert forall|k: int| 0 <= k < before implies scores[(#[trigger] ranked[k]) as int]->0
            >= score by {
            assert(front[k] == ranked[k]);
        }
        if before < front.len() {
            assert(front[before] == ranked[before]);
            before
        } else if scores[ranked.last() as int]->0 < score {
            before
        } else {
            ranked.len() as int
        }
    }
}

proof fn lemma_ranking_built(scores: Seq<Option<u32>>, count: nat) -> (ranked: Seq<usize>)
    requires
        count <= scores.len() <= usize::MAX,
    ensures
        is_ranking(scores.take(count as int), ranked),
    decreases count,
{
    let all = scores.take(count as int);
    if count == 0 {
        Seq::empty()
    } else {
        let fewer = scores.take(count - 1);
        let before = lemma_ranking_built(scores, (count - 1) as nat);
        let last = (count - 1) as usize;
        assert forall|i: int| 0 <= i < count - 1 implies fewer[i] == #[trigger] all[i] by {}
        assert forall|k: int| 0 <= k < before.len() implies (#[trigger] before[k]) < count - 1
            && all[before[k] as int] is Some by {
            assert(fewer[before[k] as int] == all[before[k] as int]);
        }
        assert forall|a: int, b: int| 0 <= a < b < before.len() implies outranks(
            all,
            before[a] as int,
            before[b] as int,
        ) by {
            assert(outranks(fewer, before[a] as int, before[b] as int));
            assert(fewer[before[a] as int] == all[before[a] as int]);
            assert(fewer[before[b] as int] == all[before[b] as int]);
        }
        if all[count - 1] is None {
            assert forall|i: usize| i < all.len() && all[i as int] is Some implies #[trigger] before.contains(
            i) by {
                assert(fewer[i as int] == all[i as int]);
            }
            before
        } else {
            let at = lemma_insert_place(all, before, all[count - 1]->0);
            let ranked = before.insert(at, last);
            assert forall|k: int| 0 <= k < ranked.len() implies (#[trigger] ranked[k]) < all.len()
                && all[ranked[k] as int] is Some by {
                if k < at {
                    assert(ranked[k] == before[k]);
                } else if k > at {
                    assert(ranked[k] == before[k - 1]);
                }
            }
            assert forall|a: int, b: int| 0 <= a < b < ranked.len() implies outranks(
                all,
                ranked[a] as int,
                ranked[b] as int,
            ) by {
                if b < at {
                    assert(ranked[a] == before[a] && ranked[b] == before[b]);
                } else if b == at {
                    assert(ranked[a] == before[a]);
                } else if a < at {
                    assert(ranked[a] == before[a] && ranked[b] == before[b - 1]);
                } else if a == at {
                    assert(ranked[b] == before[b - 1]);
                    if b - 1 > at {
                        assert(outranks(all, before[at] as int, before[b - 1] as int));
                    }
                } else {
                    assert(ranked[a] == before[a - 1] && ranked[b] == before[b - 1]);
                }
            }
            assert forall|i: usize| i < all.len() && all[i as int] is Some implies #[trigger] ranked.contains(
            i) by {
                if i == last {
                    assert(ranked[at] == last);
                } else {
                    assert(fewer[i as int] == all[i as int]);
                    assert(before.contains(i));
                    let k = before.index_of(i);
                    if k < at {
                        assert(ranked[k] == i);
                    } else {
                        assert(ranked[k + 1] == i);
                    }
                }
            }
            ranked
        }
    }
}

/// There always is a ranking.
pub proof fn lemma_ranking_holds(scores: Seq<Option<u32>>)
    requires
        scores.len() <= usize::MAX,
    ensures
        is_ranking(scores, ranking(scores)),
{
    let ranked = lemma_ranking_built(scores, scores.len());
    assert(scores.take(scores.len() as int) =~= scores);
    assert(is_ranking(scores, ranked));
}


/// The positions that have a score, best first.
pub fn rank(scores: &Vec<Option<u32>>) -> (ranked: Vec<usize>)
    ensures
        is_ranking(scores@, ranked@),
        ranked@ == ranking(scores@),
{
    let mut found: Vec<usize> = Vec::new();
    let mut keys: Vec<SortKey> = Vec::new();
    let mut i: usize = 0;
    while i < scores.len()
        invariant
            i <= scores@.len(),
            found@.len() == keys@.len(),
            forall|k: int|
                0 <= k < found@.len() ==> (#[trigger] found@[k]) < i && scores@[found@[k] as int] is Some
                    && keys@[k].rank == 0xffff_ffff - scores@[found@[k] as int]->0
                    && keys@[k].text@.len() == 0,
            forall|a: int, b: int| 0 <= a < b < found@.len() ==> found@[a] < found@[b],
            forall|j: usize|
                j < i && scores@[j as int] is Some ==> #[trigger] found@.contains(j),
        decreases scores@.len() - i,
    {
        let ghost before = found@;
        match scores[i] {
            Some(score) => {
                found.push(i);
                keys.push(SortKey { rank: 0xffff_ffffu64 - score as u64, text: Vec::new() });
                proof {
                    assert forall|j: usize| j < i + 1 && scores@[j as int] is Some implies
                        #[trigger] found@.contains(j) by {
                        if j < i {
                            assert(before.contains(j));
                            let k = before.index_of(j);
                            assert(found@[k] == j);
                        } else {
                            assert(found@[found@.len() - 1] == j);
                        }
                    }
                }
            },
            None => {},
        }
        i += 1;
    }
    let order = stable_order(&keys);
    let ghost views = crate::text::views(keys@);
    let mut ranked: Vec<usize> = Vec::new();
    let mut n: usize = 0;
    while n < order.len()
        invariant
            n <= order@.len(),
            order@.len() == found@.len(),
            forall|k: int| 0 <= k < order@.len() ==> (#[trigger] order@[k]) < found@.len(),
            ranked@.len() == n,
            forall|k: int| 0 <= k < n ==> #[trigger] ranked@[k] == found@[order@[k] as int],
        decreases order@.len() - n,
    {
        ranked.push(found[order[n]]);
        n += 1;
    }
    proof {
        assert forall|a: int, b: int| 0 <= a < b < ranked@.len() implies outranks(
            scores@,
            ranked@[a] as int,
            ranked@[b] as int,
        ) by {
            let x = order@[a] as int;
            let y = order@[b] as int;
            assert(precedes(views, x, y));
            assert(ranked@[a] == found@[x] && ranked@[b] == found@[y]);
            assert(views[x].text =~= views[y].text);
            lemma_text_less_irreflexive(views[x].text);
        }
        assert forall|j: usize| j < scores@.len() && scores@[j as int] is Some implies
            #[trigger] ranked@.contains(j) by {
            assert(found@.contains(j));
            let k = found@.index_of(j);
            lemma_order_complete(views, order@, k);
            let m = order@.index_of(k as usize);
            assert(ranked@[m] == j);
        }
        assert(is_ranking(scores@, ranked@));
        lemma_ranking_unique(scores@, ranked@);
    }
    ranked
}

/// An ascending list with `value` put in its place, unless it is there.
pub open spec fn inserted(values: Seq<u32>, value: u32) -> Seq<u32>
    decreases values.len(),
{
    if values.len() == 0 || values.last() < value {
        values.push(value)
    } else if values.last() == value {
        values
    } else {
        inserted(values.drop_last(), value).push(values.last())
    }
}

/// The distinct values of a list in ascending order.
pub open spec fn ascending(values: Seq<u32>) -> Seq<u32>
    decreases values.len(),
{
    if values.len() == 0 {
        values
    } else {
        inserted(ascending(values.drop_last()), values.last())
    }
}

/// Strictly ascending.
pub open spec fn is_ascending(values: Seq<u32>) -> bool {
    forall|i: int, j: int| 0 <= i < j < values.len() ==> values[i] < values[j]
}

proof fn lemma_inserted(values: Seq<u32>, value: u32)
    requires
        is_ascending(values),
    ensures
        is_ascending(inserted(values, value)),
        forall|x: u32| #[trigger]
            inserted(values, value).contains(x) <==> values.contains(x) || x == value,
    decreases values.len(),
{
    let out = inserted(values, value);
    if values.len() == 0 || values.last() < value {
        assert forall|x: u32| out.contains(x) <==> values.contains(x) || x == value by {
            if values.contains(x) {
                assert(out[values.index_of(x)] == x);
            }
            assert(out[values.len() as int] == value);
            if out.contains(x) {
                let k = out.index_of(x);
                if k < values.len() {
                    assert(values[k] == x);
                }
            }
        }
    } else if values.last() == value {
        assert(values[values.len() - 1] == value);
    } else {
        let init = values.drop_last();
        lemma_inserted(init, value);
        let inner = inserted(init, value);
        assert forall|x: u32| out.contains(x) <==> values.contains(x) || x == value by {
            if values.contains(x) || x == value {
                if x == values.last() {
                    assert(out[inner.len() as int] == x);
                } else {
                    if values.contains(x) {
                        let k = values.index_of(x);
                        assert(init[k] == x);
                        assert(init.contains(x));
                    }
                    assert(init.contains(x) || x == value);
                    assert(inner.contains(x));
                    assert(out[inner.index_of(x)] == x);
                }
            }
            if out.contains(x) {
                let k = out.index_of(x);
                if k < inner.len() {
                    assert(inner[k] == x);
                    assert(inner.contains(x));
                    if init.contains(x) {
                        assert(values[init.index_of(x)] == x);
                    }
                } else {
                    assert(values[values.len() - 1] == x);
                }
            }
        }
        assert forall|i: int, j: int| 0 <= i < j < out.len() implies out[i] < out[j] by {
            if j == inner.len() {
                assert(inner.contains(inner[i]));
                if init.contains(inner[i]) {
                    let k = init.index_of(inner[i]);
                    assert(values[k] < values[values.len() - 1]);
                }
            }
        }
    }
}

/// `ascending` sorts, drops repetitions and keeps every value.
pub proof fn lemma_ascending(values: Seq<u32>)
    ensures
        is_ascending(ascending(values)),
        forall|x: u32| ascending(values).contains(x) <==> values.contains(x),
    decreases values.len(),
{
    if values.len() > 0 {
        let init = values.drop_last();
        lemma_ascending(init);
        lemma_inserted(ascending(init), values.last());
        assert forall|x: u32| ascending(values).contains(x) <==> values.contains(x) by {
            if init.contains(x) {
                assert(values[init.index_of(x)] == x);
            }
            assert(values[values.len() - 1] == values.last());
            if values.contains(x) {
                let k = values.index_of(x);
                if k < init.len() {
                    assert(init[k] == x);
                }
            }
        }
    }
}

fn insert(values: Vec<u32>, value: u32) -> (out: Vec<u32>)
    ensures
        out@ == inserted(values@, value),
    decreases values@.len(),
{
    let mut values = values;
    match values.pop() {
        None => {
            values.push(value);
            values
        },
        Some(last) => {
            if last < value {
                values.push(last);
                values.push(value);
                values
            } else if last == value {
                values.push(last);
                values
            } else {
                let mut out = insert(values, value);
                out.push(last);
                out
            }
        },
    }
}

/// The distinct values of a list in ascending order.
pub fn distinct_ascending(values: &Vec<u32>) -> (out: Vec<u32>)
    ensures
        out@ == ascending(values@),
{
    let mut out: Vec<u32> = Vec::new();
    let mut i: usize = 0;
    while i < values.len()
        invariant
            i <= values@.len(),
            out@ == ascending(values@.take(i as int)),
        decreases values@.len() - i,
    {
        assert(values@.take(i + 1).drop_last() =~= values@.take(i as int));
        out = insert(out, values[i]);
        i += 1;
    }
    assert(values@.take(i as int) =~= values@);
    out
}

/// Texts are compared by the first character in which they differ; a text
/// comes before every longer one that starts with it, and never before itself.
pub proof fn texts_are_compared_by_their_first_difference(
    front: Seq<char>,
    one: char,
    two: char,
    a: Seq<char>,
    b: Seq<char>,
)
    ensures
        one < two ==> text_less(front + seq![one] + a, front + seq![two] + b),
        one > two ==> !text_less(front + seq![one] + a, front + seq![two] + b),
        text_less(front, front + seq![one] + a),
        !text_less(front + seq![one] + a, front),
        !text_less(front, front),
{
    let left = front + seq![one] + a;
    let right = front + seq![two] + b;
    let at = front.len() as int;
    assert(left[at] == one && right[at] == two);
    if one < two {
        assert(parts_at(left, right, at));
    }
    if one > two && text_less(left, right) {
        let k = choose|k: int| parts_at(left, right, k);
        if k < at {
            assert(left[k] == front[k] && right[k] == front[k]);
        } else if k > at {
            assert(left[at] == right[at]);
        }
    }
    assert(parts_at(front, left, at));
    if text_less(left, front) {
        let k = choose|k: int| parts_at(left, front, k);
        assert(left[k] == front[k]);
    }
    lemma_text_less_irreflexive(front);
}

/// A key of lower rank comes first; among equal ranks the lesser text, and
/// among equal keys the one that stood first.
pub proof fn keys_are_ordered_by_rank_text_and_place(keys: Seq<KeyView>, i: int, j: int)
    ensures
        keys[i].rank < keys[j].rank ==> precedes(keys, i, j) && !precedes(keys, j, i),
        keys[i].rank == keys[j].rank && text_less(keys[i].text, keys[j].text) ==> precedes(
            keys,
            i,
            j,
        ) && !precedes(keys, j, i),
        keys[i] == keys[j] ==> precedes(keys, i, j) == (i < j),
{
    lemma_text_less_irreflexive(keys[i].text);
    if keys[i].rank == keys[j].rank && text_less(keys[i].text, keys[j].text) {
        if text_less(keys[j].text, keys[i].text) {
            lemma_text_less_transitive(keys[i].text, keys[j].text, keys[i].text);
        }
    }
}

/// The order of keys holds every place once, and each before those that it
/// precedes.
pub proof fn an_order_holds_every_place_once(
    keys: Seq<KeyView>,
    order: Seq<usize>,
    at: int,
    a: int,
    b: int,
)
    requires
        is_order(keys, order, 0, keys.len() as int),
        keys.len() <= usize::MAX,
        0 <= at < keys.len(),
        0 <= a < b < order.len(),
    ensures
        order.len() == keys.len(),
        order.contains(at as usize),
        order[a] != order[b],
        !(keys[order[b] as int].rank < keys[order[a] as int].rank),
        keys[order[a] as int].rank == keys[order[b] as int].rank ==> !text_less(
            keys[order[b] as int].text,
            keys[order[a] as int].text,
        ),
        keys[order[a] as int] == keys[order[b] as int] ==> order[a] < order[b],
{
    lemma_order_complete(keys, order, at);
    assert(precedes(keys, order[a] as int, order[b] as int));
    lemma_precedes_asymmetric(keys, order[a] as int, order[b] as int);
    keys_are_ordered_by_rank_text_and_place(keys, order[b] as int, order[a] as int);
    keys_are_ordered_by_rank_text_and_place(keys, order[a] as int, order[b] as int);
}

/// A ranking holds each place that has a score once and no other; a higher
/// score comes first, and of equal ones the place that stood first.
pub proof fn a_ranking_puts_higher_scores_first(scores: Seq<Option<u32>>, at: int, a: int, b: int)
    requires
        scores.len() <= usize::MAX,
    ensures
        0 <= at < scores.len() ==> ranking(scores).contains(at as usize) == (scores[at] is Some),
        0 <= a < ranking(scores).len() ==> ranking(scores)[a] < scores.len(),
        0 <= a < b < ranking(scores).len() ==> {
            let one = ranking(scores)[a] as int;
            let two = ranking(scores)[b] as int;
            &&& one != two
            &&& scores[one]->0 >= scores[two]->0
            &&& scores[one]->0 == scores[two]->0 ==> one < two
        },
{
    lemma_ranking_holds(scores);
    let ranked = ranking(scores);
    if 0 <= at < scores.len() && ranked.contains(at as usize) {
        let k = ranked.index_of(at as usize);
        assert(ranked[k] == at as usize);
    }
    if 0 <= a < b < ranked.len() {
        assert(outranks(scores, ranked[a] as int, ranked[b] as int));
    }
}

/// Sorting numbers keeps each of them, once, in rising order.
pub proof fn sorted_numbers_rise(values: Seq<u32>, value: u32, a: int, b: int)
    ensures
        ascending(values).contains(value) == values.contains(value),
        0 <= a < b < ascending(values).len() ==> ascending(values)[a] < ascending(values)[b],
{
    lemma_ascending(values);
}

} // verus!
