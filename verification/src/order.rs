//! The order of a directory listing: directories first, then by name.
use vstd::prelude::*;

verus! {

/// What an entry is ordered by: whether it is a directory, and its name in lowercase.
pub struct SortKey {
    pub is_dir: bool,
    pub name: Vec<char>,
}

/// A `SortKey` in specifications.
pub struct SortKeyView {
    pub is_dir: bool,
    pub name: Seq<char>,
}

impl View for SortKey {
    type V = SortKeyView;

    open spec fn view(&self) -> SortKeyView {
        SortKeyView { is_dir: self.is_dir, name: self.name@ }
    }
}

/// Whether `a` stands before `b` in the alphabetical order of code points.
pub open spec fn lex_less(a: Seq<char>, b: Seq<char>) -> bool
    decreases a.len(),
{
    if b.len() == 0 {
        false
    } else if a.len() == 0 {
        true
    } else if a[0] != b[0] {
        (a[0] as int) < (b[0] as int)
    } else {
        lex_less(a.drop_first(), b.drop_first())
    }
}

/// Whether an entry with key `a` is listed before one with key `b`.
pub open spec fn key_less(a: SortKeyView, b: SortKeyView) -> bool {
    if a.is_dir != b.is_dir {
        a.is_dir
    } else {
        lex_less(a.name, b.name)
    }
}

/// Whether entry `i` is listed before entry `j`. Entries with equal keys keep their order.
pub open spec fn ranks_before(keys: Seq<SortKeyView>, i: int, j: int) -> bool {
    key_less(keys[i], keys[j]) || (!key_less(keys[j], keys[i]) && i < j)
}

/// Whether each index in `order` ranks before all that follow it.
pub open spec fn is_ranked(keys: Seq<SortKeyView>, order: Seq<int>) -> bool {
    forall|a: int, b: int|
        0 <= a < b < order.len() ==> #[trigger] ranks_before(keys, order[a], order[b])
}

/// Whether `order` holds each of `0..n` once.
pub open spec fn is_permutation(order: Seq<int>, n: nat) -> bool {
    &&& order.len() == n
    &&& order.no_duplicates()
    &&& forall|k: int| 0 <= k < n ==> 0 <= #[trigger] order[k] < n
}

/// Whether `order` lists the indices of `keys` as a stable sort by key does.
pub open spec fn is_stable_order(keys: Seq<SortKeyView>, order: Seq<int>) -> bool {
    is_permutation(order, keys.len()) && is_ranked(keys, order)
}

/// The indices of `keys` in the order in which a stable sort by key lists them.
pub open spec fn listing_order(keys: Seq<SortKeyView>) -> Seq<int> {
    Seq::new(keys.len(), |i: int| i).sort_by(ranks_no_later(keys))
}

/// `ranks_before`, or the same index.
pub open spec fn ranks_no_later(keys: Seq<SortKeyView>) -> spec_fn(int, int) -> bool {
    |i: int, j: int| i == j || ranks_before(keys, i, j)
}

/// The keys as specifications see them.
pub open spec fn key_views(keys: Seq<SortKey>) -> Seq<SortKeyView> {
    keys.map_values(|key: SortKey| key@)
}

/// A list of indices as specifications see it.
pub open spec fn indices(order: Seq<usize>) -> Seq<int> {
    order.map_values(|i: usize| i as int)
}

proof fn lemma_lex_less_asymmetric(a: Seq<char>, b: Seq<char>)
    ensures
        lex_less(a, b) ==> !lex_less(b, a),
        !lex_less(a, a),
    decreases a.len(),
{
    if a.len() > 0 {
        lemma_lex_less_asymmetric(a.drop_first(), a.drop_first());
        if b.len() > 0 {
            lemma_lex_less_asymmetric(a.drop_first(), b.drop_first());
        }
    }
}

proof fn lemma_lex_less_total(a: Seq<char>, b: Seq<char>)
    ensures
        a == b || lex_less(a, b) || lex_less(b, a),
    decreases a.len(),
{
    if a.len() > 0 && b.len() > 0 {
        lemma_lex_less_total(a.drop_first(), b.drop_first());
        if a[0] == b[0] && a.drop_first() == b.drop_first() {
            assert(a =~= seq![a[0]] + a.drop_first());
            assert(b =~= seq![b[0]] + b.drop_first());
        }
    } else if a.len() == 0 && b.len() == 0 {
        assert(a =~= b);
    }
}

proof fn lemma_lex_less_transitive(a: Seq<char>, b: Seq<char>, c: Seq<char>)
    requires
        lex_less(a, b),
        lex_less(b, c),
    ensures
        lex_less(a, c),
    decreases a.len(),
{
    if a.len() > 0 && a[0] == b[0] && b[0] == c[0] {
        lemma_lex_less_transitive(a.drop_first(), b.drop_first(), c.drop_first());
    }
}

/// The alphabetical order is a strict order, under which any two texts are comparable.
pub proof fn law_lex_less_is_total_order(a: Seq<char>, b: Seq<char>)
    ensures
        !lex_less(a, a),
        lex_less(a, b) ==> !lex_less(b, a),
        a == b || lex_less(a, b) || lex_less(b, a),
        forall|c: Seq<char>| lex_less(a, b) && #[trigger] lex_less(b, c) ==> lex_less(a, c),
{
    lemma_lex_less_asymmetric(a, b);
    lemma_lex_less_total(a, b);
    assert forall|c: Seq<char>| lex_less(a, b) && #[trigger] lex_less(b, c) implies lex_less(
        a,
        c,
    ) by {
        lemma_lex_less_transitive(a, b, c);
    }
}

/// The order of listed entries is a strict order, under which any two entries are comparable.
pub proof fn law_ranking_is_total_order(keys: Seq<SortKeyView>, i: int, j: int, k: int)
    ensures
        !ranks_before(keys, i, i),
        i != j ==> ranks_before(keys, i, j) || ranks_before(keys, j, i),
        ranks_before(keys, i, j) ==> !ranks_before(keys, j, i),
        ranks_before(keys, i, j) && ranks_before(keys, j, k) ==> ranks_before(keys, i, k),
{
    let (a, b, c) = (keys[i].name, keys[j].name, keys[k].name);
    law_lex_less_is_total_order(a, b);
    law_lex_less_is_total_order(b, c);
    law_lex_less_is_total_order(a, c);
}

fn is_char_less(x: char, y: char) -> (less: bool)
    ensures
        less == ((x as int) < (y as int)),
{
    (x as u32) < (y as u32)
}

/// Whether `a` stands before `b` in the alphabetical order of code points.
pub fn is_lex_less(a: &Vec<char>, b: &Vec<char>) -> (less: bool)
    ensures
        less == lex_less(a@, b@),
{
    let mut i: usize = 0;
    assert(a@.skip(0) =~= a@);
    assert(b@.skip(0) =~= b@);
    while i < a.len() && i < b.len()
        invariant
            i <= a@.len(),
            i <= b@.len(),
            lex_less(a@, b@) == lex_less(a@.skip(i as int), b@.skip(i as int)),
        decreases a.len() - i,
    {
        if a[i] != b[i] {
            return is_char_less(a[i], b[i]);
        }
        assert(a@.skip(i as int).drop_first() =~= a@.skip(i + 1));
        assert(b@.skip(i as int).drop_first() =~= b@.skip(i + 1));
        i = i + 1;
    }
    i < b.len()
}

/// Whether an entry with key `a` is listed before one with key `b`.
pub fn is_key_less(a: &SortKey, b: &SortKey) -> (less: bool)
    ensures
        less == key_less(a@, b@),
{
    if a.is_dir != b.is_dir {
        a.is_dir
    } else {
        is_lex_less(&a.name, &b.name)
    }
}

/// Whether `order` holds indices from `lo..hi` only.
spec fn within(order: Seq<usize>, lo: int, hi: int) -> bool {
    forall|k: int| 0 <= k < order.len() ==> lo <= #[trigger] order[k] < hi
}

/// Whether all of `done` rank before what `rest` holds from `start` on.
spec fn leads(keys: Seq<SortKeyView>, done: Seq<int>, rest: Seq<int>, start: int) -> bool {
    forall|x: int, y: int|
        0 <= x < done.len() && start <= y < rest.len() ==> #[trigger] ranks_before(
            keys,
            done[x],
            rest[y],
        )
}

/// Merges two ranked lists of indices, where all of `left` are smaller than all of `right`.
fn merge(keys: &Vec<SortKey>, left: &Vec<usize>, right: &Vec<usize>) -> (merged: Vec<usize>)
    requires
        within(left@, 0, keys@.len() as int),
        within(right@, 0, keys@.len() as int),
        forall|i: int, j: int|
            0 <= i < left@.len() && 0 <= j < right@.len() ==> #[trigger] left@[i]
                < #[trigger] right@[j],
        is_ranked(key_views(keys@), indices(left@)),
        is_ranked(key_views(keys@), indices(right@)),
        left@.len() + right@.len() <= usize::MAX,
    ensures
        merged@.len() == left@.len() + right@.len(),
        is_ranked(key_views(keys@), indices(merged@)),
        forall|lo: int, hi: int|
            within(left@, lo, hi) && within(right@, lo, hi) ==> within(merged@, lo, hi),
{
    let ghost kv = key_views(keys@);
    let mut merged: Vec<usize> = Vec::new();
    let mut i: usize = 0;
    let mut j: usize = 0;
    while i < left.len() || j < right.len()
        invariant
            kv == key_views(keys@),
            within(left@, 0, keys@.len() as int),
            within(right@, 0, keys@.len() as int),
            forall|x: int, y: int|
                0 <= x < left@.len() && 0 <= y < right@.len() ==> #[trigger] left@[x]
                    < #[trigger] right@[y],
            is_ranked(kv, indices(left@)),
            is_ranked(kv, indices(right@)),
            left@.len() + right@.len() <= usize::MAX,
            i <= left@.len(),
            j <= right@.len(),
            merged@.len() == i + j,
            is_ranked(kv, indices(merged@)),
            leads(kv, indices(merged@), indices(left@), i as int),
            leads(kv, indices(merged@), indices(right@), j as int),
            forall|lo: int, hi: int|
                within(left@, lo, hi) && within(right@, lo, hi) ==> within(merged@, lo, hi),
        decreases left.len() - i + (right.len() - j),
    {
        let take_right = if i == left.len() {
            true
        } else if j == right.len() {
            false
        } else {
            is_key_less(&keys[right[j]], &keys[left[i]])
        };
        let ghost done = indices(merged@);
        if take_right {
            let next: usize = right[j];
            proof {
                lemma_take_next(kv, done, indices(right@), indices(left@), j as int, i as int);
            }
            merged.push(next);
            assert(indices(merged@) =~= done.push(next as int));
            j = j + 1;
        } else {
            let next: usize = left[i];
            proof {
                if j < right@.len() {
                    assert(left@[i as int] < right@[j as int]);
                }
                lemma_take_next(kv, done, indices(left@), indices(right@), i as int, j as int);
            }
            merged.push(next);
            assert(indices(merged@) =~= done.push(next as int));
            i = i + 1;
        }
    }
    merged
}

/// Taking the head of one ranked list that ranks before the head of the other keeps what was
/// taken ranked, and before all that is left of both lists.
proof fn lemma_take_next(
    keys: Seq<SortKeyView>,
    done: Seq<int>,
    from: Seq<int>,
    other: Seq<int>,
    i: int,
    j: int,
)
    requires
        is_ranked(keys, done),
        is_ranked(keys, from),
        is_ranked(keys, other),
        0 <= i < from.len(),
        0 <= j <= other.len(),
        leads(keys, done, from, i),
        leads(keys, done, other, j),
        j < other.len() ==> ranks_before(keys, from[i], other[j]),
    ensures
        is_ranked(keys, done.push(from[i])),
        leads(keys, done.push(from[i]), from, i + 1),
        leads(keys, done.push(from[i]), other, j),
{
    let more = done.push(from[i]);
    assert forall|a: int, b: int| 0 <= a < b < more.len() implies #[trigger] ranks_before(
        keys,
        more[a],
        more[b],
    ) by {
        if b < done.len() {
            assert(ranks_before(keys, done[a], done[b]));
        } else {
            assert(ranks_before(keys, done[a], from[i]));
        }
    }
    assert forall|x: int, y: int|
        0 <= x < more.len() && i + 1 <= y < from.len() implies #[trigger] ranks_before(
        keys,
        more[x],
        from[y],
    ) by {
        if x < done.len() {
            assert(ranks_before(keys, done[x], from[y]));
        }
    }
    assert forall|x: int, y: int|
        0 <= x < more.len() && j <= y < other.len() implies #[trigger] ranks_before(
        keys,
        more[x],
        other[y],
    ) by {
        if x < done.len() {
            assert(ranks_before(keys, done[x], other[y]));
        } else if y > j {
            assert(ranks_before(keys, other[j], other[y]));
            law_ranking_is_total_order(keys, from[i], other[j], other[y]);
        }
    }
}

/// The indices `lo..hi` in the order in which their entries are listed.
fn sort_range(keys: &Vec<SortKey>, lo: usize, hi: usize) -> (order: Vec<usize>)
    requires
        lo <= hi <= keys@.len(),
    ensures
        order@.len() == hi - lo,
        is_ranked(key_views(keys@), indices(order@)),
        within(order@, lo as int, hi as int),
    decreases hi - lo,
{
    if hi - lo <= 1 {
        let mut order: Vec<usize> = Vec::new();
        if lo < hi {
            order.push(lo);
        }
        order
    } else {
        let mid: usize = lo + (hi - lo) / 2;
        let left = sort_range(keys, lo, mid);
        let right = sort_range(keys, mid, hi);
        assert(within(left@, lo as int, hi as int));
        assert(within(right@, lo as int, hi as int));
        merge(keys, &left, &right)
    }
}

/// The indices of `keys` in the order in which a stable sort by key lists them.
pub fn sort_order(keys: &Vec<SortKey>) -> (order: Vec<usize>)
    ensures
        indices(order@) == listing_order(key_views(keys@)),
        is_stable_order(key_views(keys@), indices(order@)),
{
    let order = sort_range(keys, 0, keys.len());
    proof {
        let kv = key_views(keys@);
        let listed = indices(order@);
        assert forall|a: int, b: int|
            0 <= a < listed.len() && 0 <= b < listed.len() && a != b implies listed[a]
            != listed[b] by {
            law_ranking_is_total_order(kv, listed[a], listed[b], listed[a]);
            if a < b {
                assert(ranks_before(kv, listed[a], listed[b]));
            } else {
                assert(ranks_before(kv, listed[b], listed[a]));
            }
        }
        assert forall|k: int| 0 <= k < kv.len() implies 0 <= #[trigger] listed[k] < kv.len() by {
            assert(0 <= order@[k] < keys@.len());
        }
        law_listing_order_is_stable(kv);
        law_stable_order_is_unique(kv, listed, listing_order(kv));
    }
    order
}

/// Moves the items so that item `order[k]` comes to stand at `k`.
pub fn arrange<T>(items: Vec<T>, order: &Vec<usize>) -> (arranged: Vec<T>)
    requires
        is_permutation(indices(order@), items@.len()),
    ensures
        arranged@.len() == items@.len(),
        forall|k: int|
            0 <= k < items@.len() ==> #[trigger] arranged@[k] == items@[indices(order@)[k]],
{
    let ghost all = items@;
    let mut slots: Vec<Option<T>> = Vec::new();
    for item in it: items
        invariant
            it.seq() == all,
            slots@.len() == it.index(),
            forall|k: int| 0 <= k < slots@.len() ==> #[trigger] slots@[k] == Some(all[k]),
    {
        slots.push(Some(item));
    }
    proof {
        assert forall|x: int| 0 <= x < order@.len() implies slots@[#[trigger] indices(order@)[x]]
            == Some(all[indices(order@)[x]]) by {
            assert(0 <= indices(order@)[x] < all.len());
        }
    }
    let mut arranged: Vec<T> = Vec::new();
    let mut k: usize = 0;
    while k < order.len()
        invariant
            is_permutation(indices(order@), all.len()),
            slots@.len() == all.len(),
            k <= order@.len(),
            arranged@.len() == k,
            forall|x: int| 0 <= x < k ==> #[trigger] arranged@[x] == all[indices(order@)[x]],
            forall|x: int|
                k <= x < order@.len() ==> slots@[#[trigger] indices(order@)[x]] == Some(
                    all[indices(order@)[x]],
                ),
        decreases order.len() - k,
    {
        assert(0 <= indices(order@)[k as int] < all.len());
        let index: usize = order[k];
        let taken = slots[index].take();
        match taken {
            Some(item) => arranged.push(item),
            None => assert(false),
        }
        k = k + 1;
    }
    arranged
}

/// A permutation leaves no index out.
pub proof fn lemma_permutation_covers(order: Seq<int>, n: nat, index: int)
    requires
        is_permutation(order, n),
        0 <= index < n,
    ensures
        order.contains(index),
{
    let range = vstd::set_lib::set_int_range(0, n as int);
    vstd::set_lib::lemma_int_range(0, n as int);
    order.unique_seq_to_set();
    vstd::seq_lib::seq_to_set_is_finite(order);
    assert(order.to_set().subset_of(range));
    vstd::set_lib::lemma_subset_equality(order.to_set(), range);
    assert(range.contains(index));
}

/// The listing order is a stable one.
pub proof fn law_listing_order_is_stable(keys: Seq<SortKeyView>)
    ensures
        is_stable_order(keys, listing_order(keys)),
{
    let all = Seq::new(keys.len(), |i: int| i);
    let leq = ranks_no_later(keys);
    let order = listing_order(keys);
    assert(vstd::relations::total_ordering(leq)) by {
        assert forall|i: int, j: int| #[trigger] leq(i, j) && #[trigger] leq(j, i) implies i == j by {
            law_ranking_is_total_order(keys, i, j, i);
        }
        assert forall|i: int, j: int, k: int| #[trigger]
            leq(i, j) && #[trigger] leq(j, k) implies leq(i, k) by {
            law_ranking_is_total_order(keys, i, j, k);
        }
        assert forall|i: int, j: int| #[trigger] leq(i, j) || #[trigger] leq(j, i) by {
            law_ranking_is_total_order(keys, i, j, i);
        }
    }
    all.lemma_sort_by_ensures(leq);
    all.to_multiset_ensures();
    order.to_multiset_ensures();
    assert(all.no_duplicates());
    all.lemma_multiset_has_no_duplicates();
    order.lemma_multiset_has_no_duplicates_conv();
    assert forall|k: int| 0 <= k < order.len() implies 0 <= #[trigger] order[k] < keys.len() by {
        assert(order.contains(order[k]));
        assert(all.contains(order[k]));
    }
    assert forall|a: int, b: int| 0 <= a < b < order.len() implies #[trigger] ranks_before(
        keys,
        order[a],
        order[b],
    ) by {
        assert(leq(order[a], order[b]));
    }
}

/// The listing order is the only one: two stable orders of the same keys are equal.
pub proof fn law_stable_order_is_unique(keys: Seq<SortKeyView>, one: Seq<int>, two: Seq<int>)
    requires
        is_stable_order(keys, one),
        is_stable_order(keys, two),
    ensures
        one == two,
{
    lemma_stable_orders_agree(keys, one, two, keys.len() as int);
    assert(one =~= two);
}

proof fn lemma_stable_orders_agree(
    keys: Seq<SortKeyView>,
    one: Seq<int>,
    two: Seq<int>,
    upto: int,
)
    requires
        is_stable_order(keys, one),
        is_stable_order(keys, two),
        0 <= upto <= keys.len(),
    ensures
        forall|k: int| 0 <= k < upto ==> one[k] == two[k],
    decreases upto,
{
    if upto > 0 {
        lemma_stable_orders_agree(keys, one, two, upto - 1);
        let last = upto - 1;
        if one[last] != two[last] {
            lemma_permutation_covers(two, keys.len(), one[last]);
            lemma_permutation_covers(one, keys.len(), two[last]);
            let in_two = choose|k: int| 0 <= k < two.len() && two[k] == one[last];
            let in_one = choose|k: int| 0 <= k < one.len() && one[k] == two[last];
            assert(in_two > last);
            assert(in_one > last);
            assert(ranks_before(keys, two[last], two[in_two]));
            assert(ranks_before(keys, one[last], one[in_one]));
            law_ranking_is_total_order(keys, one[last], two[last], one[last]);
        }
    }
}

/// Arranging items by a permutation keeps how often each occurs.
pub proof fn lemma_arranged_multiset<T>(items: Seq<T>, order: Seq<int>)
    requires
        is_permutation(order, items.len()),
    ensures
        order.map_values(|i: int| items[i]).to_multiset() == items.to_multiset(),
    decreases items.len(),
{
    broadcast use vstd::multiset::group_multiset_axioms;

    let arranged = order.map_values(|i: int| items[i]);
    if items.len() == 0 {
        assert(arranged =~= items);
    } else {
        let last = items.len() - 1;
        lemma_permutation_covers(order, items.len(), last);
        let at = choose|k: int| 0 <= k < order.len() && order[k] == last;
        let rest = items.drop_last();
        let shorter = order.remove(at);
        assert(is_permutation(shorter, rest.len())) by {
            assert forall|k: int| 0 <= k < shorter.len() implies 0 <= #[trigger] shorter[k]
                < rest.len() by {
                let from = if k < at {
                    k
                } else {
                    k + 1
                };
                assert(shorter[k] == order[from]);
                assert(order[from] != order[at]);
            }
        }
        lemma_arranged_multiset(rest, shorter);
        let rearranged = shorter.map_values(|i: int| rest[i]);
        assert forall|k: int| 0 <= k < shorter.len() implies #[trigger] rearranged[k]
            == arranged.remove(at)[k] by {
            assert(0 <= shorter[k] < rest.len());
        }
        assert(rearranged =~= arranged.remove(at));
        arranged.to_multiset_ensures();
        rest.to_multiset_ensures();
        assert(items =~= rest.push(items.last()));
        assert(arranged.contains(arranged[at]));
        assert(arranged.to_multiset() =~= arranged.remove(at).to_multiset().insert(arranged[at]));
    }
}

/// The alphabetical order is that of a dictionary: a text stands before another if it is a proper
/// prefix of it, or if the code point at the first position where they differ is the smaller one.
pub proof fn law_lex_less_is_dictionary_order(a: Seq<char>, b: Seq<char>)
    ensures
        lex_less(a, b) <==> exists|k: int|
            #![trigger a.take(k)]
            0 <= k <= a.len() && k < b.len() && a.take(k) == b.take(k) && (k == a.len() || (
            a[k] as int) < (b[k] as int)),
    decreases a.len(),
{
    if lex_less(a, b) {
        if a.len() == 0 || a[0] != b[0] {
            assert(a.take(0) =~= b.take(0));
        } else {
            let (c, d) = (a.drop_first(), b.drop_first());
            law_lex_less_is_dictionary_order(c, d);
            let k = choose|k: int|
                #![trigger c.take(k)]
                0 <= k <= c.len() && k < d.len() && c.take(k) == d.take(k) && (k == c.len() || (
                c[k] as int) < (d[k] as int));
            assert forall|i: int| 0 <= i < k + 1 implies a[i] == b[i] by {
                if i > 0 {
                    assert(c.take(k)[i - 1] == d.take(k)[i - 1]);
                }
            }
            assert(a.take(k + 1) =~= b.take(k + 1));
        }
    }
    if exists|k: int|
        #![trigger a.take(k)]
        0 <= k <= a.len() && k < b.len() && a.take(k) == b.take(k) && (k == a.len() || (
        a[k] as int) < (b[k] as int)) {
        let k = choose|k: int|
            #![trigger a.take(k)]
            0 <= k <= a.len() && k < b.len() && a.take(k) == b.take(k) && (k == a.len() || (
            a[k] as int) < (b[k] as int));
        if k > 0 {
            assert(a.take(k)[0] == b.take(k)[0]);
            let (c, d) = (a.drop_first(), b.drop_first());
            law_lex_less_is_dictionary_order(c, d);
            assert forall|i: int| 0 <= i < k - 1 implies c[i] == d[i] by {
                assert(a.take(k)[i + 1] == b.take(k)[i + 1]);
            }
            assert(c.take(k - 1) =~= d.take(k - 1));
        }
    }
}

/// The listing order holds every index once. Of two indices, the one listed first is that of a
/// directory if the other is; among equals in this, the alphabetically smaller name comes first,
/// and among equal names the smaller index.
pub proof fn law_listing_order_is_by_directory_name_and_index(keys: Seq<SortKeyView>)
    ensures
        listing_order(keys).len() == keys.len(),
        forall|i: int| 0 <= i < keys.len() <==> #[trigger] listing_order(keys).contains(i),
        forall|a: int, b: int|
            #![trigger listing_order(keys)[a], listing_order(keys)[b]]
            0 <= a < b < keys.len() ==> {
                let (i, j) = (listing_order(keys)[a], listing_order(keys)[b]);
                &&& i != j
                &&& keys[j].is_dir ==> keys[i].is_dir
                &&& keys[i].is_dir == keys[j].is_dir ==> lex_less(keys[i].name, keys[j].name) || (
                keys[i].name == keys[j].name && i < j)
            },
{
    let order = listing_order(keys);
    law_listing_order_is_stable(keys);
    assert forall|i: int| 0 <= i < keys.len() <==> #[trigger] order.contains(i) by {
        if 0 <= i < keys.len() {
            lemma_permutation_covers(order, keys.len(), i);
        }
    }
    assert forall|a: int, b: int|
        #![trigger order[a], order[b]]
        0 <= a < b < keys.len() implies {
        let (i, j) = (order[a], order[b]);
        &&& i != j
        &&& keys[j].is_dir ==> keys[i].is_dir
        &&& keys[i].is_dir == keys[j].is_dir ==> lex_less(keys[i].name, keys[j].name) || (
        keys[i].name == keys[j].name && i < j)
    } by {
        assert(ranks_before(keys, order[a], order[b]));
        law_lex_less_is_total_order(keys[order[a]].name, keys[order[b]].name);
    }
}

/// Keys and indices keep their number and their places in specifications.
pub proof fn law_key_views_keep_places(keys: Seq<SortKey>, order: Seq<usize>)
    ensures
        key_views(keys).len() == keys.len(),
        forall|k: int|
            0 <= k < keys.len() ==> (#[trigger] key_views(keys)[k]).is_dir == keys[k].is_dir
                && key_views(keys)[k].name == keys[k].name@,
        indices(order).len() == order.len(),
        forall|k: int| 0 <= k < order.len() ==> #[trigger] indices(order)[k] == order[k] as int,
{
}

/// A key stands before another if only it is a directory's, or if both or neither are and its name
/// is alphabetically smaller.
pub proof fn law_directories_stand_before_other_keys(a: SortKeyView, b: SortKeyView)
    ensures
        key_less(a, b) <==> (a.is_dir && !b.is_dir) || ((a.is_dir <==> b.is_dir) && lex_less(
            a.name,
            b.name,
        )),
{
}

/// The listing order is the one stable order.
pub proof fn law_stable_order_is_the_listing_order(keys: Seq<SortKeyView>, order: Seq<int>)
    ensures
        is_stable_order(keys, order) <==> order == listing_order(keys),
{
    law_listing_order_is_stable(keys);
    if is_stable_order(keys, order) {
        law_stable_order_is_unique(keys, order, listing_order(keys));
    }
}

} // verus!
