//! Putting things in alphabetical order, with those of one name left in the
//! order they came in.

use vstd::prelude::*;

verus! {

/// Whether `a` comes before `b` in alphabetical order: at the first place
/// where they differ `a` has the smaller character, or `a` ends there.
pub open spec fn alphabetical(a: Seq<char>, b: Seq<char>) -> bool
    decreases a.len(),
{
    if b.len() == 0 {
        false
    } else if a.len() == 0 {
        true
    } else if a[0] != b[0] {
        a[0] < b[0]
    } else {
        alphabetical(a.drop_first(), b.drop_first())
    }
}

pub proof fn lemma_alphabetical_total(a: Seq<char>, b: Seq<char>)
    ensures
        a == b ==> !alphabetical(a, b),
        a != b ==> alphabetical(a, b) != alphabetical(b, a),
    decreases a.len(),
{
    if a.len() > 0 && b.len() > 0 && a[0] == b[0] {
        lemma_alphabetical_total(a.drop_first(), b.drop_first());
        if a.drop_first() == b.drop_first() {
            assert(a =~= seq![a[0]] + a.drop_first());
            assert(b =~= seq![b[0]] + b.drop_first());
        }
    } else if a.len() == 0 && b.len() == 0 {
        assert(a =~= b);
    }
}

proof fn lemma_alphabetical_transitive(a: Seq<char>, b: Seq<char>, c: Seq<char>)
    requires
        alphabetical(a, b),
        alphabetical(b, c),
    ensures
        alphabetical(a, c),
    decreases a.len(),
{
    if a.len() > 0 && a[0] == b[0] && b[0] == c[0] {
        lemma_alphabetical_transitive(a.drop_first(), b.drop_first(), c.drop_first());
    }
}

/// Whether the thing at `x` stands before the one at `y` when they are sorted
/// by `keys`: its key comes first, or the keys are the same and it came first.
pub open spec fn precedes(keys: Seq<Seq<char>>, x: int, y: int) -> bool {
    alphabetical(keys[x], keys[y]) || (keys[x] == keys[y] && x < y)
}

/// Whether `order` lists the positions of `keys`, each of them, as sorting by
/// `keys` puts them.
pub open spec fn sorts(keys: Seq<Seq<char>>, order: Seq<int>) -> bool {
    &&& order.len() == keys.len()
    &&& forall|i: int| 0 <= i < order.len() ==> 0 <= #[trigger] order[i] < keys.len()
    &&& forall|x: int| 0 <= x < keys.len() ==> #[trigger] order.contains(x)
    &&& forall|i: int, j: int|
        0 <= i < j < order.len() ==> precedes(keys, #[trigger] order[i], #[trigger] order[j])
}

proof fn lemma_precedes_total(keys: Seq<Seq<char>>, x: int, y: int)
    ensures
        !(precedes(keys, x, y) && precedes(keys, y, x)),
        x != y ==> precedes(keys, x, y) || precedes(keys, y, x),
{
    lemma_alphabetical_total(keys[x], keys[y]);
}

proof fn lemma_precedes_transitive(keys: Seq<Seq<char>>, x: int, y: int, z: int)
    requires
        precedes(keys, x, y),
        precedes(keys, y, z),
    ensures
        precedes(keys, x, z),
{
    if alphabetical(keys[x], keys[y]) && alphabetical(keys[y], keys[z]) {
        lemma_alphabetical_transitive(keys[x], keys[y], keys[z]);
    }
}

/// There is but one way to sort by given keys.
pub proof fn law_one_way_to_sort(keys: Seq<Seq<char>>, a: Seq<int>, b: Seq<int>)
    requires
        sorts(keys, a),
        sorts(keys, b),
    ensures
        a == b,
{
    assert forall|i: int| 0 <= i < a.len() implies a[i] == b[i] by {
        lemma_sorted_prefixes_agree(keys, a, b, i);
    }
    assert(a =~= b);
}

proof fn lemma_sorted_prefixes_agree(keys: Seq<Seq<char>>, a: Seq<int>, b: Seq<int>, i: int)
    requires
        sorts(keys, a),
        sorts(keys, b),
        0 <= i < a.len(),
    ensures
        forall|k: int| 0 <= k <= i ==> a[k] == #[trigger] b[k],
    decreases i,
{
    if i > 0 {
        lemma_sorted_prefixes_agree(keys, a, b, i - 1);
    }
    if a[i] != b[i] {
        lemma_stands_later(keys, a, b, i);
        lemma_stands_later(keys, b, a, i);
        lemma_precedes_total(keys, a[i], b[i]);
    }
}

proof fn lemma_stands_later(keys: Seq<Seq<char>>, a: Seq<int>, b: Seq<int>, i: int)
    requires
        sorts(keys, a),
        sorts(keys, b),
        0 <= i < a.len(),
        forall|k: int| 0 <= k < i ==> a[k] == #[trigger] b[k],
        a[i] != b[i],
    ensures
        precedes(keys, a[i], b[i]),
{
    assert(a.contains(b[i]));
    let j = choose|j: int| 0 <= j < a.len() && a[j] == b[i];
    if j < i {
        assert(b[j] == b[i]);
        lemma_precedes_total(keys, b[j], b[i]);
        assert(precedes(keys, b[j], b[i]));
    }
}

/// Whether `a` comes before `b` in alphabetical order.
pub fn is_before(a: &Vec<char>, b: &Vec<char>) -> (r: bool)
    ensures
        r == alphabetical(a@, b@),
{
    let mut i: usize = 0;
    assert(a@.skip(0) =~= a@ && b@.skip(0) =~= b@);
    while i < a.len() && i < b.len()
        invariant
            i <= a.len(),
            i <= b.len(),
            alphabetical(a@, b@) == alphabetical(a@.skip(i as int), b@.skip(i as int)),
        decreases a.len() - i,
    {
        assert(a@.skip(i as int)[0] == a@[i as int]);
        assert(b@.skip(i as int)[0] == b@[i as int]);
        if a[i] != b[i] {
            return a[i] < b[i];
        }
        assert(a@.skip(i as int).drop_first() =~= a@.skip(i + 1));
        assert(b@.skip(i as int).drop_first() =~= b@.skip(i + 1));
        i += 1;
    }
    i < b.len()
}

/// The contents of a list of keys.
pub open spec fn key_views(keys: Seq<Vec<char>>) -> Seq<Seq<char>> {
    keys.map_values(|k: Vec<char>| k@)
}

/// Positions as mathematical integers.
pub open spec fn positions(order: Seq<usize>) -> Seq<int> {
    order.map_values(|x: usize| x as int)
}

/// Whether `order` lists the positions below `n` as sorting by `keys` puts
/// them.
spec fn sorts_below(keys: Seq<Seq<char>>, order: Seq<usize>, n: int) -> bool {
    &&& order.len() == n
    &&& forall|i: int| 0 <= i < order.len() ==> #[trigger] order[i] < n
    &&& forall|x: usize| x < n ==> #[trigger] order.contains(x)
    &&& forall|i: int, j: int|
        0 <= i < j < order.len() ==> precedes(
            keys,
            #[trigger] order[i] as int,
            #[trigger] order[j] as int,
        )
}

proof fn lemma_insert_keeps_sorted(keys: Seq<Seq<char>>, order: Seq<usize>, at: int, x: usize)
    requires
        x < keys.len(),
        sorts_below(keys, order, x as int),
        0 <= at <= order.len(),
        at > 0 ==> !alphabetical(keys[x as int], keys[order[at - 1] as int]),
        forall|k: int|
            at <= k < order.len() ==> alphabetical(
                keys[x as int],
                keys[#[trigger] order[k] as int],
            ),
    ensures
        sorts_below(keys, order.insert(at, x), x + 1),
{
    let new = order.insert(at, x);
    assert forall|y: usize| y < x + 1 implies #[trigger] new.contains(y) by {
        if y == x {
            assert(new[at] == x);
        } else {
            assert(order.contains(y));
            let k = choose|k: int| 0 <= k < order.len() && order[k] == y;
            if k < at {
                assert(new[k] == y);
            } else {
                assert(new[k + 1] == y);
            }
        }
    }
    assert forall|i: int, j: int| 0 <= i < j < new.len() implies precedes(
        keys,
        #[trigger] new[i] as int,
        #[trigger] new[j] as int,
    ) by {
        let old_i = if i < at {
            i
        } else {
            i - 1
        };
        let old_j = if j < at {
            j
        } else {
            j - 1
        };
        if i == at {
            assert(new[j] == order[old_j]);
        } else if j == at {
            assert(new[i] == order[i]);
            lemma_alphabetical_total(keys[x as int], keys[order[at - 1] as int]);
            assert(precedes(keys, order[at - 1] as int, x as int));
            if i < at - 1 {
                lemma_precedes_transitive(
                    keys,
                    order[i] as int,
                    order[at - 1] as int,
                    x as int,
                );
            }
        } else {
            assert(new[i] == order[old_i] && new[j] == order[old_j]);
        }
    }
}

/// The positions of `keys` in the order in which sorting by them puts them;
/// equal keys stay in the order they came in.
pub fn sorted_positions(keys: &Vec<Vec<char>>) -> (r: Vec<usize>)
    ensures
        sorts(key_views(keys@), positions(r@)),
{
    let ghost all = key_views(keys@);
    let mut order: Vec<usize> = Vec::new();
    let mut x: usize = 0;
    while x < keys.len()
        invariant
            x <= keys.len(),
            all == key_views(keys@),
            sorts_below(all, order@, x as int),
        decreases keys.len() - x,
    {
        let mut at: usize = x;
        while at > 0 && is_before(&keys[x], &keys[order[at - 1]])
            invariant
                at <= x < keys.len(),
                all == key_views(keys@),
                sorts_below(all, order@, x as int),
                forall|k: int|
                    at <= k < order.len() ==> alphabetical(
                        all[x as int],
                        all[#[trigger] order@[k] as int],
                    ),
            decreases at,
        {
            assert(all[x as int] == keys@[x as int]@);
            assert(all[order@[at - 1] as int] == keys@[order@[at - 1] as int]@);
            at -= 1;
        }
        proof {
            if at > 0 {
                assert(all[x as int] == keys@[x as int]@);
                assert(all[order@[at - 1] as int] == keys@[order@[at - 1] as int]@);
            }
            lemma_insert_keeps_sorted(all, order@, at as int, x);
        }
        order.insert(at, x);
        x += 1;
    }
    proof {
        let p = positions(order@);
        assert forall|y: int| 0 <= y < all.len() implies #[trigger] p.contains(y) by {
            assert(order@.contains(y as usize));
            let k = choose|k: int| 0 <= k < order@.len() && order@[k] == y as usize;
            assert(p[k] == y);
        }
    }
    order
}

/// The first difference decides on the alphabetical order, by the characters'
/// own order, whatever comes behind it.
pub proof fn law_the_first_difference_decides(
    common: Seq<char>,
    x: char,
    y: char,
    p: Seq<char>,
    q: Seq<char>,
)
    requires
        (x as u32) < (y as u32),
    ensures
        alphabetical(common.push(x) + p, common.push(y) + q),
        !alphabetical(common.push(y) + q, common.push(x) + p),
    decreases common.len(),
{
    let a = common.push(x) + p;
    let b = common.push(y) + q;
    if common.len() == 0 {
        assert(a[0] == x && b[0] == y);
        assert(x < y);
    } else {
        assert(a.drop_first() =~= common.drop_first().push(x) + p);
        assert(b.drop_first() =~= common.drop_first().push(y) + q);
        assert(a[0] == common[0] && b[0] == common[0]);
        law_the_first_difference_decides(common.drop_first(), x, y, p, q);
    }
}

/// A text comes before any that it starts, and never before itself.
pub proof fn law_a_beginning_comes_first(a: Seq<char>, more: Seq<char>)
    ensures
        alphabetical(a, a + more) <==> more.len() > 0,
        !alphabetical(a + more, a),
    decreases a.len(),
{
    let b = a + more;
    if a.len() > 0 {
        assert(b.drop_first() =~= a.drop_first() + more);
        law_a_beginning_comes_first(a.drop_first(), more);
    }
}

/// Sorting keeps all and makes up none, puts no key before a smaller one, and
/// leaves equal keys in the order they came in.
pub proof fn law_sorting_is_stable(keys: Seq<Seq<char>>, order: Seq<int>)
    requires
        sorts(keys, order),
    ensures
        order.len() == keys.len(),
        order.no_duplicates(),
        forall|x: int| 0 <= x < keys.len() <==> #[trigger] order.contains(x),
        forall|i: int, j: int|
            0 <= i < j < order.len() ==> {
                &&& !alphabetical(keys[#[trigger] order[j]], keys[#[trigger] order[i]])
                &&& keys[order[i]] == keys[order[j]] ==> order[i] < order[j]
            },
{
    assert forall|i: int, j: int| 0 <= i < j < order.len() implies {
        &&& !alphabetical(keys[#[trigger] order[j]], keys[#[trigger] order[i]])
        &&& keys[order[i]] == keys[order[j]] ==> order[i] < order[j]
    } by {
        assert(precedes(keys, order[i], order[j]));
        lemma_alphabetical_total(keys[order[i]], keys[order[j]]);
    }
    assert forall|i: int, j: int| 0 <= i < order.len() && 0 <= j < order.len() && i
        != j implies order[i] != order[j] by {
        if i < j {
            assert(precedes(keys, order[i], order[j]));
            lemma_alphabetical_total(keys[order[i]], keys[order[j]]);
        } else {
            assert(precedes(keys, order[j], order[i]));
            lemma_alphabetical_total(keys[order[i]], keys[order[j]]);
        }
    }
}

} // verus!
