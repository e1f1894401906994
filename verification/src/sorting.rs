//! Ordering texts: the lexicographic order on characters, the stable order
//! of a list of keys, and collapsing neighbours that count as the same.
//!
//! An order is a sequence of positions into the list it orders, so that one
//! order can rearrange several lists that belong together.

use vstd::prelude::*;
use crate::text::{chars_of, eq_ignore_ascii_case, same_text, same_text_ignoring_ascii_case};

verus! {

/// `a` comes strictly before `b`, comparing character by character; a proper
/// prefix comes before what it is a prefix of.
pub open spec fn lex_lt(a: Seq<char>, b: Seq<char>) -> bool
    decreases a.len(),
{
    if b.len() == 0 {
        false
    } else if a.len() == 0 {
        true
    } else if a[0] == b[0] {
        lex_lt(a.drop_first(), b.drop_first())
    } else {
        a[0] < b[0]
    }
}

/// The lowercase form of a text, as `str::to_lowercase` gives it: every
/// character replaced by its Unicode lowercase mapping.
pub uninterp spec fn lowercase(text: Seq<char>) -> Seq<char>;

/// Calls `str::to_lowercase`. The contract only names the result.
#[verifier::external_body]
pub(crate) fn to_lowercase(text: &str) -> (lower: String)
    ensures
        lower@ == lowercase(text@),
{
    text.to_lowercase()
}

/// The lowercase form of each name.
pub open spec fn lower_keys(names: Seq<Seq<char>>) -> Seq<Seq<char>> {
    names.map_values(|name: Seq<char>| lowercase(name))
}

/// The order in which a list of names is shown: ascending by lowercase form,
/// names with the same lowercase form in the order in which they stand. With `merge`,
/// a name that equals the one kept before it up to ASCII case is left out.
pub open spec fn arranged(names: Seq<Seq<char>>, merge: bool) -> Seq<int> {
    let sorted = sorted_order(lower_keys(names));
    if merge {
        collapse(sorted, names, true)
    } else {
        sorted
    }
}

/// `order` with position `x` put in after every position whose key is not
/// greater than the key at `x`.
pub open spec fn insert_sorted(order: Seq<int>, keys: Seq<Seq<char>>, x: int) -> Seq<int>
    decreases order.len(),
{
    if order.len() > 0 && lex_lt(keys[x], keys[order.last()]) {
        insert_sorted(order.drop_last(), keys, x).push(order.last())
    } else {
        order.push(x)
    }
}

/// The stable order of the first `n` keys.
pub open spec fn sorted_order_upto(keys: Seq<Seq<char>>, n: nat) -> Seq<int>
    decreases n,
{
    if n == 0 {
        Seq::empty()
    } else {
        insert_sorted(sorted_order_upto(keys, (n - 1) as nat), keys, n - 1)
    }
}

/// The positions of `keys` in ascending order of their keys; positions with
/// equal keys stay in the order in which they stand.
pub open spec fn sorted_order(keys: Seq<Seq<char>>) -> Seq<int> {
    sorted_order_upto(keys, keys.len())
}

/// Whether two names count as the same: equal, or equal up to ASCII case.
pub open spec fn same_key(ignore_case: bool, a: Seq<char>, b: Seq<char>) -> bool {
    if ignore_case {
        eq_ignore_ascii_case(a, b)
    } else {
        a == b
    }
}

/// `order` without each position whose name counts as the same as the name
/// at the position kept just before it.
pub open spec fn collapse(order: Seq<int>, names: Seq<Seq<char>>, ignore_case: bool) -> Seq<int>
    decreases order.len(),
{
    if order.len() == 0 {
        Seq::empty()
    } else {
        let kept = collapse(order.drop_last(), names, ignore_case);
        if kept.len() > 0 && same_key(ignore_case, names[order.last()], names[kept.last()]) {
            kept
        } else {
            kept.push(order.last())
        }
    }
}

/// The items at the positions that `order` lists, in that order.
pub open spec fn reorder<T>(items: Seq<T>, order: Seq<int>) -> Seq<T> {
    order.map_values(|i: int| items[i])
}

/// Every entry of `order` is a position below `n`.
pub open spec fn positions_below(order: Seq<int>, n: int) -> bool {
    forall|k: int| 0 <= k < order.len() ==> 0 <= #[trigger] order[k] < n
}

/// Machine positions as mathematical ones.
pub open spec fn as_ints(order: Seq<usize>) -> Seq<int> {
    order.map_values(|i: usize| i as int)
}

/// Inserting keeps positions in range and adds one entry.
pub proof fn lemma_insert_sorted_positions(order: Seq<int>, keys: Seq<Seq<char>>, x: int, n: int)
    requires
        positions_below(order, n),
        0 <= x < n,
    ensures
        positions_below(insert_sorted(order, keys, x), n),
        insert_sorted(order, keys, x).len() == order.len() + 1,
    decreases order.len(),
{
    if order.len() > 0 && lex_lt(keys[x], keys[order.last()]) {
        lemma_insert_sorted_positions(order.drop_last(), keys, x, n);
    }
}

/// The stable order of the first `n` keys lists `n` positions below `n`.
pub proof fn lemma_sorted_order_positions(keys: Seq<Seq<char>>, n: nat)
    ensures
        positions_below(sorted_order_upto(keys, n), n as int),
        sorted_order_upto(keys, n).len() == n,
    decreases n,
{
    if n > 0 {
        lemma_sorted_order_positions(keys, (n - 1) as nat);
        lemma_insert_sorted_positions(sorted_order_upto(keys, (n - 1) as nat), keys, n - 1, n as int);
    }
}

/// No text comes before itself.
pub proof fn lemma_lex_lt_irreflexive(a: Seq<char>)
    ensures
        !lex_lt(a, a),
    decreases a.len(),
{
    if a.len() > 0 {
        lemma_lex_lt_irreflexive(a.drop_first());
    }
}

/// What comes before a text that comes before a third comes before the third.
pub proof fn lemma_lex_lt_transitive(a: Seq<char>, b: Seq<char>, c: Seq<char>)
    requires
        lex_lt(a, b),
        lex_lt(b, c),
    ensures
        lex_lt(a, c),
    decreases a.len(),
{
    if a.len() > 0 && b.len() > 0 && c.len() > 0 && a[0] == b[0] && b[0] == c[0] {
        lemma_lex_lt_transitive(a.drop_first(), b.drop_first(), c.drop_first());
    }
}

/// Of two different texts one comes before the other.
pub proof fn lemma_lex_lt_total(a: Seq<char>, b: Seq<char>)
    ensures
        lex_lt(a, b) || a == b || lex_lt(b, a),
    decreases a.len(),
{
    if a.len() == 0 || b.len() == 0 {
        if a.len() == 0 && b.len() == 0 {
            assert(a =~= b);
        }
    } else if a[0] == b[0] {
        lemma_lex_lt_total(a.drop_first(), b.drop_first());
        if a.drop_first() == b.drop_first() {
            assert(a =~= seq![a[0]] + a.drop_first());
            assert(b =~= seq![b[0]] + b.drop_first());
        }
    }
}

/// The order runs through the keys in ascending order, and through equal
/// keys in the order of their positions.
pub open spec fn in_order(order: Seq<int>, keys: Seq<Seq<char>>) -> bool {
    forall|a: int, b: int|
        0 <= a < b < order.len() ==> {
            ||| lex_lt(keys[#[trigger] order[a]], keys[#[trigger] order[b]])
            ||| keys[order[a]] == keys[order[b]] && order[a] < order[b]
        }
}

/// Inserting a position greater than all that are listed keeps the order in
/// order, and keeps every position that was listed.
pub proof fn lemma_insert_sorted_in_order(order: Seq<int>, keys: Seq<Seq<char>>, x: int)
    requires
        in_order(order, keys),
        forall|k: int| 0 <= k < order.len() ==> #[trigger] order[k] < x,
    ensures
        in_order(insert_sorted(order, keys, x), keys),
        insert_sorted(order, keys, x).contains(x),
        forall|k: int|
            0 <= k < order.len() ==> insert_sorted(order, keys, x).contains(#[trigger] order[k]),
        forall|k: int|
            0 <= k < insert_sorted(order, keys, x).len() ==> {
                ||| #[trigger] insert_sorted(order, keys, x)[k] == x
                ||| order.contains(insert_sorted(order, keys, x)[k])
            },
    decreases order.len(),
{
    let after = insert_sorted(order, keys, x);
    if order.len() > 0 && lex_lt(keys[x], keys[order.last()]) {
        let head = order.drop_last();
        let last = order.last();
        assert forall|a: int, b: int| 0 <= a < b < head.len() implies {
            ||| lex_lt(keys[#[trigger] head[a]], keys[#[trigger] head[b]])
            ||| keys[head[a]] == keys[head[b]] && head[a] < head[b]
        } by {
            assert(head[a] == order[a] && head[b] == order[b]);
        }
        assert forall|k: int| 0 <= k < head.len() implies #[trigger] head[k] < x by {
            assert(head[k] == order[k]);
        }
        lemma_insert_sorted_in_order(head, keys, x);
        let inner = insert_sorted(head, keys, x);
        assert(after == inner.push(last));
        assert forall|a: int, b: int| 0 <= a < b < after.len() implies {
            ||| lex_lt(keys[#[trigger] after[a]], keys[#[trigger] after[b]])
            ||| keys[after[a]] == keys[after[b]] && after[a] < after[b]
        } by {
            if b < inner.len() {
                assert(after[a] == inner[a] && after[b] == inner[b]);
            } else {
                assert(after[b] == last);
                assert(after[a] == inner[a]);
                if inner[a] != x {
                    assert(head.contains(inner[a]));
                    let j = choose|j: int| 0 <= j < head.len() && head[j] == inner[a];
                    assert(order[j] == inner[a]);
                    assert(order[order.len() - 1] == last);
                }
            }
        }
        assert(after[inner.len() as int] == last);
        assert forall|k: int| 0 <= k < order.len() implies after.contains(#[trigger] order[k]) by {
            if k < head.len() {
                assert(head[k] == order[k]);
                assert(inner.contains(head[k]));
                let j = choose|j: int| 0 <= j < inner.len() && inner[j] == head[k];
                assert(after[j] == order[k]);
            }
        }
        let at = choose|j: int| 0 <= j < inner.len() && inner[j] == x;
        assert(after[at] == x);
        assert forall|k: int| 0 <= k < after.len() implies {
            ||| #[trigger] after[k] == x
            ||| order.contains(after[k])
        } by {
            if k < inner.len() {
                assert(after[k] == inner[k]);
                if inner[k] != x {
                    let j = choose|j: int| 0 <= j < head.len() && head[j] == inner[k];
                    assert(order[j] == after[k]);
                }
            } else {
                assert(order[order.len() - 1] == after[k]);
            }
        }
    } else {
        assert(after == order.push(x));
        assert(after[order.len() as int] == x);
        assert forall|a: int, b: int| 0 <= a < b < after.len() implies {
            ||| lex_lt(keys[#[trigger] after[a]], keys[#[trigger] after[b]])
            ||| keys[after[a]] == keys[after[b]] && after[a] < after[b]
        } by {
            if b < order.len() {
                assert(after[a] == order[a] && after[b] == order[b]);
            } else {
                assert(after[b] == x);
                assert(after[a] == order[a]);
                let last = order.last();
                lemma_lex_lt_total(keys[last], keys[x]);
                if a < order.len() - 1 {
                    assert(order[order.len() - 1] == last);
                    if lex_lt(keys[order[a]], keys[last]) {
                        if lex_lt(keys[last], keys[x]) {
                            lemma_lex_lt_transitive(keys[order[a]], keys[last], keys[x]);
                        }
                    } else {
                    }
                }
            }
        }
        assert forall|k: int| 0 <= k < order.len() implies after.contains(#[trigger] order[k]) by {
            assert(after[k] == order[k]);
        }
        assert forall|k: int| 0 <= k < after.len() implies {
            ||| #[trigger] after[k] == x
            ||| order.contains(after[k])
        } by {
            if k < order.len() {
                assert(order[k] == after[k]);
            }
        }
    }
}

/// The stable order of the keys is sorted and stable, and a rearrangement:
/// it runs through the keys in ascending order, through equal keys in the
/// order of their positions, and lists every position exactly once.
pub proof fn lemma_sorted_order_sorts(keys: Seq<Seq<char>>, n: nat)
    ensures
        in_order(sorted_order_upto(keys, n), keys),
        sorted_order_upto(keys, n).len() == n,
        sorted_order_upto(keys, n).no_duplicates(),
        forall|x: int| 0 <= x < n ==> sorted_order_upto(keys, n).contains(x),
        positions_below(sorted_order_upto(keys, n), n as int),
    decreases n,
{
    lemma_sorted_order_positions(keys, n);
    let order = sorted_order_upto(keys, n);
    if n > 0 {
        let before = sorted_order_upto(keys, (n - 1) as nat);
        lemma_sorted_order_sorts(keys, (n - 1) as nat);
        lemma_insert_sorted_in_order(before, keys, n - 1);
        assert forall|x: int| 0 <= x < n implies order.contains(x) by {
            if x < n - 1 {
                assert(before.contains(x));
                let j = choose|j: int| 0 <= j < before.len() && before[j] == x;
                assert(order.contains(before[j]));
            }
        }
    }
    assert forall|a: int, b: int| 0 <= a < order.len() && 0 <= b < order.len() && a != b implies
        order[a] != order[b] by {
        lemma_lex_lt_irreflexive(keys[order[a]]);
    }
}

/// The keys at the listed positions ascend strictly.
pub open spec fn strictly_in_order(order: Seq<int>, keys: Seq<Seq<char>>) -> bool {
    forall|a: int, b: int|
        0 <= a < b < order.len() ==> lex_lt(keys[#[trigger] order[a]], keys[#[trigger] order[b]])
}

/// Collapsing leaves positions out and changes nothing else: what is kept
/// was listed, and an order that was in order stays in order. The name at
/// every listed position counts as the same as the name at a kept one.
pub proof fn lemma_collapse_keeps_order(
    order: Seq<int>,
    names: Seq<Seq<char>>,
    ignore_case: bool,
    keys: Seq<Seq<char>>,
)
    requires
        in_order(order, keys),
    ensures
        in_order(collapse(order, names, ignore_case), keys),
        collapse(order, names, ignore_case).len() <= order.len(),
        order.len() > 0 ==> collapse(order, names, ignore_case).len() > 0,
        forall|i: int|
            0 <= i < collapse(order, names, ignore_case).len() ==> order.contains(
                #[trigger] collapse(order, names, ignore_case)[i],
            ),
        forall|a: int|
            0 < a < collapse(order, names, ignore_case).len() ==> !same_key(
                ignore_case,
                names[#[trigger] collapse(order, names, ignore_case)[a]],
                names[collapse(order, names, ignore_case)[a - 1]],
            ),
    decreases order.len(),
{
    let kept = collapse(order, names, ignore_case);
    if order.len() > 0 {
        let head = order.drop_last();
        let x = order.last();
        assert forall|a: int, b: int| 0 <= a < b < head.len() implies {
            ||| lex_lt(keys[#[trigger] head[a]], keys[#[trigger] head[b]])
            ||| keys[head[a]] == keys[head[b]] && head[a] < head[b]
        } by {
            assert(head[a] == order[a] && head[b] == order[b]);
        }
        lemma_collapse_keeps_order(head, names, ignore_case, keys);
        let before = collapse(head, names, ignore_case);
        assert forall|i: int| 0 <= i < before.len() implies order.contains(
            #[trigger] before[i],
        ) by {
            let j = choose|j: int| 0 <= j < head.len() && head[j] == before[i];
            assert(order[j] == before[i]);
        }
        if before.len() > 0 && same_key(ignore_case, names[x], names[before.last()]) {
            assert(kept == before);
        } else {
            assert(kept == before.push(x));
            assert(order[order.len() - 1] == x);
            assert forall|i: int| 0 <= i < kept.len() implies order.contains(
                #[trigger] kept[i],
            ) by {
                if i < before.len() {
                    assert(kept[i] == before[i]);
                }
            }
            assert forall|a: int, b: int| 0 <= a < b < kept.len() implies {
                ||| lex_lt(keys[#[trigger] kept[a]], keys[#[trigger] kept[b]])
                ||| keys[kept[a]] == keys[kept[b]] && kept[a] < kept[b]
            } by {
                if b < before.len() {
                    assert(kept[a] == before[a] && kept[b] == before[b]);
                } else {
                    assert(kept[a] == before[a]);
                    let j = choose|j: int| 0 <= j < head.len() && head[j] == before[a];
                    assert(order[j] == kept[a]);
                }
            }
            assert forall|a: int| 0 < a < kept.len() implies !same_key(
                ignore_case,
                names[#[trigger] kept[a]],
                names[kept[a - 1]],
            ) by {
                if a < before.len() {
                    assert(kept[a] == before[a] && kept[a - 1] == before[a - 1]);
                } else {
                    assert(kept[a - 1] == before.last());
                }
            }
        }
    }
}

/// Collapsing equal keys of an order that is in order leaves every key
/// once: the kept keys ascend strictly, and every key that was listed is
/// the key at a kept position.
pub proof fn lemma_collapse_equal_keys(order: Seq<int>, keys: Seq<Seq<char>>)
    requires
        in_order(order, keys),
    ensures
        strictly_in_order(collapse(order, keys, false), keys),
        forall|j: int|
            0 <= j < order.len() ==> exists|i: int|
                0 <= i < collapse(order, keys, false).len() && keys[collapse(
                    order,
                    keys,
                    false,
                )[i]] == keys[#[trigger] order[j]],
    decreases order.len(),
{
    let kept = collapse(order, keys, false);
    if order.len() > 0 {
        let head = order.drop_last();
        let x = order.last();
        assert forall|a: int, b: int| 0 <= a < b < head.len() implies {
            ||| lex_lt(keys[#[trigger] head[a]], keys[#[trigger] head[b]])
            ||| keys[head[a]] == keys[head[b]] && head[a] < head[b]
        } by {
            assert(head[a] == order[a] && head[b] == order[b]);
        }
        lemma_collapse_equal_keys(head, keys);
        lemma_collapse_keeps_order(head, keys, false, keys);
        let before = collapse(head, keys, false);
        if before.len() > 0 && keys[x] == keys[before.last()] {
            assert(kept == before);
            assert forall|j: int| 0 <= j < order.len() implies exists|i: int|
                0 <= i < kept.len() && keys[kept[i]] == keys[#[trigger] order[j]] by {
                if j < head.len() {
                    assert(head[j] == order[j]);
                    let i = choose|i: int|
                        0 <= i < before.len() && keys[before[i]] == keys[head[j]];
                    assert(keys[kept[i]] == keys[order[j]]);
                } else {
                    assert(keys[kept[before.len() - 1]] == keys[order[j]]);
                }
            }
        } else {
            assert(kept == before.push(x));
            assert forall|a: int, b: int| 0 <= a < b < kept.len() implies lex_lt(
                keys[#[trigger] kept[a]],
                keys[#[trigger] kept[b]],
            ) by {
                if b < before.len() {
                    assert(kept[a] == before[a] && kept[b] == before[b]);
                } else {
                    let last = before.last();
                    let j = choose|j: int| 0 <= j < head.len() && head[j] == last;
                    assert(order[j] == last);
                    assert(order[order.len() - 1] == x);
                    assert(lex_lt(keys[last], keys[x]));
                    assert(kept[a] == before[a]);
                    if a < before.len() - 1 {
                        assert(before[before.len() - 1] == last);
                        lemma_lex_lt_transitive(keys[before[a]], keys[last], keys[x]);
                    }
                }
            }
            assert forall|j: int| 0 <= j < order.len() implies exists|i: int|
                0 <= i < kept.len() && keys[kept[i]] == keys[#[trigger] order[j]] by {
                if j < head.len() {
                    assert(head[j] == order[j]);
                    let i = choose|i: int|
                        0 <= i < before.len() && keys[before[i]] == keys[head[j]];
                    assert(kept[i] == before[i]);
                    assert(keys[kept[i]] == keys[order[j]]);
                } else {
                    assert(keys[kept[before.len() as int]] == keys[order[j]]);
                }
            }
        }
    }
}

/// The lowercase forms of the names at the listed positions never descend.
pub open spec fn by_lowercase(order: Seq<int>, names: Seq<Seq<char>>) -> bool {
    forall|a: int, b: int|
        0 <= a < b < order.len() ==> !lex_lt(
            lowercase(names[#[trigger] order[b]]),
            lowercase(names[#[trigger] order[a]]),
        )
}

/// The order in which names are shown lists positions of names, and the
/// lowercase forms of the names never descend along it. Without merging it
/// lists every position once; with merging, no name equals the one before
/// it up to ASCII case.
pub proof fn lemma_arranged(names: Seq<Seq<char>>, merge: bool)
    ensures
        positions_below(arranged(names, merge), names.len() as int),
        arranged(names, merge).no_duplicates(),
        by_lowercase(arranged(names, merge), names),
        !merge ==> arranged(names, merge).len() == names.len() && forall|x: int|
            0 <= x < names.len() ==> arranged(names, merge).contains(x),
        merge ==> forall|a: int|
            0 < a < arranged(names, merge).len() ==> !eq_ignore_ascii_case(
                names[#[trigger] arranged(names, merge)[a]],
                names[arranged(names, merge)[a - 1]],
            ),
{
    let keys = lower_keys(names);
    let sorted = sorted_order(keys);
    let order = arranged(names, merge);
    lemma_sorted_order_sorts(keys, keys.len());
    if merge {
        lemma_collapse_keeps_order(sorted, names, true, keys);
        assert forall|i: int| 0 <= i < order.len() implies 0 <= #[trigger] order[i]
            < names.len() by {
            let j = choose|j: int| 0 <= j < sorted.len() && sorted[j] == order[i];
            assert(0 <= sorted[j] < names.len());
        }
    }
    assert forall|a: int, b: int| 0 <= a < b < order.len() implies !lex_lt(
        lowercase(names[#[trigger] order[b]]),
        lowercase(names[#[trigger] order[a]]),
    ) && order[a] != order[b] by {
        let low = keys[order[a]];
        let high = keys[order[b]];
        lemma_lex_lt_irreflexive(low);
        if lex_lt(high, low) && lex_lt(low, high) {
            lemma_lex_lt_transitive(low, high, low);
        }
    }
}

/// Whether `a` comes strictly before `b`.
pub fn less_chars(a: &Vec<char>, b: &Vec<char>) -> (less: bool)
    ensures
        less == lex_lt(a@, b@),
{
    let mut i: usize = 0;
    assert(a@.skip(0) == a@);
    assert(b@.skip(0) == b@);
    loop
        invariant
            i <= a.len(),
            i <= b.len(),
            lex_lt(a@, b@) == lex_lt(a@.skip(i as int), b@.skip(i as int)),
        decreases a.len() - i,
    {
        if i >= b.len() {
            return false;
        }
        if i >= a.len() {
            return true;
        }
        assert(a@.skip(i as int)[0] == a@[i as int]);
        assert(b@.skip(i as int)[0] == b@[i as int]);
        if a[i] != b[i] {
            return a[i] < b[i];
        }
        assert(a@.skip(i as int).drop_first() == a@.skip(i + 1));
        assert(b@.skip(i as int).drop_first() == b@.skip(i + 1));
        i += 1;
    }
}

/// The characters of each text.
pub fn chars_of_each(texts: &Vec<String>) -> (chars: Vec<Vec<char>>)
    ensures
        chars.len() == texts.len(),
        forall|j: int| 0 <= j < texts.len() ==> (#[trigger] chars@[j])@ == texts@[j]@,
{
    let mut chars: Vec<Vec<char>> = Vec::new();
    let mut i: usize = 0;
    while i < texts.len()
        invariant
            i <= texts.len(),
            chars.len() == i,
            forall|j: int| 0 <= j < i ==> (#[trigger] chars@[j])@ == texts@[j]@,
        decreases texts.len() - i,
    {
        chars.push(chars_of(texts[i].as_str()));
        i += 1;
    }
    chars
}

/// The positions of `keys` in ascending order, equal keys in the order in
/// which they stand.
pub fn stable_order(keys: &Vec<String>) -> (order: Vec<usize>)
    ensures
        as_ints(order@) == sorted_order(keys.deep_view()),
        order.len() == keys.len(),
        positions_below(as_ints(order@), keys.len() as int),
{
    let chars = chars_of_each(keys);
    let ghost texts = keys.deep_view();
    let mut order: Vec<usize> = Vec::new();
    let mut i: usize = 0;
    assert(as_ints(order@) =~= sorted_order_upto(texts, 0));
    while i < keys.len()
        invariant
            texts == keys.deep_view(),
            chars.len() == keys.len(),
            forall|j: int| 0 <= j < keys.len() ==> (#[trigger] chars@[j])@ == texts[j],
            i <= keys.len(),
            order.len() == i,
            as_ints(order@) == sorted_order_upto(texts, i as nat),
            positions_below(as_ints(order@), i as int),
        decreases keys.len() - i,
    {
        let ghost before = as_ints(order@);
        let mut at: usize = order.len();
        assert(before.take(at as int) == before);
        assert(before.skip(at as int) =~= Seq::<int>::empty());
        while at > 0 && less_chars(&chars[i], &chars[order[at - 1]])
            invariant
                texts == keys.deep_view(),
                chars.len() == keys.len(),
                forall|j: int| 0 <= j < keys.len() ==> (#[trigger] chars@[j])@ == texts[j],
                i < keys.len(),
                order.len() == i,
                before == as_ints(order@),
                positions_below(before, i as int),
                at <= order.len(),
                insert_sorted(before, texts, i as int) == insert_sorted(
                    before.take(at as int),
                    texts,
                    i as int,
                ) + before.skip(at as int),
            decreases at,
        {
            proof {
                let head = before.take(at as int);
                assert(head.last() == before[at - 1]);
                assert(head.drop_last() == before.take(at - 1));
                assert(insert_sorted(head, texts, i as int) == insert_sorted(
                    head.drop_last(),
                    texts,
                    i as int,
                ).push(head.last()));
                assert(seq![before[at - 1]] + before.skip(at as int) == before.skip(at - 1));
            }
            at -= 1;
        }
        proof {
            let head = before.take(at as int);
            if at > 0 {
                assert(head.last() == before[at - 1]);
            }
            assert(insert_sorted(head, texts, i as int) == head.push(i as int));
            assert(head.push(i as int) + before.skip(at as int) == before.insert(
                at as int,
                i as int,
            ));
            lemma_insert_sorted_positions(before, texts, i as int, i + 1);
        }
        order.insert(at, i);
        assert(as_ints(order@) == before.insert(at as int, i as int));
        i += 1;
    }
    order
}

/// `order` without each position whose name counts as the same as the name
/// at the position kept just before it.
pub fn collapse_order(order: &Vec<usize>, names: &Vec<String>, ignore_case: bool) -> (kept: Vec<
    usize,
>)
    requires
        positions_below(as_ints(order@), names.len() as int),
    ensures
        as_ints(kept@) == collapse(as_ints(order@), names.deep_view(), ignore_case),
        positions_below(as_ints(kept@), names.len() as int),
        kept.len() <= order.len(),
{
    let ghost all = as_ints(order@);
    let ghost texts = names.deep_view();
    let mut kept: Vec<usize> = Vec::new();
    let mut i: usize = 0;
    assert(as_ints(kept@) =~= collapse(all.take(0), texts, ignore_case));
    while i < order.len()
        invariant
            all == as_ints(order@),
            texts == names.deep_view(),
            positions_below(all, names.len() as int),
            i <= order.len(),
            kept.len() <= i,
            as_ints(kept@) == collapse(all.take(i as int), texts, ignore_case),
            positions_below(as_ints(kept@), names.len() as int),
        decreases order.len() - i,
    {
        let x: usize = order[i];
        assert(all[i as int] == x);
        proof {
            let upto = all.take(i + 1);
            assert(upto.drop_last() == all.take(i as int));
            assert(upto.last() == x);
        }
        let ghost before = as_ints(kept@);
        let mut same: bool = false;
        if kept.len() > 0 {
            let last: usize = kept[kept.len() - 1];
            assert(before.last() == last);
            assert(before[kept.len() - 1] == last);
            same = if ignore_case {
                same_text_ignoring_ascii_case(names[x].as_str(), names[last].as_str())
            } else {
                same_text(names[x].as_str(), names[last].as_str())
            };
        }
        if !same {
            kept.push(x);
            assert(as_ints(kept@) == before.push(x as int));
        }
        i += 1;
    }
    assert(all.take(order.len() as int) == all);
    kept
}

/// The lowercase form of each name.
pub fn lower_keys_of(names: &Vec<String>) -> (keys: Vec<String>)
    ensures
        keys.deep_view() == lower_keys(names.deep_view()),
{
    let mut keys: Vec<String> = Vec::new();
    let mut i: usize = 0;
    while i < names.len()
        invariant
            i <= names.len(),
            keys.len() == i,
            forall|j: int| 0 <= j < i ==> keys@[j]@ == lowercase(names@[j]@),
        decreases names.len() - i,
    {
        keys.push(to_lowercase(names[i].as_str()));
        i += 1;
    }
    assert(keys.deep_view() =~= lower_keys(names.deep_view()));
    keys
}

/// The order in which a list of names is shown.
pub fn arrange(names: &Vec<String>, merge: bool) -> (order: Vec<usize>)
    ensures
        as_ints(order@) == arranged(names.deep_view(), merge),
        positions_below(as_ints(order@), names.len() as int),
{
    let keys = lower_keys_of(names);
    let sorted = stable_order(&keys);
    if merge {
        collapse_order(&sorted, names, true)
    } else {
        sorted
    }
}

} // verus!
