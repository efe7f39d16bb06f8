//! Samples in order of time, in buckets, and by core.
//!
//! A measurement with a fraction is stood for by an integer key: keys are ordered
//! as the measurements are, and the key of zero is zero.

use super::text::{chars_of, texts};
use vstd::prelude::*;

verus! {

/// Whether sample `a` comes before sample `b`: by key, and samples of one key in
/// the order in which they were given.
pub open spec fn precedes(keys: Seq<i128>, a: usize, b: usize) -> bool {
    keys[a as int] < keys[b as int] || (keys[a as int] == keys[b as int] && a < b)
}

/// Whether a list of samples is in order.
pub open spec fn ordered(keys: Seq<i128>, items: Seq<usize>) -> bool {
    forall|i: int, j: int| 0 <= i < j < items.len() ==> precedes(keys, items[i], items[j])
}

/// Whether every item of `items` is a sample.
pub open spec fn in_range(keys: Seq<i128>, items: Seq<usize>) -> bool {
    forall|i: int| 0 <= i < items.len() ==> (#[trigger] items[i]) < keys.len()
}

/// Merges two lists that are in order.
fn merge(keys: &[i128], x: &Vec<usize>, y: &Vec<usize>) -> (r: Vec<usize>)
    requires
        in_range(keys@, x@),
        in_range(keys@, y@),
        ordered(keys@, x@),
        ordered(keys@, y@),
        forall|i: int, j: int| 0 <= i < x@.len() && 0 <= j < y@.len() ==> x@[i] != y@[j],
    ensures
        ordered(keys@, r@),
        r@.to_multiset() == x@.to_multiset().add(y@.to_multiset()),
{
    let mut r: Vec<usize> = Vec::with_capacity(x.len());
    let mut i: usize = 0;
    let mut j: usize = 0;
    proof {
        assert(x@.take(0) =~= seq![]);
        assert(y@.take(0) =~= seq![]);
        vstd::seq_lib::lemma_multiset_commutative(x@.take(0), y@.take(0));
        assert(r@ =~= x@.take(0) + y@.take(0));
    }
    while i < x.len() || j < y.len()
        invariant
            i <= x@.len(),
            j <= y@.len(),
            in_range(keys@, x@),
            in_range(keys@, y@),
            ordered(keys@, x@),
            ordered(keys@, y@),
            forall|p: int, q: int| 0 <= p < x@.len() && 0 <= q < y@.len() ==> x@[p] != y@[q],
            ordered(keys@, r@),
            r@.to_multiset() == x@.take(i as int).to_multiset().add(
                y@.take(j as int).to_multiset(),
            ),
            forall|k: int, p: int|
                0 <= k < r@.len() && i <= p < x@.len() ==> precedes(keys@, r@[k], x@[p]),
            forall|k: int, q: int|
                0 <= k < r@.len() && j <= q < y@.len() ==> precedes(keys@, r@[k], y@[q]),
        decreases x@.len() - i + y@.len() - j,
    {
        let ghost before = r@;
        let from_x = if i == x.len() {
            false
        } else if j == y.len() {
            true
        } else {
            let a = x[i];
            let b = y[j];
            keys[a] < keys[b] || (keys[a] == keys[b] && a < b)
        };
        if from_x {
            let a = x[i];
            r.push(a);
            proof {
                assert(x@.take(i + 1) =~= x@.take(i as int).push(a));
                x@.take(i as int).to_multiset_ensures();
                before.to_multiset_ensures();
                assert(r@.to_multiset() =~= x@.take(i + 1).to_multiset().add(
                    y@.take(j as int).to_multiset(),
                ));
                assert forall|q: int| j <= q < y@.len() implies precedes(keys@, a, y@[q]) by {
                    assert(q > j ==> precedes(keys@, y@[j as int], y@[q]));
                }
            }
            i += 1;
        } else {
            let b = y[j];
            r.push(b);
            proof {
                assert(y@.take(j + 1) =~= y@.take(j as int).push(b));
                y@.take(j as int).to_multiset_ensures();
                before.to_multiset_ensures();
                assert(r@.to_multiset() =~= x@.take(i as int).to_multiset().add(
                    y@.take(j + 1).to_multiset(),
                ));
                assert forall|p: int| i <= p < x@.len() implies precedes(keys@, b, x@[p]) by {
                    assert(x@[i as int] != b);
                    assert(p > i ==> precedes(keys@, x@[i as int], x@[p]));
                }
            }
            j += 1;
        }
    }
    assert(x@.take(i as int) =~= x@);
    assert(y@.take(j as int) =~= y@);
    r
}

/// Puts samples in order.
pub fn sort_items(keys: &[i128], items: &[usize]) -> (r: Vec<usize>)
    requires
        in_range(keys@, items@),
        items@.no_duplicates(),
    ensures
        ordered(keys@, r@),
        r@.to_multiset() == items@.to_multiset(),
    decreases items@.len(),
{
    let n = items.len();
    if n <= 1 {
        let mut r: Vec<usize> = Vec::new();
        if n == 1 {
            r.push(items[0]);
        }
        assert(r@ =~= items@);
        return r;
    }
    let half = n / 2;
    let (left, right) = items.split_at(half);
    let x = sort_items(keys, left);
    let y = sort_items(keys, right);
    proof {
        assert(items@ =~= left@ + right@);
        vstd::seq_lib::lemma_multiset_commutative(left@, right@);
        x@.to_multiset_ensures();
        y@.to_multiset_ensures();
        left@.to_multiset_ensures();
        right@.to_multiset_ensures();
        assert forall|i: int| 0 <= i < x@.len() implies left@.contains(#[trigger] x@[i]) by {
            assert(x@.to_multiset().count(x@[i]) > 0);
        }
        assert forall|j: int| 0 <= j < y@.len() implies right@.contains(#[trigger] y@[j]) by {
            assert(y@.to_multiset().count(y@[j]) > 0);
        }
        assert forall|i: int, j: int| 0 <= i < x@.len() && 0 <= j < y@.len() implies x@[i]
            != y@[j] by {
            let p = choose|p: int| 0 <= p < left@.len() && left@[p] == x@[i];
            let q = choose|q: int| 0 <= q < right@.len() && right@[q] == y@[j];
            assert(left@[p] == items@[p]);
            assert(right@[q] == items@[half + q]);
        }
    }
    merge(keys, &x, &y)
}

/// The order of all samples: by key, and samples of one key in the order in which
/// they were given.
pub fn stable_order(keys: &[i128]) -> (r: Vec<usize>)
    ensures
        ordered(keys@, r@),
        r@.len() == keys@.len(),
        in_range(keys@, r@),
        forall|i: usize| i < keys@.len() ==> r@.contains(i),
{
    let mut all: Vec<usize> = Vec::with_capacity(keys.len());
    let mut i: usize = 0;
    while i < keys.len()
        invariant
            i <= keys@.len(),
            all@.len() == i,
            forall|k: int| 0 <= k < i ==> #[trigger] all@[k] == k,
        decreases keys@.len() - i,
    {
        all.push(i);
        i += 1;
    }
    let r = sort_items(keys, all.as_slice());
    proof {
        all@.to_multiset_ensures();
        r@.to_multiset_ensures();
        assert forall|k: int| 0 <= k < r@.len() implies (#[trigger] r@[k]) < keys@.len() by {
            assert(r@.to_multiset().count(r@[k]) > 0);
            assert(all@.contains(r@[k]));
        }
        assert forall|k: usize| k < keys@.len() implies r@.contains(k) by {
            assert(all@[k as int] == k);
            assert(all@.to_multiset().count(k) > 0);
        }
    }
    r
}

/// The samples of one time.
#[derive(Clone, Debug, PartialEq, Eq)]
pub struct Bucket {
    pub key: i128,
    pub members: Vec<usize>,
}

/// Whether `buckets` hold samples by key: the keys rise, and each bucket holds
/// samples of its key, at least one, in the order in which they were given.
pub open spec fn buckets_of(keys: Seq<i128>, buckets: Seq<Bucket>) -> bool {
    &&& forall|a: int, b: int| 0 <= a < b < buckets.len() ==> buckets[a].key < buckets[b].key
    &&& forall|a: int| 0 <= a < buckets.len() ==> (#[trigger] buckets[a]).members@.len() > 0
    &&& forall|a: int, i: int|
        0 <= a < buckets.len() && 0 <= i < buckets[a].members@.len() ==> {
            &&& (#[trigger] buckets[a].members@[i]) < keys.len()
            &&& keys[buckets[a].members@[i] as int] == buckets[a].key
        }
    &&& forall|a: int, i: int, j: int|
        0 <= a < buckets.len() && 0 <= i < j < buckets[a].members@.len()
            ==> #[trigger] buckets[a].members@[i] < #[trigger] buckets[a].members@[j]
}

/// Whether sample `i` is in a bucket.
pub open spec fn bucketed(buckets: Seq<Bucket>, i: usize) -> bool {
    exists|a: int| 0 <= a < buckets.len() && (#[trigger] buckets[a]).members@.contains(i)
}

/// Groups samples by key.
pub fn bucket_by_key(keys: &[i128]) -> (r: Vec<Bucket>)
    ensures
        buckets_of(keys@, r@),
        forall|i: usize| i < keys@.len() ==> bucketed(r@, i),
{
    let order = stable_order(keys);
    let mut r: Vec<Bucket> = Vec::new();
    let mut k: usize = 0;
    while k < order.len()
        invariant
            k <= order@.len(),
            ordered(keys@, order@),
            in_range(keys@, order@),
            buckets_of(keys@, r@),
            r@.len() == 0 <==> k == 0,
            k > 0 ==> r@.last().members@.last() == order@[k - 1],
            forall|j: int| 0 <= j < k ==> bucketed(r@, #[trigger] order@[j]),
        decreases order@.len() - k,
    {
        let ghost before = r@;
        let i = order[k];
        proof {
            if k > 0 {
                assert(precedes(keys@, order@[k - 1], order@[k as int]));
                let last = before.last();
                assert(keys@[last.members@[last.members@.len() - 1] as int] == last.key);
            }
        }
        let mut joined = false;
        if let Some(last) = r.pop() {
            let mut last = last;
            if last.key == keys[i] {
                let ghost members = last.members@;
                last.members.push(i);
                joined = true;
                assert forall|x: int, y: int|
                    0 <= x < y < last.members@.len() implies #[trigger] last.members@[x]
                    < #[trigger] last.members@[y] by {
                    let a = before.len() - 1;
                    assert(members == before[a].members@);
                    if y < members.len() {
                        assert(before[a].members@[x] < before[a].members@[y]);
                    } else if x < members.len() - 1 {
                        assert(before[a].members@[x] < before[a].members@[members.len() - 1]);
                    }
                }
            }
            r.push(last);
        }
        if !joined {
            r.push(Bucket { key: keys[i], members: vec![i] });
        }
        proof {
            let top = r@.len() - 1;
            assert(r@[top].members@.last() == i);
            assert(forall|a: int| 0 <= a < top ==> r@[a] == before[a]);
            assert forall|j: int| 0 <= j < k + 1 implies bucketed(r@, #[trigger] order@[j]) by {
                if j == k {
                    assert(r@[top].members@.contains(i));
                } else {
                    assert(bucketed(before, order@[j]));
                    let a = choose|a: int|
                        0 <= a < before.len() && (#[trigger] before[a]).members@.contains(
                            order@[j],
                        );
                    let x = choose|x: int|
                        0 <= x < before[a].members@.len() && before[a].members@[x] == order@[j];
                    assert(r@[a].members@[x] == order@[j]);
                }
            }
        }
        k += 1;
    }
    assert forall|i: usize| i < keys@.len() implies bucketed(r@, i) by {
        assert(order@.contains(i));
    }
    r
}

/// Whether `bucket` is that of the largest key: it holds exactly the samples of that
/// key, in the order in which they were given.
pub open spec fn is_latest(keys: Seq<i128>, bucket: Bucket) -> bool {
    &&& forall|i: int| 0 <= i < keys.len() ==> #[trigger] keys[i] <= bucket.key
    &&& bucket.members@.len() > 0
    &&& forall|j: int|
        0 <= j < bucket.members@.len() ==> (#[trigger] bucket.members@[j]) < keys.len()
            && keys[bucket.members@[j] as int] == bucket.key
    &&& forall|j: int, k: int|
        0 <= j < k < bucket.members@.len() ==> #[trigger] bucket.members@[j]
            < #[trigger] bucket.members@[k]
    &&& forall|i: usize|
        i < keys.len() && keys[i as int] == bucket.key ==> #[trigger] bucket.members@.contains(i)
}

/// The samples of the latest time; none where there is no sample.
pub fn latest_bucket(keys: &[i128]) -> (r: Option<Bucket>)
    ensures
        r is None <==> keys@.len() == 0,
        r matches Some(bucket) ==> is_latest(keys@, bucket),
{
    if keys.len() == 0 {
        return None;
    }
    let mut buckets = bucket_by_key(keys);
    let ghost all = buckets@;
    let r = buckets.pop();
    proof {
        assert(bucketed(all, 0));
        let top = all.len() - 1;
        assert forall|i: int| 0 <= i < keys@.len() implies #[trigger] keys@[i] <= all[top].key && (
        keys@[i] == all[top].key ==> all[top].members@.contains(i as usize)) by {
            assert(bucketed(all, i as usize));
            let a = choose|a: int|
                0 <= a < all.len() && (#[trigger] all[a]).members@.contains(i as usize);
            let x = choose|x: int|
                0 <= x < all[a].members@.len() && all[a].members@[x] == i as usize;
            assert(keys@[all[a].members@[x] as int] == all[a].key);
            assert(a < top ==> all[a].key < all[top].key);
        }
    }
    r
}

/// Whether text `a` comes before text `b`: at the first character in which they
/// differ, or by being shorter.
pub open spec fn text_before(a: Seq<char>, b: Seq<char>) -> bool
    decreases a.len(),
{
    if b.len() == 0 {
        false
    } else if a.len() == 0 {
        true
    } else if a[0] == b[0] {
        text_before(a.skip(1), b.skip(1))
    } else {
        (a[0] as int) < (b[0] as int)
    }
}

/// The order of texts is transitive.
pub proof fn lemma_text_before_transitive(a: Seq<char>, b: Seq<char>, c: Seq<char>)
    requires
        text_before(a, b),
        text_before(b, c),
    ensures
        text_before(a, c),
    decreases a.len(),
{
    if a.len() > 0 && a[0] == b[0] && b[0] == c[0] {
        lemma_text_before_transitive(a.skip(1), b.skip(1), c.skip(1));
    }
}

/// Of two different texts one comes before the other, and only one.
pub proof fn lemma_text_before_total(a: Seq<char>, b: Seq<char>)
    ensures
        a != b ==> text_before(a, b) != text_before(b, a),
        a == b ==> !text_before(a, b),
    decreases a.len(),
{
    if a.len() > 0 && b.len() > 0 && a[0] == b[0] {
        lemma_text_before_total(a.skip(1), b.skip(1));
        if a.skip(1) == b.skip(1) {
            assert(a =~= seq![a[0]] + a.skip(1));
            assert(b =~= seq![b[0]] + b.skip(1));
        }
    } else if a.len() == 0 && b.len() == 0 {
        assert(a =~= b);
    }
}

/// Whether `a` comes before `b`.
pub fn is_text_before(a: &str, b: &str) -> (r: bool)
    ensures
        r == text_before(a@, b@),
{
    let x = chars_of(a);
    let y = chars_of(b);
    let mut i: usize = 0;
    proof {
        assert(x@.skip(0) =~= x@);
        assert(y@.skip(0) =~= y@);
    }
    while i < x.len() && i < y.len()
        invariant
            i <= x@.len(),
            i <= y@.len(),
            x@ == a@,
            y@ == b@,
            text_before(x@, y@) == text_before(x@.skip(i as int), y@.skip(i as int)),
        decreases x@.len() - i,
    {
        let c = x[i];
        let d = y[i];
        assert(x@.skip(i as int)[0] == c);
        assert(y@.skip(i as int)[0] == d);
        if c != d {
            return c < d;
        }
        proof {
            assert(x@.skip(i as int).skip(1) =~= x@.skip(i + 1));
            assert(y@.skip(i as int).skip(1) =~= y@.skip(i + 1));
        }
        i += 1;
    }
    i < y.len()
}

/// The samples of one core, in order of time.
#[derive(Clone, Debug, PartialEq, Eq)]
pub struct CpuGroup {
    pub cpu: String,
    pub members: Vec<usize>,
}

/// Whether `groups` hold samples by core: the cores are in order of their names,
/// and each group holds samples of its core, at least one.
pub open spec fn groups_of(cpus: Seq<Seq<char>>, groups: Seq<CpuGroup>) -> bool {
    &&& forall|a: int, b: int|
        0 <= a < b < groups.len() ==> text_before(
            (#[trigger] groups[a]).cpu@,
            (#[trigger] groups[b]).cpu@,
        )
    &&& forall|a: int| 0 <= a < groups.len() ==> (#[trigger] groups[a]).members@.len() > 0
    &&& forall|a: int, i: int|
        0 <= a < groups.len() && 0 <= i < groups[a].members@.len() ==> {
            &&& (#[trigger] groups[a].members@[i]) < cpus.len()
            &&& cpus[groups[a].members@[i] as int] == groups[a].cpu@
        }
}

/// Whether the samples of every group are in order of time.
pub open spec fn groups_ordered(keys: Seq<i128>, groups: Seq<CpuGroup>) -> bool {
    forall|a: int| 0 <= a < groups.len() ==> ordered(keys, (#[trigger] groups[a]).members@)
}

/// Whether sample `i` is in a group.
pub open spec fn grouped(groups: Seq<CpuGroup>, i: usize) -> bool {
    exists|a: int| 0 <= a < groups.len() && (#[trigger] groups[a]).members@.contains(i)
}

/// Where the core `cpu` is in `groups`, or is to be inserted.
fn find_group(groups: &Vec<CpuGroup>, cpu: &String, Ghost(cpus): Ghost<Seq<Seq<char>>>) -> (r: (
    usize,
    bool,
))
    requires
        groups_of(cpus, groups@),
    ensures
        r.0 <= groups@.len(),
        r.1 ==> r.0 < groups@.len() && groups@[r.0 as int].cpu@ == cpu@,
        forall|a: int| 0 <= a < r.0 ==> text_before((#[trigger] groups@[a]).cpu@, cpu@),
        !r.1 ==> forall|a: int|
            r.0 <= a < groups@.len() ==> text_before(cpu@, (#[trigger] groups@[a]).cpu@),
{
    let mut at: usize = 0;
    while at < groups.len() && is_text_before(groups[at].cpu.as_str(), cpu.as_str())
        invariant
            at <= groups@.len(),
            forall|a: int| 0 <= a < at ==> text_before((#[trigger] groups@[a]).cpu@, cpu@),
        ensures
            at == groups@.len() || !text_before(groups@[at as int].cpu@, cpu@),
        decreases groups@.len() - at,
    {
        at += 1;
    }
    if at == groups.len() {
        return (at, false);
    }
    let found = groups[at].cpu == *cpu;
    proof {
        lemma_text_before_total(groups@[at as int].cpu@, cpu@);
        if !found {
            assert forall|a: int| at <= a < groups@.len() implies text_before(
                cpu@,
                (#[trigger] groups@[a]).cpu@,
            ) by {
                if a > at {
                    lemma_text_before_transitive(
                        cpu@,
                        groups@[at as int].cpu@,
                        groups@[a].cpu@,
                    );
                }
            }
        }
    }
    (at, found)
}

/// Groups samples by core, each core's samples in the order in which they were
/// given.
fn collect_groups(cpus: &[String]) -> (r: Vec<CpuGroup>)
    ensures
        groups_of(texts(cpus@), r@),
        forall|i: usize| i < cpus@.len() ==> grouped(r@, i),
        forall|a: int| 0 <= a < r@.len() ==> (#[trigger] r@[a]).members@.no_duplicates(),
{
    let ghost names = texts(cpus@);
    let mut groups: Vec<CpuGroup> = Vec::new();
    let mut i: usize = 0;
    while i < cpus.len()
        invariant
            i <= cpus@.len(),
            names == texts(cpus@),
            groups_of(names, groups@),
            forall|k: usize| k < i ==> grouped(groups@, k),
            forall|a: int, k: int|
                0 <= a < groups@.len() && 0 <= k < groups@[a].members@.len() ==> (
                #[trigger] groups@[a].members@[k]) < i,
            forall|a: int| 0 <= a < groups@.len() ==> (
            #[trigger] groups@[a]).members@.no_duplicates(),
        decreases cpus@.len() - i,
    {
        let ghost before = groups@;
        let (at, found) = find_group(&groups, &cpus[i], Ghost(names));
        if found {
            groups[at].members.push(i);
            proof {
                let members = before[at as int].members@;
                assert(groups@ =~= before.update(at as int, groups@[at as int]));
                assert(groups@[at as int].members@ == members.push(i));
                assert(groups@[at as int].members@[members.len() as int] == i);
                assert forall|k: usize| k < i + 1 implies grouped(groups@, k) by {
                    if k < i {
                        assert(grouped(before, k));
                        let a = choose|a: int|
                            0 <= a < before.len() && (#[trigger] before[a]).members@.contains(k);
                        let x = choose|x: int|
                            0 <= x < before[a].members@.len() && before[a].members@[x] == k;
                        assert(groups@[a].members@[x] == k);
                    } else {
                        assert(groups@[at as int].members@.contains(i));
                    }
                }
            }
        } else {
            let group = CpuGroup { cpu: cpus[i].clone(), members: vec![i] };
            groups.insert(at, group);
            proof {
                assert(groups@ == before.insert(at as int, group));
                assert(forall|a: int| 0 <= a < at ==> groups@[a] == before[a]);
                assert(forall|a: int| at < a < groups@.len() ==> groups@[a] == before[a - 1]);
                assert(group.members@[0] == i);
                assert forall|k: usize| k < i + 1 implies grouped(groups@, k) by {
                    if k < i {
                        assert(grouped(before, k));
                        let a = choose|a: int|
                            0 <= a < before.len() && (#[trigger] before[a]).members@.contains(k);
                        if a < at {
                            assert(groups@[a].members@.contains(k));
                        } else {
                            assert(groups@[a + 1].members@.contains(k));
                        }
                    } else {
                        assert(groups@[at as int].members@.contains(i));
                    }
                }
            }
        }
        i += 1;
    }
    groups
}

/// Groups samples by core, each core's samples in order of time.
pub fn group_by_cpu(cpus: &[String], keys: &[i128]) -> (r: Vec<CpuGroup>)
    requires
        cpus@.len() == keys@.len(),
    ensures
        groups_of(texts(cpus@), r@),
        groups_ordered(keys@, r@),
        forall|i: usize| i < cpus@.len() ==> grouped(r@, i),
{
    let groups = collect_groups(cpus);
    let ghost names = texts(cpus@);
    let mut r: Vec<CpuGroup> = Vec::with_capacity(groups.len());
    let mut a: usize = 0;
    while a < groups.len()
        invariant
            a <= groups@.len(),
            names == texts(cpus@),
            cpus@.len() == keys@.len(),
            groups_of(names, groups@),
            forall|b: int| 0 <= b < groups@.len() ==> (
            #[trigger] groups@[b]).members@.no_duplicates(),
            r@.len() == a,
            forall|b: int|
                0 <= b < a ==> (#[trigger] r@[b]).cpu@ == groups@[b].cpu@ && ordered(
                    keys@,
                    r@[b].members@,
                ) && r@[b].members@.to_multiset() == groups@[b].members@.to_multiset(),
        decreases groups@.len() - a,
    {
        let members = sort_items(keys, groups[a].members.as_slice());
        r.push(CpuGroup { cpu: groups[a].cpu.clone(), members });
        a += 1;
    }
    proof {
        assert forall|b: int, i: int| 0 <= b < r@.len() && 0 <= i < r@[b].members@.len() implies {
            &&& (#[trigger] r@[b].members@[i]) < names.len()
            &&& names[r@[b].members@[i] as int] == r@[b].cpu@
        } by {
            let m = r@[b].members@;
            m.to_multiset_ensures();
            groups@[b].members@.to_multiset_ensures();
            assert(m.to_multiset().count(m[i]) > 0);
            assert(groups@[b].members@.contains(m[i]));
        }
        assert forall|b: int| 0 <= b < r@.len() implies (#[trigger] r@[b]).members@.len() > 0 by {
            r@[b].members@.to_multiset_ensures();
            groups@[b].members@.to_multiset_ensures();
            assert(groups@[b].members@.len() > 0);
        }
        assert forall|b: int, c: int| 0 <= b < c < r@.len() implies text_before(
            (#[trigger] r@[b]).cpu@,
            (#[trigger] r@[c]).cpu@,
        ) by {
            assert(text_before(groups@[b].cpu@, groups@[c].cpu@));
        }
        assert forall|i: usize| i < cpus@.len() implies grouped(r@, i) by {
            assert(grouped(groups@, i));
            let b = choose|b: int|
                0 <= b < groups@.len() && (#[trigger] groups@[b]).members@.contains(i);
            r@[b].members@.to_multiset_ensures();
            groups@[b].members@.to_multiset_ensures();
            assert(groups@[b].members@.to_multiset().count(i) > 0);
            assert(r@[b].members@.contains(i));
        }
    }
    r
}

/// One core's last sample.
#[derive(Clone, Copy, Debug, PartialEq, Eq, Structural)]
pub struct LastSample {
    pub elapsed: i128,
    pub execs: u64,
    pub coverage: i128,
    pub corpus_size: usize,
}

/// What a run comes to: the longest time, the sum of the executions, the best
/// coverage and the largest corpus over its cores.
#[derive(Clone, Copy, Debug, PartialEq, Eq, Structural)]
pub struct RunTotals {
    pub final_elapsed: i128,
    pub total_execs: u64,
    pub max_coverage: i128,
    pub final_corpus_size: usize,
}

impl RunTotals {
    /// The totals of no core.
    pub open spec fn none() -> RunTotals {
        RunTotals { final_elapsed: 0, total_execs: 0, max_coverage: 0, final_corpus_size: 0 }
    }

    /// These totals and one more core.
    pub open spec fn plus(self, last: LastSample) -> RunTotals {
        RunTotals {
            final_elapsed: if last.elapsed > self.final_elapsed {
                last.elapsed
            } else {
                self.final_elapsed
            },
            total_execs: (self.total_execs + last.execs) as u64,
            max_coverage: if last.coverage > self.max_coverage {
                last.coverage
            } else {
                self.max_coverage
            },
            final_corpus_size: if last.corpus_size > self.final_corpus_size {
                last.corpus_size
            } else {
                self.final_corpus_size
            },
        }
    }

    /// The totals of no core.
    pub fn new() -> (r: RunTotals)
        ensures
            r == RunTotals::none(),
    {
        RunTotals { final_elapsed: 0, total_execs: 0, max_coverage: 0, final_corpus_size: 0 }
    }

    /// Adds a core by its last sample.
    pub fn record_core(&mut self, last: LastSample)
        requires
            old(self).total_execs + last.execs <= u64::MAX,
        ensures
            *final(self) == old(self).plus(last),
    {
        if last.elapsed > self.final_elapsed {
            self.final_elapsed = last.elapsed;
        }
        self.total_execs = self.total_execs + last.execs;
        if last.coverage > self.max_coverage {
            self.max_coverage = last.coverage;
        }
        if last.corpus_size > self.final_corpus_size {
            self.final_corpus_size = last.corpus_size;
        }
    }
}

/// It does not matter which of two cores is added first.
pub proof fn law_totals_ignore_order(totals: RunTotals, a: LastSample, b: LastSample)
    requires
        totals.total_execs + a.execs + b.execs <= u64::MAX,
    ensures
        totals.plus(a).plus(b) == totals.plus(b).plus(a),
{
}

/// Samples have one order: two lists of the same samples that are in order are
/// the same list.
pub proof fn law_order_is_unique(keys: Seq<i128>, a: Seq<usize>, b: Seq<usize>)
    requires
        ordered(keys, a),
        ordered(keys, b),
        a.to_multiset() == b.to_multiset(),
    ensures
        a == b,
    decreases a.len(),
{
    a.to_multiset_ensures();
    b.to_multiset_ensures();
    if a.len() > 0 {
        let x = a.last();
        let y = b.last();
        assert(a.to_multiset().count(x) > 0);
        assert(b.to_multiset().count(y) > 0);
        assert(b.contains(x) && a.contains(y));
        let i = choose|i: int| 0 <= i < b.len() && b[i] == x;
        let j = choose|j: int| 0 <= j < a.len() && a[j] == y;
        if i < b.len() - 1 {
            assert(precedes(keys, x, y));
            assert(j < a.len() - 1);
            assert(precedes(keys, y, x));
        }
        assert(x == y);
        assert(a.drop_last() =~= a.remove(a.len() - 1));
        assert(b.drop_last() =~= b.remove(b.len() - 1));
        law_order_is_unique(keys, a.drop_last(), b.drop_last());
        assert(a =~= a.drop_last().push(x));
        assert(b =~= b.drop_last().push(y));
    } else {
        assert(a =~= b);
    }
}

/// A sample is in one bucket only.
pub proof fn law_sample_has_one_bucket(
    keys: Seq<i128>,
    buckets: Seq<Bucket>,
    a: int,
    b: int,
    i: usize,
)
    requires
        buckets_of(keys, buckets),
        0 <= a < buckets.len(),
        0 <= b < buckets.len(),
        buckets[a].members@.contains(i),
        buckets[b].members@.contains(i),
    ensures
        a == b,
{
    let x = choose|x: int| 0 <= x < buckets[a].members@.len() && buckets[a].members@[x] == i;
    let y = choose|y: int| 0 <= y < buckets[b].members@.len() && buckets[b].members@[y] == i;
    assert(keys[buckets[a].members@[x] as int] == buckets[a].key);
    assert(keys[buckets[b].members@[y] as int] == buckets[b].key);
}

/// A sample is in the group of one core only.
pub proof fn law_sample_has_one_group(
    cpus: Seq<Seq<char>>,
    groups: Seq<CpuGroup>,
    a: int,
    b: int,
    i: usize,
)
    requires
        groups_of(cpus, groups),
        0 <= a < groups.len(),
        0 <= b < groups.len(),
        groups[a].members@.contains(i),
        groups[b].members@.contains(i),
    ensures
        a == b,
{
    let x = choose|x: int| 0 <= x < groups[a].members@.len() && groups[a].members@[x] == i;
    let y = choose|y: int| 0 <= y < groups[b].members@.len() && groups[b].members@[y] == i;
    assert(cpus[groups[a].members@[x] as int] == groups[a].cpu@);
    assert(cpus[groups[b].members@[y] as int] == groups[b].cpu@);
    lemma_text_before_total(groups[a].cpu@, groups[b].cpu@);
}

/// Samples are in order exactly if their keys never fall and samples of one key are in
/// the order in which they were given, each once.
pub proof fn law_order_is_by_key_and_then_as_given(keys: Seq<i128>, items: Seq<usize>)
    ensures
        ordered(keys, items) <==> {
            &&& forall|i: int, j: int|
                0 <= i < j < items.len() ==> keys[#[trigger] items[i] as int] <= keys[
                #[trigger] items[j] as int]
            &&& forall|i: int, j: int|
                0 <= i < j < items.len() && keys[#[trigger] items[i] as int] == keys[
                #[trigger] items[j] as int] ==> items[i] < items[j]
        },
{
    if ordered(keys, items) {
        assert forall|i: int, j: int| 0 <= i < j < items.len() implies keys[
        #[trigger] items[i] as int] <= keys[#[trigger] items[j] as int] && (keys[items[i] as int]
            == keys[items[j] as int] ==> items[i] < items[j]) by {
            assert(precedes(keys, items[i], items[j]));
        }
    }
}

/// A text comes before another at the first character in which they differ, or by being
/// the start of it.
pub proof fn law_text_order(a: Seq<char>, b: Seq<char>, k: int)
    requires
        0 <= k <= a.len(),
        k <= b.len(),
        forall|i: int| 0 <= i < k ==> a[i] == b[i],
    ensures
        k == a.len() && k < b.len() ==> text_before(a, b),
        k == b.len() ==> !text_before(a, b),
        k < a.len() && k < b.len() && a[k] != b[k] ==> (text_before(a, b) <==> (a[k] as int) < (
        b[k] as int)),
    decreases k,
{
    if k > 0 {
        assert(a[0] == b[0]);
        assert forall|i: int| 0 <= i < k - 1 implies a.skip(1)[i] == b.skip(1)[i] by {
            assert(a[i + 1] == b[i + 1]);
        }
        law_text_order(a.skip(1), b.skip(1), k - 1);
    }
}

/// Buckets come in the order of their keys, none is empty, and each holds its samples in
/// the order in which they were given.
pub proof fn law_buckets(keys: Seq<i128>, buckets: Seq<Bucket>, a: int, b: int, i: int, j: int)
    requires
        buckets_of(keys, buckets),
        0 <= a < buckets.len(),
        0 <= b < buckets.len(),
        0 <= i < buckets[a].members@.len(),
        0 <= j < buckets[a].members@.len(),
    ensures
        a < b <==> buckets[a].key < buckets[b].key,
        buckets[b].members@.len() > 0,
        buckets[a].members@[i] < keys.len(),
        keys[buckets[a].members@[i] as int] == buckets[a].key,
        i < j <==> buckets[a].members@[i] < buckets[a].members@[j],
{
    if a < b {
        assert(buckets[a].key < buckets[b].key);
    } else if b < a {
        assert(buckets[b].key < buckets[a].key);
    }
    if i < j {
        assert(buckets[a].members@[i] < buckets[a].members@[j]);
    } else if j < i {
        assert(buckets[a].members@[j] < buckets[a].members@[i]);
    }
}

/// The latest bucket is that of no sample that another is later than, and it holds all
/// samples of its time and no other.
pub proof fn law_latest_bucket(keys: Seq<i128>, bucket: Bucket, i: usize)
    requires
        is_latest(keys, bucket),
        i < keys.len(),
    ensures
        keys[i as int] <= bucket.key,
        keys.contains(bucket.key),
        bucket.members@.contains(i) <==> keys[i as int] == bucket.key,
        bucket.members@.contains(i) <==> forall|j: int|
            0 <= j < keys.len() ==> keys[j] <= keys[i as int],
{
    assert(bucket.members@[0] < keys.len());
    let first = bucket.members@[0] as int;
    assert(keys[first] == bucket.key);
    if bucket.members@.contains(i) {
        let j = choose|j: int| 0 <= j < bucket.members@.len() && bucket.members@[j] == i;
        assert(keys[bucket.members@[j] as int] == bucket.key);
    }
    if forall|j: int| 0 <= j < keys.len() ==> keys[j] <= keys[i as int] {
        assert(keys[first] <= keys[i as int]);
    }
}

/// The totals with one more core: the executions add up, and of time, coverage and
/// corpus the larger counts.
pub proof fn law_totals_take_the_largest(totals: RunTotals, last: LastSample)
    requires
        totals.total_execs + last.execs <= u64::MAX,
    ensures
        ({
            let sum = totals.plus(last);
            &&& sum.total_execs == totals.total_execs + last.execs
            &&& sum.final_elapsed >= totals.final_elapsed && sum.final_elapsed >= last.elapsed
            &&& sum.final_elapsed == totals.final_elapsed || sum.final_elapsed == last.elapsed
            &&& sum.max_coverage >= totals.max_coverage && sum.max_coverage >= last.coverage
            &&& sum.max_coverage == totals.max_coverage || sum.max_coverage == last.coverage
            &&& sum.final_corpus_size >= totals.final_corpus_size && sum.final_corpus_size
                >= last.corpus_size
            &&& sum.final_corpus_size == totals.final_corpus_size || sum.final_corpus_size
                == last.corpus_size
        }),
        RunTotals::none().total_execs == 0,
        RunTotals::none().final_elapsed == 0,
        RunTotals::none().max_coverage == 0,
        RunTotals::none().final_corpus_size == 0,
{
}

/// Groups come in the order of the names of their cores, none is empty, and each holds
/// samples of its core in order of time.
pub proof fn law_groups(
    cpus: Seq<Seq<char>>,
    keys: Seq<i128>,
    groups: Seq<CpuGroup>,
    a: int,
    b: int,
    i: int,
    j: int,
)
    requires
        groups_of(cpus, groups),
        groups_ordered(keys, groups),
        0 <= a < groups.len(),
        0 <= b < groups.len(),
        0 <= i < groups[a].members@.len(),
        0 <= j < groups[a].members@.len(),
    ensures
        a < b <==> text_before(groups[a].cpu@, groups[b].cpu@),
        groups[b].members@.len() > 0,
        groups[a].members@[i] < cpus.len(),
        cpus[groups[a].members@[i] as int] == groups[a].cpu@,
        i < j ==> keys[groups[a].members@[i] as int] <= keys[groups[a].members@[j] as int],
{
    lemma_text_before_total(groups[a].cpu@, groups[b].cpu@);
    if a < b {
        assert(text_before(groups[a].cpu@, groups[b].cpu@));
    } else if b < a {
        assert(text_before(groups[b].cpu@, groups[a].cpu@));
    }
    assert(ordered(keys, groups[a].members@));
    if i < j {
        assert(precedes(keys, groups[a].members@[i], groups[a].members@[j]));
    }
}

} // verus!
