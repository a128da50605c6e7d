//! Making sure that no two stylesheets are written to the same file.
//!
//! Every compiled stylesheet is recorded with the path it came from and the
//! path it was written to. Once all are compiled the records are sorted, by
//! the path written to and then by the path they came from, so that records
//! with the same target stand next to each other, whatever the order in which
//! the stylesheets were found. The first such pair is reported.

use vstd::prelude::*;
use vstd::string::StringExecFns;
use vstd::seq_lib::lemma_multiset_commutative;
use crate::order::{path_le, path_le_is_total_order};
use crate::path::{joined, names_of, SassPath};

verus! {

/// One compiled stylesheet: where it came from, as a path inside the asset
/// directory, and where its output was written.
#[derive(Debug, PartialEq, Eq)]
pub struct CompiledOutput {
    pub source: SassPath,
    pub output: SassPath,
}

/// The content of a [`CompiledOutput`].
pub struct CompiledModel {
    pub source: Seq<Seq<char>>,
    pub output: Seq<Seq<char>>,
}

impl View for CompiledOutput {
    type V = CompiledModel;

    open spec fn view(&self) -> CompiledModel {
        CompiledModel { source: self.source@, output: self.output@ }
    }
}

/// The records of a list, each as its content.
pub open spec fn outputs_of(outputs: Seq<CompiledOutput>) -> Seq<CompiledModel> {
    Seq::new(
        outputs.len(),
        |i: int|
            CompiledModel {
                source: names_of(outputs[i].source.segments@),
                output: names_of(outputs[i].output.segments@),
            },
    )
}

/// The order in which records are sorted: by the path written to, and among
/// records with the same target by the path they came from.
pub open spec fn entry_le(a: CompiledModel, b: CompiledModel) -> bool {
    if a.output == b.output {
        path_le(a.source, b.source)
    } else {
        path_le(a.output, b.output)
    }
}

/// The order of records is a total order, and it never puts a record before
/// one with a smaller target.
pub proof fn entry_le_is_total_order(a: CompiledModel, b: CompiledModel, c: CompiledModel)
    ensures
        entry_le(a, a),
        entry_le(a, b) || entry_le(b, a),
        entry_le(a, b) && entry_le(b, a) ==> a == b,
        entry_le(a, b) && entry_le(b, c) ==> entry_le(a, c),
        entry_le(a, b) ==> path_le(a.output, b.output),
{
    path_le_is_total_order(a.source, b.source, c.source);
    path_le_is_total_order(a.output, b.output, c.output);
}

/// Whether `order` lists positions of `records` only.
spec fn in_bounds(records: Seq<CompiledModel>, order: Seq<usize>) -> bool {
    forall|k: int| 0 <= k < order.len() ==> (#[trigger] order[k]) < records.len()
}

/// Whether the records at the positions that `order` lists, taken in that
/// order, never decrease.
spec fn sorted_by(records: Seq<CompiledModel>, order: Seq<usize>) -> bool {
    forall|k: int, l: int|
        0 <= k <= l < order.len() ==> entry_le(
            records[#[trigger] order[k] as int],
            records[#[trigger] order[l] as int],
        )
}

/// The positions from `lo` up to, not including, `hi`.
spec fn index_range(lo: int, hi: int) -> Seq<usize> {
    Seq::new((hi - lo) as nat, |k: int| (lo + k) as usize)
}

/// Whether `order` lists the position `i`.
spec fn is_listed(order: Seq<usize>, i: int) -> bool {
    exists|k: int| 0 <= k < order.len() && #[trigger] order[k] == i
}

/// Whether `order` lists every position of `records` exactly once, and in an
/// order in which the records never decrease.
spec fn is_sorted_order(records: Seq<CompiledModel>, order: Seq<usize>) -> bool {
    &&& order.len() == records.len()
    &&& in_bounds(records, order)
    &&& forall|k: int, l: int| 0 <= k < l < order.len() ==> order[k] != order[l]
    &&& forall|i: int| 0 <= i < records.len() ==> #[trigger] is_listed(order, i)
    &&& sorted_by(records, order)
}

/// Whether the record `a` comes before the record `b`, or equals it.
pub fn entry_precedes(a: &CompiledOutput, b: &CompiledOutput) -> (le: bool)
    ensures
        le == entry_le(a@, b@),
{
    if a.output.same_as(&b.output) {
        a.source.precedes(&b.source)
    } else {
        a.output.precedes(&b.output)
    }
}

/// Merges two sorted lists of positions into one.
fn merge(outputs: &Vec<CompiledOutput>, left: &Vec<usize>, right: &Vec<usize>) -> (merged: Vec<
    usize,
>)
    requires
        in_bounds(outputs_of(outputs@), left@),
        in_bounds(outputs_of(outputs@), right@),
        sorted_by(outputs_of(outputs@), left@),
        sorted_by(outputs_of(outputs@), right@),
        left.len() + right.len() <= usize::MAX,
    ensures
        in_bounds(outputs_of(outputs@), merged@),
        sorted_by(outputs_of(outputs@), merged@),
        merged@.to_multiset() == left@.to_multiset().add(right@.to_multiset()),
{
    let ghost records = outputs_of(outputs@);
    let mut merged: Vec<usize> = Vec::new();
    let mut i: usize = 0;
    let mut j: usize = 0;
    proof {
        assert(left@.take(0) =~= Seq::<usize>::empty());
        assert(right@.take(0) =~= Seq::<usize>::empty());
        Seq::<usize>::empty().to_multiset_ensures();
    }
    while i < left.len() || j < right.len()
        invariant
            i <= left.len(),
            j <= right.len(),
            left.len() + right.len() <= usize::MAX,
            records == outputs_of(outputs@),
            in_bounds(records, left@),
            in_bounds(records, right@),
            sorted_by(records, left@),
            sorted_by(records, right@),
            in_bounds(records, merged@),
            sorted_by(records, merged@),
            merged@.to_multiset() == left@.take(i as int).to_multiset().add(
                right@.take(j as int).to_multiset(),
            ),
            forall|a: int, k: int|
                0 <= a < merged@.len() && i <= k < left@.len() ==> entry_le(
                    records[#[trigger] merged@[a] as int],
                    records[#[trigger] left@[k] as int],
                ),
            forall|a: int, k: int|
                0 <= a < merged@.len() && j <= k < right@.len() ==> entry_le(
                    records[#[trigger] merged@[a] as int],
                    records[#[trigger] right@[k] as int],
                ),
        decreases left.len() - i + right.len() - j,
    {
        let from_left = if i == left.len() {
            false
        } else if j == right.len() {
            true
        } else {
            entry_precedes(&outputs[left[i]], &outputs[right[j]])
        };
        let ghost before = merged@;
        if from_left {
            let next = left[i];
            merged.push(next);
            proof {
                assert(left@.take(i + 1) =~= left@.take(i as int).push(next));
                left@.take(i as int).to_multiset_ensures();
                before.to_multiset_ensures();
                assert forall|a: int, k: int|
                    0 <= a < merged@.len() && j <= k < right@.len() implies entry_le(
                    records[#[trigger] merged@[a] as int],
                    records[#[trigger] right@[k] as int],
                ) by {
                    if a == before.len() {
                        entry_le_is_total_order(
                            records[next as int],
                            records[right@[j as int] as int],
                            records[right@[k] as int],
                        );
                    }
                }
            }
            i += 1;
        } else {
            let next = right[j];
            merged.push(next);
            proof {
                assert(right@.take(j + 1) =~= right@.take(j as int).push(next));
                right@.take(j as int).to_multiset_ensures();
                before.to_multiset_ensures();
                assert forall|a: int, k: int|
                    0 <= a < merged@.len() && i <= k < left@.len() implies entry_le(
                    records[#[trigger] merged@[a] as int],
                    records[#[trigger] left@[k] as int],
                ) by {
                    if a == before.len() {
                        entry_le_is_total_order(
                            records[next as int],
                            records[left@[i as int] as int],
                            records[left@[k] as int],
                        );
                    }
                }
            }
            j += 1;
        }
    }
    proof {
        assert(left@.take(i as int) =~= left@);
        assert(right@.take(j as int) =~= right@);
    }
    merged
}

/// Sorts the positions from `lo` up to `hi` by the records they point at.
fn sort_range(outputs: &Vec<CompiledOutput>, lo: usize, hi: usize) -> (order: Vec<usize>)
    requires
        lo <= hi <= outputs.len(),
    ensures
        in_bounds(outputs_of(outputs@), order@),
        sorted_by(outputs_of(outputs@), order@),
        order@.to_multiset() == index_range(lo as int, hi as int).to_multiset(),
    decreases hi - lo,
{
    let ghost records = outputs_of(outputs@);
    if hi - lo <= 1 {
        let mut order: Vec<usize> = Vec::new();
        if hi - lo == 1 {
            order.push(lo);
            proof {
                entry_le_is_total_order(records[lo as int], records[lo as int], records[lo as int]);
            }
        }
        assert(order@ =~= index_range(lo as int, hi as int));
        order
    } else {
        let mid = lo + (hi - lo) / 2;
        let left = sort_range(outputs, lo, mid);
        let right = sort_range(outputs, mid, hi);
        proof {
            left@.to_multiset_ensures();
            right@.to_multiset_ensures();
            index_range(lo as int, mid as int).to_multiset_ensures();
            index_range(mid as int, hi as int).to_multiset_ensures();
            lemma_multiset_commutative(
                index_range(lo as int, mid as int),
                index_range(mid as int, hi as int),
            );
            assert(index_range(lo as int, mid as int) + index_range(mid as int, hi as int)
                =~= index_range(lo as int, hi as int));
        }
        merge(outputs, &left, &right)
    }
}

/// A list of positions with the same members as the positions below `n`
/// lists each of them once.
proof fn lemma_full_order(order: Seq<usize>, n: nat)
    requires
        n <= usize::MAX,
        order.to_multiset() == index_range(0, n as int).to_multiset(),
    ensures
        order.len() == n,
        forall|k: int| 0 <= k < order.len() ==> (#[trigger] order[k]) < n,
        forall|i: int| 0 <= i < n ==> #[trigger] is_listed(order, i),
        forall|k: int, l: int| 0 <= k < l < order.len() ==> order[k] != order[l],
{
    let range = index_range(0, n as int);
    order.to_multiset_ensures();
    range.to_multiset_ensures();
    assert forall|i: int| 0 <= i < n implies #[trigger] is_listed(order, i) by {
        assert(range[i] == i);
        assert(range.to_multiset().count(i as usize) > 0);
    }
    assert forall|k: int| 0 <= k < order.len() implies (#[trigger] order[k]) < n by {
        assert(order.to_multiset().count(order[k]) > 0);
        let at = choose|at: int| 0 <= at < range.len() && range[at] == order[k];
        assert(range[at] == at);
    }
    range.lemma_multiset_has_no_duplicates();
    order.lemma_multiset_has_no_duplicates_conv();
}

/// Lists the positions of `outputs` in the order in which the records sort.
fn sorted_order(outputs: &Vec<CompiledOutput>) -> (order: Vec<usize>)
    ensures
        is_sorted_order(outputs_of(outputs@), order@),
{
    let order = sort_range(outputs, 0, outputs.len());
    proof {
        lemma_full_order(order@, outputs@.len());
    }
    order
}

/// Two stylesheets that were written to the same file.
#[derive(Debug, PartialEq, Eq)]
pub struct OutputCollision {
    /// Where the first stylesheet came from.
    pub first: SassPath,
    /// Where the second stylesheet came from.
    pub second: SassPath,
    /// Where both were written to.
    pub output: SassPath,
}

/// The content of an [`OutputCollision`].
pub struct CollisionModel {
    pub first: Seq<Seq<char>>,
    pub second: Seq<Seq<char>>,
    pub output: Seq<Seq<char>>,
}

impl View for OutputCollision {
    type V = CollisionModel;

    open spec fn view(&self) -> CollisionModel {
        CollisionModel { first: self.first@, second: self.second@, output: self.output@ }
    }
}

/// The sentence that reports a collision.
pub open spec fn collision_message(collision: CollisionModel) -> Seq<char> {
    "SASS path conflict: \""@ + joined(collision.first) + "\" and \""@ + joined(collision.second)
        + "\" both compile to \""@ + joined(collision.output) + "\""@
}

impl OutputCollision {
    /// The sentence that reports the collision: it names both sources and
    /// the file they share.
    pub fn message(&self) -> (text: String)
        ensures
            text@ == collision_message(self@),
    {
        let mut text = String::from_str("SASS path conflict: \"");
        text.append(self.first.display().as_str());
        text.append("\" and \"");
        text.append(self.second.display().as_str());
        text.append("\" both compile to \"");
        text.append(self.output.display().as_str());
        text.append("\"");
        text
    }
}

/// Whether the records at the positions `k` and `l`, two different positions,
/// were written to the same file.
pub open spec fn shares_target(records: Seq<CompiledModel>, k: int, l: int) -> bool {
    &&& 0 <= k < records.len()
    &&& 0 <= l < records.len()
    &&& k != l
    &&& records[k].output == records[l].output
}

/// Whether two records of the list were written to the same file.
pub open spec fn has_collision(records: Seq<CompiledModel>) -> bool {
    exists|k: int, l: int| shares_target(records, k, l)
}

/// Whether the records at the positions `i` and `j` make `collision` the
/// collision to report for `records`.
///
/// The two records stand at different positions and have the same target,
/// the one that `collision` names, and their sources are the two that it
/// names. No two records share a target that sorts before this one. And of
/// the records with this target, the two sources named are the two that sort
/// first: the first is not after the second, and the second is not after any
/// other.
pub open spec fn reports(
    records: Seq<CompiledModel>,
    collision: CollisionModel,
    i: int,
    j: int,
) -> bool {
    &&& shares_target(records, i, j)
    &&& records[i] == (CompiledModel { source: collision.first, output: collision.output })
    &&& records[j].source == collision.second
    &&& path_le(collision.first, collision.second)
    &&& forall|k: int, l: int| #[trigger]
        shares_target(records, k, l) ==> path_le(collision.output, records[k].output)
    &&& forall|k: int| #[trigger]
        shares_target(records, k, i) ==> path_le(collision.second, records[k].source)
}

/// Whether `collision` is the collision to report for `records`: whether two
/// records make it so, as [`reports`] says.
pub open spec fn is_reported_collision(records: Seq<CompiledModel>, collision: CollisionModel) -> bool {
    exists|i: int, j: int| #[trigger] reports(records, collision, i, j)
}

/// The place of the position `i` in `order`.
spec fn place_of(order: Seq<usize>, i: int) -> int {
    choose|k: int| 0 <= k < order.len() && #[trigger] order[k] == i
}

/// In a sorted order, records with the same target stand next to each other:
/// where two records have the same target, so has the record right after the
/// earlier of them.
proof fn lemma_equal_targets_are_adjacent(
    records: Seq<CompiledModel>,
    order: Seq<usize>,
    p: int,
    q: int,
)
    requires
        is_sorted_order(records, order),
        0 <= p < q < order.len(),
        records[order[p] as int].output == records[order[q] as int].output,
    ensures
        records[order[p] as int].output == records[order[p + 1] as int].output,
{
    let a = records[order[p] as int];
    let b = records[order[p + 1] as int];
    let c = records[order[q] as int];
    entry_le_is_total_order(a, b, c);
}

/// Whether the records at the place `m` of `order` and at the next have the
/// same target.
spec fn neighbours_collide(records: Seq<CompiledModel>, order: Seq<usize>, m: int) -> bool {
    records[order[m] as int].output == records[order[m + 1] as int].output
}

/// Where two records share a target, two neighbours of a sorted order do, at
/// the place of one of the two records.
proof fn lemma_shared_target_has_neighbours(
    records: Seq<CompiledModel>,
    order: Seq<usize>,
    k: int,
    l: int,
) -> (m: int)
    requires
        is_sorted_order(records, order),
        shares_target(records, k, l),
    ensures
        0 <= m && m + 1 < order.len(),
        neighbours_collide(records, order, m),
        records[order[m] as int].output == records[k].output,
        m == place_of(order, k) || m == place_of(order, l),
        m <= place_of(order, k),
        m <= place_of(order, l),
{
    assert(is_listed(order, k));
    assert(is_listed(order, l));
    let pk = place_of(order, k);
    let pl = place_of(order, l);
    if pk < pl {
        lemma_equal_targets_are_adjacent(records, order, pk, pl);
        pk
    } else {
        lemma_equal_targets_are_adjacent(records, order, pl, pk);
        pl
    }
}

/// The first two neighbours of a sorted order that have the same target are
/// the collision to report.
proof fn lemma_first_neighbours_are_reported(
    records: Seq<CompiledModel>,
    order: Seq<usize>,
    at: int,
    collision: CollisionModel,
)
    requires
        is_sorted_order(records, order),
        0 <= at && at + 1 < order.len(),
        forall|m: int| 0 <= m < at ==> !#[trigger] neighbours_collide(records, order, m),
        neighbours_collide(records, order, at),
        collision == (CollisionModel {
            first: records[order[at] as int].source,
            second: records[order[at + 1] as int].source,
            output: records[order[at] as int].output,
        }),
    ensures
        is_reported_collision(records, collision),
{
    let i = order[at] as int;
    let j = order[at + 1] as int;
    assert(shares_target(records, i, j));
    assert forall|k: int, l: int| #[trigger] shares_target(records, k, l) implies path_le(
        collision.output,
        records[k].output,
    ) by {
        let m = lemma_shared_target_has_neighbours(records, order, k, l);
        assert(at <= m);
        entry_le_is_total_order(records[i], records[order[m] as int], records[i]);
    }
    assert forall|k: int| #[trigger] shares_target(records, k, i) implies path_le(
        collision.second,
        records[k].source,
    ) by {
        let m = lemma_shared_target_has_neighbours(records, order, k, i);
        assert(is_listed(order, k));
        assert(at + 1 <= place_of(order, k));
    }
    assert(reports(records, collision, i, j));
}

/// Checks that no two stylesheets were written to the same file.
///
/// The result is `Ok` exactly when the targets of the records differ from
/// one another. Where it fails, the error is the one collision that
/// [`is_reported_collision`] picks, so that the same records give the same
/// report in whatever order they are listed.
pub fn validate(outputs: &Vec<CompiledOutput>) -> (result: Result<(), OutputCollision>)
    ensures
        result is Err <==> has_collision(outputs_of(outputs@)),
        result is Err ==> is_reported_collision(outputs_of(outputs@), result->Err_0@),
{
    let ghost records = outputs_of(outputs@);
    let order = sorted_order(outputs);
    let mut k: usize = 0;
    while order.len() - k > 1
        invariant
            records == outputs_of(outputs@),
            is_sorted_order(records, order@),
            k <= order.len(),
            forall|m: int| 0 <= m < k ==> !#[trigger] neighbours_collide(records, order@, m),
        decreases order.len() - k,
    {
        let first = &outputs[order[k]];
        let second = &outputs[order[k + 1]];
        if first.output.same_as(&second.output) {
            let collision = OutputCollision {
                first: first.source.clone(),
                second: second.source.clone(),
                output: first.output.clone(),
            };
            proof {
                lemma_first_neighbours_are_reported(records, order@, k as int, collision@);
            }
            return Err(collision);
        }
        k += 1;
    }
    proof {
        if has_collision(records) {
            let (a, b) = choose|a: int, b: int| shares_target(records, a, b);
            let m = lemma_shared_target_has_neighbours(records, order@, a, b);
            assert(!neighbours_collide(records, order@, m));
        }
    }
    Ok(())
}

/// At most one collision is the one to report: the report depends on the
/// records alone.
pub proof fn reported_collision_is_unique(
    records: Seq<CompiledModel>,
    one: CollisionModel,
    other: CollisionModel,
)
    requires
        is_reported_collision(records, one),
        is_reported_collision(records, other),
    ensures
        one == other,
{
    let (i, j) = choose|i: int, j: int| #[trigger] reports(records, one, i, j);
    let (x, y) = choose|x: int, y: int| #[trigger] reports(records, other, x, y);
    // Each target is shared by two records, so each is at most the other.
    path_le_is_total_order(one.output, other.output, one.output);
    if i == x {
        // Both seconds are the least source of the same other records.
        assert(shares_target(records, y, i));
        assert(shares_target(records, j, x));
        path_le_is_total_order(one.second, other.second, one.second);
    } else {
        // The two firsts stand at different places, so each second is at
        // most the other first, and with that all four are the same.
        assert(shares_target(records, x, i));
        assert(shares_target(records, i, x));
        path_le_is_total_order(one.first, one.second, other.first);
        path_le_is_total_order(other.first, other.second, one.first);
        path_le_is_total_order(one.first, other.first, one.second);
    }
}

/// Among the positions below `n` that `among` picks, one has the least path.
proof fn lemma_least(
    n: int,
    among: spec_fn(int) -> bool,
    key: spec_fn(int) -> Seq<Seq<char>>,
) -> (least: int)
    requires
        exists|k: int| 0 <= k < n && #[trigger] among(k),
    ensures
        0 <= least < n,
        among(least),
        forall|k: int| 0 <= k < n && #[trigger] among(k) ==> path_le(key(least), key(k)),
    decreases n,
{
    let last = n - 1;
    if exists|k: int| 0 <= k < last && #[trigger] among(k) {
        let before = lemma_least(last, among, key);
        if among(last) && !path_le(key(before), key(last)) {
            assert forall|k: int| 0 <= k < n && #[trigger] among(k) implies path_le(
                key(last),
                key(k),
            ) by {
                path_le_is_total_order(key(last), key(before), key(k));
            }
            last
        } else {
            before
        }
    } else {
        path_le_is_total_order(key(last), key(last), key(last));
        last
    }
}

/// Where two records share a target there is a collision to report.
pub proof fn some_collision_is_reported(records: Seq<CompiledModel>) -> (collision: CollisionModel)
    requires
        has_collision(records),
    ensures
        is_reported_collision(records, collision),
{
    let n = records.len() as int;
    let (a, b) = choose|a: int, b: int| shares_target(records, a, b);
    let collides = |k: int| exists|l: int| shares_target(records, k, l);
    let target_at = |k: int| records[k].output;
    let source_at = |k: int| records[k].source;
    assert(collides(a));
    let least = lemma_least(n, collides, target_at);
    let target = records[least].output;
    let partner = choose|l: int| shares_target(records, least, l);
    let with_target = |k: int| records[k].output == target;
    assert(with_target(least));
    let i = lemma_least(n, with_target, source_at);
    let others = |k: int| k != i && records[k].output == target;
    assert(others(least) || others(partner));
    let j = lemma_least(n, others, source_at);
    let collision = CollisionModel {
        first: records[i].source,
        second: records[j].source,
        output: target,
    };
    assert(shares_target(records, i, j));
    assert(with_target(j));
    assert forall|k: int, l: int| #[trigger] shares_target(records, k, l) implies path_le(
        collision.output,
        records[k].output,
    ) by {
        assert(collides(k));
    }
    assert forall|k: int| #[trigger] shares_target(records, k, i) implies path_le(
        collision.second,
        records[k].source,
    ) by {
        assert(others(k));
    }
    assert(reports(records, collision, i, j));
    collision
}

/// Whether `b` holds the records of `a` in another order: `to` sends each
/// position of `a` to the position of the same record in `b`, and `back`
/// undoes it.
pub open spec fn is_rearrangement(
    a: Seq<CompiledModel>,
    b: Seq<CompiledModel>,
    to: spec_fn(int) -> int,
    back: spec_fn(int) -> int,
) -> bool {
    &&& a.len() == b.len()
    &&& forall|i: int|
        0 <= i < a.len() ==> 0 <= #[trigger] to(i) < b.len() && b[to(i)] == a[i] && back(to(i))
            == i
    &&& forall|k: int|
        0 <= k < b.len() ==> 0 <= #[trigger] back(k) < a.len() && a[back(k)] == b[k] && to(
            back(k),
        ) == k
}

/// What is reported for a list is reported for the same records in any other
/// order.
proof fn lemma_report_survives_rearrangement(
    a: Seq<CompiledModel>,
    b: Seq<CompiledModel>,
    to: spec_fn(int) -> int,
    back: spec_fn(int) -> int,
    collision: CollisionModel,
)
    requires
        is_rearrangement(a, b, to, back),
    ensures
        has_collision(a) ==> has_collision(b),
        is_reported_collision(a, collision) ==> is_reported_collision(b, collision),
{
    if has_collision(a) {
        let (k, l) = choose|k: int, l: int| shares_target(a, k, l);
        assert(shares_target(b, to(k), to(l)));
    }
    if is_reported_collision(a, collision) {
        let (i, j) = choose|i: int, j: int| #[trigger] reports(a, collision, i, j);
        assert(shares_target(b, to(i), to(j)));
        assert forall|k: int, l: int| #[trigger] shares_target(b, k, l) implies path_le(
            collision.output,
            b[k].output,
        ) by {
            assert(shares_target(a, back(k), back(l)));
        }
        assert forall|k: int| #[trigger] shares_target(b, k, to(i)) implies path_le(
            collision.second,
            b[k].source,
        ) by {
            assert(shares_target(a, back(k), i));
        }
        assert(reports(b, collision, to(i), to(j)));
    }
}

/// The outcome of [`validate`] does not depend on the order in which the
/// stylesheets were found: a list and any rearrangement of it collide alike,
/// and the same collision is reported for both.
pub proof fn report_ignores_order(
    a: Seq<CompiledModel>,
    b: Seq<CompiledModel>,
    to: spec_fn(int) -> int,
    back: spec_fn(int) -> int,
    collision: CollisionModel,
)
    requires
        is_rearrangement(a, b, to, back),
    ensures
        has_collision(a) <==> has_collision(b),
        is_reported_collision(a, collision) <==> is_reported_collision(b, collision),
{
    lemma_report_survives_rearrangement(a, b, to, back, collision);
    lemma_report_survives_rearrangement(b, a, back, to, collision);
}

} // verus!
