use vstd::prelude::*;
use crate::document::Json;
use crate::expression::{JsonPath, meaning, meaning_all, steps_meaning};
use crate::selector::{
    ArrayIndex, ArraySlice, Chain, ObjectField, PathInstance, eval, eval_all, chain_eval,
    normalize, stepped,
};

verus! {

/// An index inside an array selects exactly the element at that index; an
/// index at or past the end selects nothing.
pub proof fn lemma_index_selects(v: Vec<Json>, i: i64)
    ensures
        0 <= i < v.len() ==> eval(PathInstance::Index(ArrayIndex { index: i }), Json::Array(v))
            == seq![v@[i as int]],
        i >= v.len() ==> eval(PathInstance::Index(ArrayIndex { index: i }), Json::Array(v))
            == Seq::<Json>::empty(),
{
}

proof fn lemma_stepped_by_one<T>(s: Seq<T>, from: int)
    requires
        0 <= from <= s.len(),
    ensures
        stepped(s, from, s.len() as int, 1) == s.subrange(from, s.len() as int),
    decreases s.len() - from,
{
    if from < s.len() {
        lemma_stepped_by_one(s, from + 1);
        assert(s.subrange(from, s.len() as int) =~= seq![s[from]] + s.subrange(from + 1, s.len() as int));
    } else {
        assert(s.subrange(from, s.len() as int) =~= Seq::<T>::empty());
    }
}

/// The slice from 0 to the length of an array, with step 1, selects the
/// whole array in order.
pub proof fn lemma_full_slice(v: Vec<Json>, sl: ArraySlice)
    requires
        sl.start_index == 0,
        sl.end_index == v.len(),
        sl.step == 1,
    ensures
        eval(PathInstance::Slice(sl), Json::Array(v)) == v@,
{
    lemma_stepped_by_one(v@, 0);
    assert(v@.subrange(0, v@.len() as int) =~= v@);
}

/// A negative start bound `-k`, with `0 < k <= n` on an array of length `n`,
/// selects what the start bound `n - k` selects, for any end and step.
pub proof fn lemma_negative_start(v: Vec<Json>, a: ArraySlice, b: ArraySlice)
    requires
        a.start_index < 0,
        -a.start_index <= v.len(),
        b.start_index == v.len() + a.start_index,
        b.end_index == a.end_index,
        b.step == a.step,
    ensures
        eval(PathInstance::Slice(a), Json::Array(v)) == eval(PathInstance::Slice(b), Json::Array(v)),
{
}

proof fn lemma_stepped_indices<T>(s: Seq<T>, from: int, to: int, step: int)
    requires
        step > 0,
        0 <= from,
        to <= s.len(),
    ensures
        forall|k: int| 0 <= k < stepped(s, from, to, step).len() ==>
            #[trigger] (from + k * step) < to,
        forall|k: int| 0 <= k < stepped(s, from, to, step).len() ==>
            #[trigger] stepped(s, from, to, step)[k] == s[from + k * step],
        forall|k: int| 0 <= k && #[trigger] (from + k * step) < to ==>
            k < stepped(s, from, to, step).len(),
    decreases if from < to { to - from } else { 0 },
{
    let r = stepped(s, from, to, step);
    if from < to {
        lemma_stepped_indices(s, from + step, to, step);
        let rest = stepped(s, from + step, to, step);
        assert(r == seq![s[from]] + rest);
        assert forall|k: int| 0 <= k < r.len() implies #[trigger] (from + k * step) < to by {
            if k == 0 {
                assert(from + k * step == from);
            } else {
                assert(r[k] == rest[k - 1]);
                assert(from + step + (k - 1) * step < to);
                assert(from + step + (k - 1) * step == from + k * step) by (nonlinear_arith);
            }
        }
        assert forall|k: int| 0 <= k < r.len() implies #[trigger] r[k] == s[from + k * step] by {
            if k > 0 {
                assert(r[k] == rest[k - 1]);
                assert(from + step + (k - 1) * step == from + k * step) by (nonlinear_arith);
            }
        }
        assert forall|k: int| 0 <= k && #[trigger] (from + k * step) < to implies k < r.len() by {
            if k > 0 {
                assert(from + step + (k - 1) * step == from + k * step) by (nonlinear_arith);
                assert(k - 1 < rest.len());
            }
        }
    } else {
        assert(r.len() == 0);
        assert forall|k: int| 0 <= k && #[trigger] (from + k * step) < to implies k < r.len() by {
            assert(k * step >= 0) by (nonlinear_arith)
                requires
                    k >= 0,
                    step > 0,
            ;
        }
    }
}

/// With a positive step, and both bounds resolved against the length of the
/// array (to `start` and `end`), a slice selects the elements at indices
/// `start`, `start + step`, `start + 2 * step`, ... that lie below `end`, in
/// ascending order, and no others.
pub proof fn lemma_slice_steps(v: Vec<Json>, sl: ArraySlice, start: int, end: int)
    requires
        sl.step > 0,
        normalize(sl.start_index as int, v.len() as int) == Some(start),
        normalize(sl.end_index as int, v.len() as int) == Some(end),
    ensures
        forall|k: int| 0 <= k < eval(PathInstance::Slice(sl), Json::Array(v)).len() ==>
            start + k * sl.step < end
            && #[trigger] eval(PathInstance::Slice(sl), Json::Array(v))[k] == v@[start + k * sl.step],
        forall|k: int| 0 <= k && #[trigger] (start + k * sl.step) < end ==>
            k < eval(PathInstance::Slice(sl), Json::Array(v)).len(),
{
    lemma_stepped_indices(v@, start, end, sl.step as int);
    let r = eval(PathInstance::Slice(sl), Json::Array(v));
    let st = sl.step as int;
    assert(r == stepped(v@, start, end, st));
    assert forall|k: int| 0 <= k < r.len() implies start + k * st < end && #[trigger] r[k] == v@[start + k * st] by {
        assert(start + k * st < end);
    }
}

/// A chain of two selectors applied to `c` selects the concatenation, over
/// each node `m` that the first selects from `c` in order, of what the second
/// selects from `m`.
pub proof fn lemma_chain_distributes<'a>(ch: Chain<'a>, x: PathInstance<'a>, y: PathInstance<'a>, c: Json)
    requires
        ch.chain@ == seq![x, y],
    ensures
        eval(PathInstance::Chain(ch), c) == eval_all(y, eval(x, c)),
{
    let one = seq![c];
    assert(one.drop_last() =~= Seq::<Json>::empty());
    assert(eval_all(x, one) == eval_all(x, one.drop_last()) + eval(x, one.last()));
    assert(eval_all(x, one) =~= eval(x, c));
    assert(ch.chain@[0] == x && ch.chain@[1] == y);
    assert(chain_eval(ch.chain@, 0, one) == one);
    assert(chain_eval(ch.chain@, 1, one) == eval_all(x, one));
    assert(chain_eval(ch.chain@, 2, one) == eval_all(y, chain_eval(ch.chain@, 1, one)));
}

/// The same law for path expressions: the sequence of two expressions
/// selects, for each node that the first selects in order, what the second
/// selects from it.
pub proof fn lemma_sequence_distributes(steps: Vec<JsonPath>, x: JsonPath, y: JsonPath, root: Json, c: Json)
    requires
        steps@ == seq![x, y],
    ensures
        meaning(JsonPath::Path(steps), root, c) == meaning_all(y, root, meaning(x, root, c)),
{
    let one = seq![c];
    assert(one.drop_last() =~= Seq::<Json>::empty());
    assert(meaning_all(x, root, one) == meaning_all(x, root, one.drop_last()) + meaning(x, root, one.last()));
    assert(meaning_all(x, root, one) =~= meaning(x, root, c));
    assert(steps@[0] == x && steps@[1] == y);
    assert(steps_meaning(steps@, 0, root, one) == one);
    assert(steps_meaning(steps@, 1, root, one) == meaning_all(x, root, one));
    assert(steps_meaning(steps@, 2, root, one) == meaning_all(y, root, steps_meaning(steps@, 1, root, one)));
}

/// A field access on anything but an object selects nothing.
pub proof fn lemma_field_needs_object<'a>(f: ObjectField<'a>, c: Json)
    requires
        !(c is Object),
    ensures
        eval(PathInstance::Field(f), c) == Seq::<Json>::empty(),
{
}

} // verus!
