use vstd::prelude::*;
use crate::document::{Json, targets, lookup, get_member};

verus! {

/// Resolves a possibly negative slice bound against an array length: a
/// non-negative bound stands for itself and must not exceed `len`; a negative
/// bound `b` stands for `len + b` and must not reach below zero.
pub open spec fn normalize(b: int, len: int) -> Option<int> {
    if b >= 0 {
        if b <= len { Some(b) } else { None }
    } else {
        if -b <= len { Some(len + b) } else { None }
    }
}

/// The elements of `s` at indices `from`, `from + step`, `from + 2 * step`, ...
/// that lie below `to`, in ascending order; nothing when `step` is zero.
pub open spec fn stepped<T>(s: Seq<T>, from: int, to: int, step: int) -> Seq<T>
    decreases if from < to { to - from } else { 0 },
{
    if step <= 0 || from >= to {
        Seq::empty()
    } else {
        seq![s[from]] + stepped(s, from + step, to, step)
    }
}

/// What a slice with the given bounds and step selects from `s`: nothing when
/// either bound cannot be resolved against the length of `s`.
pub open spec fn slice_of<T>(s: Seq<T>, start: int, end: int, step: int) -> Seq<T> {
    match (normalize(start, s.len() as int), normalize(end, s.len() as int)) {
        (Some(a), Some(b)) => stepped(s, a, b, step),
        _ => Seq::empty(),
    }
}

/// What a slice selects from a node: nothing unless the node is an array.
pub open spec fn slice_sel(sl: ArraySlice, ctx: Json) -> Seq<Json> {
    match ctx {
        Json::Array(v) => slice_of(v@, sl.start_index as int, sl.end_index as int, sl.step as int),
        _ => Seq::empty(),
    }
}

/// What an index selects from a node: the element at `i` when the node is an
/// array and `0 <= i < len`, and nothing otherwise.
pub open spec fn index_sel(i: int, ctx: Json) -> Seq<Json> {
    match ctx {
        Json::Array(v) => if 0 <= i < v.len() { seq![v@[i]] } else { Seq::empty() },
        _ => Seq::empty(),
    }
}

/// What a field access selects from a node: the value stored under `key` when
/// the node is an object holding that key, and nothing otherwise.
pub open spec fn field_sel(key: Seq<char>, ctx: Json) -> Seq<Json> {
    match ctx {
        Json::Object(m) => match lookup(m@, key) {
            Some(v) => seq![v],
            None => Seq::empty(),
        },
        _ => Seq::empty(),
    }
}

/// An optional index seen as a mathematical integer.
pub open spec fn opt_int(o: Option<usize>) -> Option<int> {
    match o {
        Some(v) => Some(v as int),
        None => None,
    }
}

/// Selects every `step`-th element of an array in the half-open range
/// between two bounds, each of which may count from the end when negative.
/// A bound that falls outside the array, or a step of zero, selects nothing.
#[derive(Debug)]
pub struct ArraySlice {
    pub start_index: i64,
    pub end_index: i64,
    pub step: usize,
}

fn normalize_bound(b: i64, len: usize) -> (r: Option<usize>)
    ensures
        opt_int(r) == normalize(b as int, len as int),
{
    if b >= 0 {
        if (b as i128) > (len as i128) { None } else { Some(b as usize) }
    } else {
        if (b as i128) < -(len as i128) { None } else { Some(((len as i128) + (b as i128)) as usize) }
    }
}

impl ArraySlice {
    pub fn new(start_index: i64, end_index: i64, step: usize) -> (r: ArraySlice)
        ensures
            r.start_index == start_index,
            r.end_index == end_index,
            r.step == step,
    {
        ArraySlice { start_index, end_index, step }
    }

    /// The end bound resolved against `len`, or `None` when it lies outside.
    pub fn end(&self, len: usize) -> (r: Option<usize>)
        ensures
            opt_int(r) == normalize(self.end_index as int, len as int),
    {
        normalize_bound(self.end_index, len)
    }

    /// The start bound resolved against `len`, or `None` when it lies outside.
    pub fn start(&self, len: usize) -> (r: Option<usize>)
        ensures
            opt_int(r) == normalize(self.start_index as int, len as int),
    {
        normalize_bound(self.start_index, len)
    }

    /// References to the elements of `elements` that this slice selects.
    pub fn process<'a, T>(&self, elements: &'a Vec<T>) -> (r: Vec<&'a T>)
        ensures
            targets(r@) == slice_of(elements@, self.start_index as int, self.end_index as int, self.step as int),
    {
        let len = elements.len();
        let mut filtered_elems: Vec<&'a T> = Vec::new();
        match (self.start(len), self.end(len)) {
            (Some(start_idx), Some(end_idx)) => {
                if self.step == 0 {
                    return filtered_elems;
                }
                let ghost whole = stepped(elements@, start_idx as int, end_idx as int, self.step as int);
                let mut idx: usize = start_idx;
                while idx < end_idx
                    invariant
                        end_idx <= elements.len(),
                        self.step > 0,
                        targets(filtered_elems@) + stepped(elements@, idx as int, end_idx as int, self.step as int) == whole,
                    decreases end_idx - idx,
                {
                    let ghost before = filtered_elems@;
                    let ghost at = idx as int;
                    filtered_elems.push(&elements[idx]);
                    if end_idx - idx <= self.step {
                        idx = end_idx;
                    } else {
                        idx = idx + self.step;
                    }
                    proof {
                        let st = self.step as int;
                        assert(targets(filtered_elems@) =~= targets(before) + seq![elements@[at]]);
                        assert(stepped(elements@, at + st, end_idx as int, st)
                            == stepped(elements@, idx as int, end_idx as int, st));
                        assert(targets(filtered_elems@) + stepped(elements@, idx as int, end_idx as int, st)
                            =~= targets(before) + stepped(elements@, at, end_idx as int, st));
                    }
                }
                filtered_elems
            }
            _ => filtered_elems,
        }
    }

    /// Applies the slice to `data`: nothing unless `data` is an array.
    pub fn path<'a>(&self, data: &'a Json) -> (r: Vec<&'a Json>)
        ensures
            targets(r@) == slice_sel(*self, *data),
    {
        match data {
            Json::Array(elems) => self.process(elems),
            _ => Vec::new(),
        }
    }
}

/// Selects the node it is applied to: the selector of an expression that is
/// not recognised.
pub struct EmptyPath {}

impl EmptyPath {
    pub fn path<'a>(&self, data: &'a Json) -> (r: Vec<&'a Json>)
        ensures
            targets(r@) == seq![*data],
    {
        let r: Vec<&'a Json> = vec![data];
        proof {
            assert(targets(r@) =~= seq![*data]);
        }
        r
    }
}

/// Selects the document root captured at construction, whatever node it is
/// applied to.
pub struct RootPointer<'a, T> {
    pub root: &'a T,
}

impl<'a, T> RootPointer<'a, T> {
    pub fn new(root: &'a T) -> (r: RootPointer<'a, T>)
        ensures
            r.root == root,
    {
        RootPointer { root }
    }
}

impl<'a> RootPointer<'a, Json> {
    pub fn path(&self, _data: &'a Json) -> (r: Vec<&'a Json>)
        ensures
            targets(r@) == seq![*self.root],
    {
        let r: Vec<&'a Json> = vec![self.root];
        proof {
            assert(targets(r@) =~= seq![*self.root]);
        }
        r
    }
}

/// Selects one element of an array by its position.
pub struct ArrayIndex {
    pub index: i64,
}

impl ArrayIndex {
    pub fn new(index: i64) -> (r: ArrayIndex)
        ensures
            r.index == index,
    {
        ArrayIndex { index }
    }

    pub fn path<'a>(&self, data: &'a Json) -> (r: Vec<&'a Json>)
        ensures
            targets(r@) == index_sel(self.index as int, *data),
    {
        let mut r: Vec<&'a Json> = Vec::new();
        match data {
            Json::Array(elems) => {
                if 0 <= self.index && (self.index as i128) < (elems.len() as i128) {
                    r.push(&elems[self.index as usize]);
                }
            },
            _ => {},
        }
        proof {
            assert(targets(r@) =~= index_sel(self.index as int, *data));
        }
        r
    }
}

/// Selects the value stored under one key of an object.
pub struct ObjectField<'a> {
    pub key: &'a String,
}

impl<'a> ObjectField<'a> {
    pub fn new(key: &'a String) -> (r: ObjectField<'a>)
        ensures
            r.key == key,
    {
        ObjectField { key }
    }

    pub fn path<'b>(&self, data: &'b Json) -> (r: Vec<&'b Json>)
        ensures
            targets(r@) == field_sel(self.key@, *data),
    {
        let mut r: Vec<&'b Json> = Vec::new();
        match data {
            Json::Object(members) => {
                match get_member(members, self.key) {
                    Some(v) => r.push(v),
                    None => {},
                }
            },
            _ => {},
        }
        proof {
            assert(targets(r@) =~= field_sel(self.key@, *data));
        }
        r
    }
}


/// A selector bound to a document: one of a closed set of kinds.
pub enum PathInstance<'a> {
    Empty(EmptyPath),
    Root(RootPointer<'a, Json>),
    Field(ObjectField<'a>),
    Index(ArrayIndex),
    Slice(ArraySlice),
    Chain(Chain<'a>),
}

/// The nodes that selector `p` selects from `ctx`, in document order.
pub open spec fn eval<'a>(p: PathInstance<'a>, ctx: Json) -> Seq<Json>
    decreases p, 0int,
{
    match p {
        PathInstance::Empty(_) => seq![ctx],
        PathInstance::Root(r) => seq![*r.root],
        PathInstance::Field(f) => field_sel(f.key@, ctx),
        PathInstance::Index(i) => index_sel(i.index as int, ctx),
        PathInstance::Slice(sl) => slice_sel(sl, ctx),
        PathInstance::Chain(c) => chain_eval(c.chain@, c.chain@.len() as int, seq![ctx]),
    }
}

/// The concatenation, in order, of what `p` selects from each node of `ctxs`.
pub open spec fn eval_all<'a>(p: PathInstance<'a>, ctxs: Seq<Json>) -> Seq<Json>
    decreases p, ctxs.len() + 1,
{
    if ctxs.len() == 0 {
        Seq::empty()
    } else {
        eval_all(p, ctxs.drop_last()) + eval(p, ctxs.last())
    }
}

/// The nodes reached from `init` by applying the first `n` of `steps` in turn,
/// each to every node that the steps before it reached.
pub open spec fn chain_eval<'a>(steps: Seq<PathInstance<'a>>, n: int, init: Seq<Json>) -> Seq<Json>
    decreases steps, n,
{
    if n <= 0 || n > steps.len() {
        init
    } else {
        eval_all(steps[n - 1], chain_eval(steps, n - 1, init))
    }
}

impl<'a> PathInstance<'a> {
    /// Applies the selector to `data`.
    pub fn path(&self, data: &'a Json) -> (r: Vec<&'a Json>)
        ensures
            targets(r@) == eval(*self, *data),
        decreases self,
    {
        match self {
            PathInstance::Empty(e) => e.path(data),
            PathInstance::Root(r) => r.path(data),
            PathInstance::Field(f) => f.path(data),
            PathInstance::Index(i) => i.path(data),
            PathInstance::Slice(sl) => sl.path(data),
            PathInstance::Chain(c) => c.path(data),
        }
    }
}

/// A sequence of selectors applied one after another.
pub struct Chain<'a> {
    pub chain: Vec<PathInstance<'a>>,
}

impl<'a> Chain<'a> {
    pub fn new(chain: Vec<PathInstance<'a>>) -> (r: Self)
        ensures
            r.chain == chain,
    {
        Chain { chain }
    }

    /// A field access followed by an index or a slice.
    pub fn from_index(key: PathInstance<'a>, index: PathInstance<'a>) -> (r: Self)
        ensures
            r.chain@ == seq![key, index],
    {
        let r = Chain::new(vec![key, index]);
        proof {
            assert(r.chain@ =~= seq![key, index]);
        }
        r
    }

    /// Applies the steps in order, starting from `data`, each to every node
    /// that the steps before it selected.
    pub fn path(&self, data: &'a Json) -> (r: Vec<&'a Json>)
        ensures
            targets(r@) == chain_eval(self.chain@, self.chain@.len() as int, seq![*data]),
        decreases self,
    {
        let mut acc: Vec<&'a Json> = vec![data];
        proof {
            assert(targets(acc@) =~= seq![*data]);
        }
        let mut i: usize = 0;
        while i < self.chain.len()
            invariant
                i <= self.chain.len(),
                targets(acc@) == chain_eval(self.chain@, i as int, seq![*data]),
            decreases self.chain.len() - i,
        {
            let step = &self.chain[i];
            let mut next: Vec<&'a Json> = Vec::new();
            let mut j: usize = 0;
            proof {
                assert(targets(acc@).subrange(0, 0) =~= Seq::<Json>::empty());
                assert(targets(next@) =~= Seq::<Json>::empty());
            }
            while j < acc.len()
                invariant
                    i < self.chain.len(),
                    j <= acc.len(),
                    *step == self.chain@[i as int],
                    targets(next@) == eval_all(*step, targets(acc@).subrange(0, j as int)),
                decreases acc.len() - j,
            {
                proof {
                    assert(decreases_to!(*self => self.chain));
                    assert(decreases_to!(self.chain => self.chain@));
                    assert(decreases_to!(self.chain@ => self.chain@[i as int]));
                }
                let mut part = step.path(acc[j]);
                let ghost before = next@;
                next.append(&mut part);
                proof {
                    let done = targets(acc@).subrange(0, j + 1);
                    assert(done.drop_last() =~= targets(acc@).subrange(0, j as int));
                    assert(targets(next@) =~= targets(before) + eval(*step, done.last()));
                }
                j = j + 1;
            }
            proof {
                assert(targets(acc@).subrange(0, acc@.len() as int) =~= targets(acc@));
            }
            acc = next;
            i = i + 1;
        }
        acc
    }
}

} // verus!
