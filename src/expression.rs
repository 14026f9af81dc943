use vstd::prelude::*;
use crate::document::{Json, targets, lookup};
use crate::selector::{
    ArrayIndex, ArraySlice, Chain, EmptyPath, ObjectField, PathInstance, RootPointer, eval,
    eval_all, chain_eval, field_sel, index_sel, slice_sel,
};

verus! {

/// How an array is indexed: one position, or a slice `start..end` walked
/// with a step. Negative slice bounds count from the end of the array.
pub enum JsonPathIndex {
    Single(i64),
    Slice(i64, i64, usize),
}

/// A path expression, as a parser of the textual syntax produces it.
pub enum JsonPath {
    /// The document root.
    Root,
    /// A member of an object.
    Field(String),
    /// A member of an object, then an index or slice into it.
    Index(String, JsonPathIndex),
    /// Expressions applied one after another.
    Path(Vec<JsonPath>),
    /// Any expression this evaluator has no dedicated selector for.
    Unrecognized,
}

/// What an index or slice selects from a node.
pub open spec fn index_meaning(ix: JsonPathIndex, ctx: Json) -> Seq<Json> {
    match ix {
        JsonPathIndex::Single(i) => index_sel(i as int, ctx),
        JsonPathIndex::Slice(s, e, st) => slice_sel(
            ArraySlice { start_index: s, end_index: e, step: st },
            ctx,
        ),
    }
}

/// What expression `p` selects from node `ctx` of a document whose root is
/// `root`, in document order.
pub open spec fn meaning(p: JsonPath, root: Json, ctx: Json) -> Seq<Json>
    decreases p, 0int,
{
    match p {
        JsonPath::Root => seq![root],
        JsonPath::Field(key) => field_sel(key@, ctx),
        JsonPath::Index(key, ix) => match ctx {
            Json::Object(m) => match lookup(m@, key@) {
                Some(v) => index_meaning(ix, v),
                None => Seq::empty(),
            },
            _ => Seq::empty(),
        },
        JsonPath::Path(steps) => steps_meaning(steps@, steps@.len() as int, root, seq![ctx]),
        JsonPath::Unrecognized => seq![ctx],
    }
}

/// The concatenation, in order, of what `p` selects from each node of `ctxs`.
pub open spec fn meaning_all(p: JsonPath, root: Json, ctxs: Seq<Json>) -> Seq<Json>
    decreases p, ctxs.len() + 1,
{
    if ctxs.len() == 0 {
        Seq::empty()
    } else {
        meaning_all(p, root, ctxs.drop_last()) + meaning(p, root, ctxs.last())
    }
}

/// The nodes reached from `init` by applying the first `n` of `steps` in turn.
pub open spec fn steps_meaning(steps: Seq<JsonPath>, n: int, root: Json, init: Seq<Json>) -> Seq<Json>
    decreases steps, n,
{
    if n <= 0 || n > steps.len() {
        init
    } else {
        meaning_all(steps[n - 1], root, steps_meaning(steps, n - 1, root, init))
    }
}

proof fn lemma_all_agree<'a>(p: PathInstance<'a>, q: JsonPath, root: Json, ctxs: Seq<Json>)
    requires
        forall|c: Json| #[trigger] eval(p, c) == meaning(q, root, c),
    ensures
        eval_all(p, ctxs) == meaning_all(q, root, ctxs),
    decreases ctxs.len(),
{
    if ctxs.len() > 0 {
        lemma_all_agree(p, q, root, ctxs.drop_last());
        assert(eval(p, ctxs.last()) == meaning(q, root, ctxs.last()));
    }
}

proof fn lemma_steps_agree<'a>(
    steps: Seq<PathInstance<'a>>,
    exprs: Seq<JsonPath>,
    n: int,
    root: Json,
    init: Seq<Json>,
)
    requires
        steps.len() == exprs.len(),
        forall|i: int, c: Json| 0 <= i < steps.len() ==> #[trigger] eval(steps[i], c) == meaning(exprs[i], root, c),
    ensures
        chain_eval(steps, n, init) == steps_meaning(exprs, n, root, init),
    decreases n,
{
    if n > 0 && n <= steps.len() {
        lemma_steps_agree(steps, exprs, n - 1, root, init);
        assert forall|c: Json| #[trigger] eval(steps[n - 1], c) == meaning(exprs[n - 1], root, c) by {}
        lemma_all_agree(steps[n - 1], exprs[n - 1], root, steps_meaning(exprs, n - 1, root, init));
    }
}

/// The selector for an index or a slice.
pub fn process_path_index<'a>(json_path_index: &'a JsonPathIndex, _root: &'a Json) -> (r: PathInstance<'a>)
    ensures
        forall|c: Json| #[trigger] eval(r, c) == index_meaning(*json_path_index, c),
{
    match json_path_index {
        JsonPathIndex::Single(index) => PathInstance::Index(ArrayIndex::new(*index)),
        JsonPathIndex::Slice(s, e, step) => PathInstance::Slice(ArraySlice::new(*s, *e, *step)),
    }
}

/// The selector for `json_path`, bound to the document root `root`. Every
/// expression gets one: an unrecognised one selects the node it is applied to.
pub fn process_path<'a>(json_path: &'a JsonPath, root: &'a Json) -> (r: PathInstance<'a>)
    ensures
        forall|c: Json| #[trigger] eval(r, c) == meaning(*json_path, *root, c),
    decreases json_path,
{
    match json_path {
        JsonPath::Root => PathInstance::Root(RootPointer::new(root)),
        JsonPath::Field(key) => PathInstance::Field(ObjectField::new(key)),
        JsonPath::Path(chain) => {
            let c = Chain::from(chain, root);
            let r = PathInstance::Chain(c);
            proof {
                assert forall|ctx: Json| #[trigger] eval(r, ctx) == meaning(*json_path, *root, ctx) by {
                    lemma_steps_agree(c.chain@, chain@, chain@.len() as int, *root, seq![ctx]);
                }
            }
            r
        },
        JsonPath::Index(key, index) => {
            let field = PathInstance::Field(ObjectField::new(key));
            let sel = process_path_index(index, root);
            let c = Chain::from_index(field, sel);
            let r = PathInstance::Chain(c);
            proof {
                assert forall|ctx: Json| #[trigger] eval(r, ctx) == meaning(*json_path, *root, ctx) by {
                    let s = c.chain@;
                    let one = seq![ctx];
                    assert(s[0] == field && s[1] == sel);
                    assert(one.drop_last() =~= Seq::<Json>::empty());
                    assert(eval_all(field, Seq::<Json>::empty()) == Seq::<Json>::empty());
                    assert(eval_all(field, one) == eval_all(field, one.drop_last()) + eval(field, one.last()));
                    let found = eval(field, ctx);
                    assert(eval_all(field, one) =~= found);
                    assert(chain_eval(s, 0, one) == one);
                    assert(chain_eval(s, 1, one) == eval_all(field, one));
                    assert(chain_eval(s, 2, one) == eval_all(sel, found));
                    if found.len() == 1 {
                        assert(found.drop_last() =~= Seq::<Json>::empty());
                        assert(eval_all(sel, found.drop_last()) == Seq::<Json>::empty());
                        assert(eval_all(sel, found) =~= eval(sel, found[0]));
                    } else {
                        assert(found.len() == 0);
                        assert(eval_all(sel, found) == Seq::<Json>::empty());
                    }
                }
            }
            r
        },
        JsonPath::Unrecognized => PathInstance::Empty(EmptyPath {}),
    }
}

impl<'a> Chain<'a> {
    /// The chain of the selectors for `chain`, each bound to `root`.
    pub fn from(chain: &'a Vec<JsonPath>, root: &'a Json) -> (r: Self)
        ensures
            r.chain@.len() == chain@.len(),
            forall|i: int, c: Json| 0 <= i < chain@.len() ==>
                #[trigger] eval(r.chain@[i], c) == meaning(chain@[i], *root, c),
        decreases chain,
    {
        let mut steps: Vec<PathInstance<'a>> = Vec::new();
        let mut i: usize = 0;
        while i < chain.len()
            invariant
                i <= chain.len(),
                steps@.len() == i,
                forall|k: int, c: Json| 0 <= k < i ==>
                    #[trigger] eval(steps@[k], c) == meaning(chain@[k], *root, c),
            decreases chain.len() - i,
        {
            proof {
                assert(decreases_to!(chain => chain@));
                assert(decreases_to!(chain@ => chain@[i as int]));
            }
            let p = process_path(&chain[i], root);
            steps.push(p);
            i = i + 1;
        }
        Chain::new(steps)
    }
}

/// Evaluates `expr` on the document `doc`: references to the nodes it selects,
/// in document order.
pub fn evaluate<'a>(expr: &'a JsonPath, doc: &'a Json) -> (r: Vec<&'a Json>)
    ensures
        targets(r@) == meaning(*expr, *doc, *doc),
{
    let sel = process_path(expr, doc);
    sel.path(doc)
}

} // verus!
