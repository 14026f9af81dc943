use jsonpath_select::document::Json;
use jsonpath_select::expression::{evaluate, process_path, JsonPath, JsonPathIndex};
use jsonpath_select::selector::{
    ArrayIndex, ArraySlice, Chain, EmptyPath, ObjectField, PathInstance, RootPointer,
};

fn to_json(v: &serde_json::Value) -> Json {
    match v {
        serde_json::Value::Null => Json::Null,
        serde_json::Value::Bool(b) => Json::Bool(*b),
        serde_json::Value::Number(n) => Json::Number(n.to_string()),
        serde_json::Value::String(s) => Json::String(s.clone()),
        serde_json::Value::Array(a) => Json::Array(a.iter().map(to_json).collect()),
        serde_json::Value::Object(m) => {
            Json::Object(m.iter().map(|(k, v)| (k.clone(), to_json(v))).collect())
        }
    }
}

fn parse(text: &str) -> Result<Json, serde_json::Error> {
    serde_json::from_str::<serde_json::Value>(text).map(|v| to_json(&v))
}

fn num(n: i64) -> Json {
    Json::Number(n.to_string())
}

fn field(name: &str) -> JsonPath {
    JsonPath::Field(String::from(name))
}

#[test]
fn array_slice_end_start_test() {
    let array = vec![0, 1, 2, 3, 4, 5];
    let len = array.len();
    let mut slice = ArraySlice::new(0, 0, 0);

    assert_eq!(slice.start(len).unwrap(), 0);
    slice.start_index = 1;

    assert_eq!(slice.start(len).unwrap(), 1);

    slice.start_index = 2;
    assert_eq!(slice.start(len).unwrap(), 2);

    slice.start_index = 5;
    assert_eq!(slice.start(len).unwrap(), 5);

    slice.start_index = 7;
    assert_eq!(slice.start(len), None);

    slice.start_index = -1;
    assert_eq!(slice.start(len).unwrap(), 5);

    slice.start_index = -5;
    assert_eq!(slice.start(len).unwrap(), 1);

    slice.end_index = 0;
    assert_eq!(slice.end(len).unwrap(), 0);

    slice.end_index = 5;
    assert_eq!(slice.end(len).unwrap(), 5);

    slice.end_index = -1;
    assert_eq!(slice.end(len).unwrap(), 5);

    slice.end_index = -5;
    assert_eq!(slice.end(len).unwrap(), 1);
}

#[test]
fn slice_test() {
    let array = parse(r#"[0,1,2,3,4,5,6,7,8,9,10]"#).unwrap();

    let mut slice = ArraySlice::new(0, 6, 2);
    assert_eq!(slice.path(&array), vec![&num(0), &num(2), &num(4)]);

    slice.step = 3;
    assert_eq!(slice.path(&array), vec![&num(0), &num(3)]);

    slice.start_index = -1;
    slice.end_index = 1;

    assert!(slice.path(&array).is_empty());

    slice.start_index = -10;
    slice.end_index = 10;

    assert_eq!(slice.path(&array), vec![&num(1), &num(4), &num(7)]);
}

#[test]
fn index_test() {
    let array = parse(r#"[0,1,2,3,4,5,6,7,8,9,10]"#).unwrap();

    let mut index = ArrayIndex::new(0);

    assert_eq!(index.path(&array), vec![&num(0)]);
    index.index = 10;
    assert_eq!(index.path(&array), vec![&num(10)]);
    index.index = 100;
    assert!(index.path(&array).is_empty());
}

#[test]
fn object_test() {
    let res_income = parse(r#"{"product": {"key":42}}"#).unwrap();

    let key = String::from("product");
    let mut field = ObjectField::new(&key);
    assert_eq!(field.path(&res_income), vec![&parse(r#"{"key":42}"#).unwrap()]);

    let key = String::from("fake");

    field.key = &key;
    assert!(field.path(&res_income).is_empty());
}

#[test]
fn root_test() {
    let res_income = parse(r#"{"product": {"key":42}}"#).unwrap();

    let root = RootPointer::<Json>::new(&res_income);

    assert_eq!(root.path(&res_income), vec![&res_income])
}

#[test]
fn path_instance_test() {
    let json = parse(r#"{"v": {"k":{"f":42,"array":[0,1,2,3,4,5]}}}"#).unwrap();

    let root = JsonPath::Root;
    let path_inst = process_path(&root, &json);
    assert_eq!(path_inst.path(&json), vec![&json]);

    let field1 = field("v");

    let path_inst = process_path(&field1, &json);
    let exp_json = parse(r#"{"k":{"f":42,"array":[0,1,2,3,4,5]}}"#).unwrap();
    assert_eq!(path_inst.path(&json), vec![&exp_json]);

    let chain = JsonPath::Path(vec![JsonPath::Root, field("v"), field("k"), field("f")]);

    let path_inst = process_path(&chain, &json);
    let exp_json = parse(r#"42"#).unwrap();
    assert_eq!(path_inst.path(&json), vec![&exp_json]);

    let index = JsonPath::Index(String::from("array"), JsonPathIndex::Single(3));
    let chain = JsonPath::Path(vec![JsonPath::Root, field("v"), field("k"), index]);

    let path_inst = process_path(&chain, &json);
    let exp_json = parse(r#"3"#).unwrap();
    assert_eq!(path_inst.path(&json), vec![&exp_json]);

    let index = JsonPath::Index(String::from("array"), JsonPathIndex::Slice(1, -1, 2));
    let chain = JsonPath::Path(vec![JsonPath::Root, field("v"), field("k"), index]);
    let path_inst = process_path(&chain, &json);
    let one = num(1);
    let tree = num(3);
    assert_eq!(path_inst.path(&json), vec![&one, &tree]);
}

#[test]
fn index_inside_and_past_end() {
    let array = parse("[7,8,9]").unwrap();
    assert_eq!(ArrayIndex::new(2).path(&array), vec![&num(9)]);
    assert!(ArrayIndex::new(3).path(&array).is_empty());
    assert!(ArrayIndex::new(-1).path(&array).is_empty());
    assert!(ArrayIndex::new(0).path(&num(7)).is_empty());
}

#[test]
fn full_slice_is_whole_array() {
    let array = parse("[5,6,7,8]").unwrap();
    assert_eq!(
        ArraySlice::new(0, 4, 1).path(&array),
        vec![&num(5), &num(6), &num(7), &num(8)]
    );
    let empty = parse("[]").unwrap();
    assert!(ArraySlice::new(0, 0, 1).path(&empty).is_empty());
}

#[test]
fn negative_start_matches_positive_start() {
    let array = parse("[0,1,2,3,4,5]").unwrap();
    for k in 1..=6i64 {
        for e in [-6i64, -3, -1, 0, 2, 6] {
            for s in [1usize, 2, 4] {
                assert_eq!(
                    ArraySlice::new(-k, e, s).path(&array),
                    ArraySlice::new(6 - k, e, s).path(&array)
                );
            }
        }
    }
}

#[test]
fn slice_walks_by_step_below_end() {
    let array = parse("[0,1,2,3,4,5,6,7,8,9]").unwrap();
    assert_eq!(
        ArraySlice::new(1, 9, 3).path(&array),
        vec![&num(1), &num(4), &num(7)]
    );
    assert_eq!(ArraySlice::new(2, 3, 5).path(&array), vec![&num(2)]);
    assert!(ArraySlice::new(5, 2, 1).path(&array).is_empty());
    assert_eq!(
        ArraySlice::new(0, 10, usize::MAX).path(&array),
        vec![&num(0)]
    );
}

#[test]
fn slice_bound_outside_array_selects_nothing() {
    let array = parse("[0,1,2]").unwrap();
    assert!(ArraySlice::new(-4, 3, 1).path(&array).is_empty());
    assert!(ArraySlice::new(0, 4, 1).path(&array).is_empty());
    assert!(ArraySlice::new(i64::MIN, i64::MAX, 1).path(&array).is_empty());
    assert_eq!(ArraySlice::new(0, 0, 1).start(3), Some(0));
    assert_eq!(ArraySlice::new(i64::MIN, 0, 1).start(3), None);
    assert_eq!(ArraySlice::new(0, -3, 1).end(3), Some(0));
    assert_eq!(ArraySlice::new(0, -4, 1).end(3), None);
}

#[test]
fn zero_step_selects_nothing() {
    let array = parse("[0,1,2]").unwrap();
    assert!(ArraySlice::new(0, 3, 0).path(&array).is_empty());
}

#[test]
fn slice_on_non_array_selects_nothing() {
    let obj = parse(r#"{"a":1}"#).unwrap();
    assert!(ArraySlice::new(0, 1, 1).path(&obj).is_empty());
}

#[test]
fn process_on_plain_vector() {
    let items = vec![10u8, 20, 30, 40, 50];
    assert_eq!(ArraySlice::new(-4, -1, 2).process(&items), vec![&20u8, &40]);
}

#[test]
fn chain_of_two_concatenates_per_node() {
    let doc = parse(r#"[[1,2],[3],[4,5,6]]"#).unwrap();
    let first = PathInstance::Slice(ArraySlice::new(0, 3, 1));
    let second = PathInstance::Slice(ArraySlice::new(0, -1, 1));
    let chain = Chain::from_index(first, second);
    assert_eq!(chain.path(&doc), vec![&num(1), &num(4), &num(5)]);

    let mut expected: Vec<&Json> = Vec::new();
    for m in ArraySlice::new(0, 3, 1).path(&doc) {
        expected.extend(ArraySlice::new(0, -1, 1).path(m));
    }
    assert_eq!(chain.path(&doc), expected);
}

#[test]
fn empty_chain_is_identity() {
    let doc = parse("[1]").unwrap();
    let chain = Chain::new(Vec::new());
    assert_eq!(chain.path(&doc), vec![&doc]);
}

#[test]
fn field_on_non_object_selects_nothing() {
    let key = String::from("a");
    let f = ObjectField::new(&key);
    assert!(f.path(&parse(r#"["a"]"#).unwrap()).is_empty());
    assert!(f.path(&num(1)).is_empty());
    assert!(f.path(&Json::Null).is_empty());
    assert!(f.path(&Json::String(String::from("a"))).is_empty());
}

#[test]
fn field_takes_first_member_with_key() {
    let obj = Json::Object(vec![
        (String::from("a"), num(1)),
        (String::from("b"), num(2)),
        (String::from("a"), num(3)),
    ]);
    let key = String::from("a");
    assert_eq!(ObjectField::new(&key).path(&obj), vec![&num(1)]);
    let key = String::from("b");
    assert_eq!(ObjectField::new(&key).path(&obj), vec![&num(2)]);
}

#[test]
fn unrecognized_expression_selects_context() {
    let doc = parse(r#"{"a":[1,2]}"#).unwrap();
    let inner = parse("[1,2]").unwrap();
    let expr = JsonPath::Unrecognized;
    let sel = process_path(&expr, &doc);
    assert_eq!(sel.path(&inner), vec![&inner]);
    assert_eq!(EmptyPath {}.path(&inner), vec![&inner]);
}

#[test]
fn root_ignores_context() {
    let doc = parse(r#"{"a":[1,2]}"#).unwrap();
    let inner = parse("[1,2]").unwrap();
    let chain = JsonPath::Path(vec![field("a"), JsonPath::Root]);
    let sel = process_path(&chain, &doc);
    assert_eq!(sel.path(&doc), vec![&doc]);
    assert_eq!(sel.path(&inner), Vec::<&Json>::new());
}

#[test]
fn evaluate_scenario() {
    let doc = parse(r#"{"v":{"k":{"f":42,"array":[0,1,2,3,4,5]}}}"#).unwrap();
    assert_eq!(evaluate(&JsonPath::Root, &doc), vec![&doc]);
    let expr = JsonPath::Path(vec![JsonPath::Root, field("v")]);
    assert_eq!(
        evaluate(&expr, &doc),
        vec![&parse(r#"{"k":{"f":42,"array":[0,1,2,3,4,5]}}"#).unwrap()]
    );
    let expr = JsonPath::Path(vec![JsonPath::Root, field("v"), field("k"), field("f")]);
    assert_eq!(evaluate(&expr, &doc), vec![&num(42)]);
    let expr = JsonPath::Path(vec![
        JsonPath::Root,
        field("v"),
        field("k"),
        JsonPath::Index(String::from("array"), JsonPathIndex::Single(3)),
    ]);
    assert_eq!(evaluate(&expr, &doc), vec![&num(3)]);
    let expr = JsonPath::Path(vec![
        JsonPath::Root,
        field("v"),
        field("k"),
        JsonPath::Index(String::from("array"), JsonPathIndex::Slice(1, -1, 2)),
    ]);
    assert_eq!(evaluate(&expr, &doc), vec![&num(1), &num(3)]);
    let expr = JsonPath::Path(vec![field("v"), field("missing")]);
    assert!(evaluate(&expr, &doc).is_empty());
    let expr = JsonPath::Index(String::from("v"), JsonPathIndex::Single(0));
    assert!(evaluate(&expr, &doc).is_empty());
}

#[test]
fn chain_from_expressions() {
    let doc = parse(r#"{"a":{"b":[1,2,3]}}"#).unwrap();
    let steps = vec![field("a"), JsonPath::Index(String::from("b"), JsonPathIndex::Slice(-2, 3, 1))];
    let chain = Chain::from(&steps, &doc);
    assert_eq!(chain.chain.len(), 2);
    assert_eq!(chain.path(&doc), vec![&num(2), &num(3)]);
}
