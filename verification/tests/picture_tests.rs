use galaxy::eval::{BuiltIn, EvalError, State, Value};
use galaxy::picture::Picture;

fn ap(f: Value, a: Value) -> Value {
    Value::Apply(Box::new(f), Box::new(a))
}

fn num(n: i64) -> Value {
    Value::Number(n)
}

fn bi(b: BuiltIn) -> Value {
    Value::BuiltIn(b)
}

fn pair(x: i64, y: i64) -> Value {
    ap(ap(bi(BuiltIn::Cons), num(x)), num(y))
}

fn list(items: Vec<Value>) -> Value {
    let mut v = bi(BuiltIn::Nil);
    for item in items.into_iter().rev() {
        v = ap(ap(bi(BuiltIn::Cons), item), v);
    }
    v
}

#[test]
fn empty_picture_has_zero_bounds() {
    let p = Picture::new();
    assert_eq!(p.width(), 0);
    assert_eq!(p.height(), 0);
    assert_eq!(p.render(), Vec::<u8>::new());
}

#[test]
fn add_widens_bounds() {
    let mut p = Picture::new();
    p.add(2, 0);
    p.add(0, 4);
    assert_eq!(p.width(), 3);
    assert_eq!(p.height(), 5);
    assert!(p.contains(2, 0));
    assert!(p.contains(0, 4));
    assert!(!p.contains(1, 1));
}

#[test]
fn duplicate_points_collapse_for_containment() {
    let mut p = Picture::new();
    p.add(1, 1);
    p.add(1, 1);
    assert!(p.contains(1, 1));
    assert_eq!(p.width(), 2);
    assert_eq!(p.height(), 2);
}

#[test]
fn render_marks_rows_without_trailing_break() {
    let mut p = Picture::new();
    p.add(0, 0);
    p.add(1, 1);
    assert_eq!(p.render(), b"# \n #".to_vec());
}

#[test]
fn drawing_a_diagonal() {
    let st = State::new();
    let e = ap(bi(BuiltIn::Draw), list(vec![pair(0, 0), pair(1, 1)]));
    match st.eval_value(e, 100).unwrap() {
        Value::Picture(p) => {
            assert_eq!(p.width(), 2);
            assert_eq!(p.height(), 2);
            assert!(p.contains(0, 0));
            assert!(p.contains(1, 1));
            assert!(!p.contains(0, 1));
            assert!(!p.contains(1, 0));
        },
        other => panic!("expected a picture, got {:?}", other),
    }
}

#[test]
fn drawing_an_empty_list() {
    let st = State::new();
    let e = ap(bi(BuiltIn::Draw), bi(BuiltIn::Nil));
    match st.eval_value(e, 100).unwrap() {
        Value::Picture(p) => {
            assert_eq!(p.width(), 0);
            assert_eq!(p.height(), 0);
        },
        other => panic!("expected a picture, got {:?}", other),
    }
}

#[test]
fn drawing_a_malformed_list_fails() {
    let st = State::new();
    let e = ap(bi(BuiltIn::Draw), num(3));
    assert_eq!(st.eval_value(e, 100), Err(EvalError::MalformedList));
}

#[test]
fn drawing_negative_coordinates_fails() {
    let st = State::new();
    let e = ap(bi(BuiltIn::Draw), list(vec![pair(-1, 0)]));
    assert_eq!(st.eval_value(e, 100), Err(EvalError::MalformedList));
}

#[test]
fn multidraw_preserves_list_shape() {
    let st = State::new();
    let inner = list(vec![pair(0, 0)]);
    let e = ap(bi(BuiltIn::MultiDraw), list(vec![inner]));
    let out = st.eval_value(e, 100).unwrap();
    // cons (picture) nil, kept as a syntactic cons application
    match out {
        Value::Apply(f0, arg0) => {
            assert_eq!(*arg0, Value::BuiltIn(BuiltIn::Nil));
            match *f0 {
                Value::Apply(f1, arg1) => {
                    assert_eq!(*f1, Value::BuiltIn(BuiltIn::Cons));
                    match *arg1 {
                        Value::Picture(p) => {
                            assert_eq!(p.width(), 1);
                            assert_eq!(p.height(), 1);
                            assert!(p.contains(0, 0));
                        },
                        other => panic!("expected a picture, got {:?}", other),
                    }
                },
                other => panic!("expected a cons application, got {:?}", other),
            }
        },
        other => panic!("expected a cons application, got {:?}", other),
    }
}

#[test]
fn multidraw_of_nil_is_nil() {
    let st = State::new();
    let e = ap(bi(BuiltIn::MultiDraw), bi(BuiltIn::Nil));
    assert_eq!(st.eval_value(e, 100).unwrap(), bi(BuiltIn::Nil));
}
