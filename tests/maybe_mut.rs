use mwt::args::MacroError;
use mwt::engine::Fault;
use mwt::tree::{FnItem, Tree};
use mwt::{maybe_mut, mwt};

fn s(x: &str) -> Vec<char> {
    x.chars().collect()
}

fn ident(x: &str) -> Tree {
    Tree::Ident(s(x))
}

fn tok(x: &str) -> Tree {
    Tree::Token(s(x))
}

fn ty(name: &str) -> Tree {
    Tree::Path(true, false, vec![Tree::Segment(s(name), false, vec![])])
}

fn ty_args(name: &str, args: Vec<Tree>) -> Tree {
    Tree::Path(true, false, vec![Tree::Segment(s(name), true, args)])
}

fn path(name: &str) -> Tree {
    Tree::Path(false, false, vec![Tree::Segment(s(name), false, vec![])])
}

fn reference(m: bool, t: Tree) -> Tree {
    Tree::Ref(m, Box::new(t))
}

fn node(kind: &str, cs: Vec<Tree>) -> Tree {
    Tree::Node(s(kind), cs)
}

fn param(name: &str, t: Tree) -> Tree {
    node("param", vec![ident(name), t])
}

fn block(stmts: Vec<Tree>) -> Tree {
    Tree::Block(vec![], stmts)
}

fn tagged(tag: &str, stmts: Vec<Tree>) -> Tree {
    Tree::Block(vec![s(tag)], stmts)
}

fn empty_block() -> Tree {
    Tree::Block(vec![], vec![])
}

fn raw(stmts: Vec<Tree>) -> Tree {
    Tree::Splice(false, stmts)
}

fn call(f: Tree, args: Vec<Tree>) -> Tree {
    Tree::Call(Box::new(f), args)
}

fn method(recv: Tree, name: &str, args: Vec<Tree>) -> Tree {
    let mut cs = vec![recv, ident(name)];
    cs.extend(args);
    node("method_call", cs)
}

fn field(base: Tree, name: &str) -> Tree {
    node("field", vec![base, ident(name)])
}

fn no_flags() -> Vec<Vec<char>> {
    vec![]
}

fn my_function(val: &i32) -> &i32 {
    val
}

fn my_mut_function(val: &mut i32) -> &mut i32 {
    val
}

#[test]
fn simple_test() {
    let input = FnItem {
        name: s("my_mwt_function"),
        inputs: vec![param("val", reference(false, ty_args("Mwt", vec![ty("i32")])))],
        output: reference(false, ty_args("Mwt", vec![ty("i32")])),
        body: block(vec![path("val")]),
    };
    let (ro, mu) = mwt(&no_flags(), input).unwrap();
    assert_eq!(
        ro,
        FnItem {
            name: s("my_function"),
            inputs: vec![param("val", reference(false, ty("i32")))],
            output: reference(false, ty("i32")),
            body: block(vec![path("val")]),
        }
    );
    assert_eq!(
        mu,
        FnItem {
            name: s("my_mut_function"),
            inputs: vec![param("val", reference(true, ty("i32")))],
            output: reference(true, ty("i32")),
            body: block(vec![path("val")]),
        }
    );

    let a = 3;
    let a_ref = my_function(&a);

    let mut b = 5;
    let b_mut = my_mut_function(&mut b);

    *b_mut += 7;

    let c = *a_ref + b;

    assert_eq!(c, 15);
}

fn opt_type(m: Option<bool>) -> Tree {
    match m {
        None => ty_args("Option", vec![reference(false, ty_args("Mwt", vec![ty("u64")]))]),
        Some(b) => ty_args("Option", vec![reference(b, ty("u64"))]),
    }
}

fn double_v() -> Tree {
    node("assign_op", vec![node("unary", vec![tok("*"), path("v")]), tok("*="), tok("2")])
}

fn opt_body(inner: Tree) -> Tree {
    block(vec![node(
        "if",
        vec![
            node("let", vec![node("tuple_struct", vec![path("Some"), ident("v")]), path("val")]),
            block(vec![inner, call(path("Some"), vec![path("v")])]),
            block(vec![path("None")]),
        ],
    )])
}

fn my_opt_function(val: Option<&u64>) -> Option<&u64> {
    if let Some(v) = val {
        {}
        Some(v)
    } else {
        None
    }
}

fn my_opt_mut_function(val: Option<&mut u64>) -> Option<&mut u64> {
    if let Some(v) = val {
        *v *= 2;
        Some(v)
    } else {
        None
    }
}

#[test]
fn opt_test() {
    let input = FnItem {
        name: s("my_opt_mwt_function"),
        inputs: vec![param("val", opt_type(None))],
        output: opt_type(None),
        body: opt_body(tagged("if_mut", vec![double_v()])),
    };
    let (ro, mu) = mwt(&no_flags(), input).unwrap();
    assert_eq!(
        ro,
        FnItem {
            name: s("my_opt_function"),
            inputs: vec![param("val", opt_type(Some(false)))],
            output: opt_type(Some(false)),
            body: opt_body(empty_block()),
        }
    );
    assert_eq!(
        mu,
        FnItem {
            name: s("my_opt_mut_function"),
            inputs: vec![param("val", opt_type(Some(true)))],
            output: opt_type(Some(true)),
            body: opt_body(raw(vec![double_v()])),
        }
    );

    assert_eq!(my_opt_function(None), None);

    let mut u = 3u64;

    let o = Some(&mut u);
    let o = my_opt_mut_function(o);

    let v = *(o.unwrap());

    assert_eq!(v, 6u64);
    assert_eq!(u, 6u64);
}

struct SomeStruct {
    id: usize,
    a_vector: Vec<SomeStruct>,
}

impl SomeStruct {
    fn id(&self) -> usize {
        self.id
    }
    fn my_accessor(&self) -> &SomeStruct {
        let mut a = 0;
        a += 1;
        let b = 1;
        a -= 1;
        self.a_vector.get(b + a).unwrap()
    }
    fn my_mut_accessor(&mut self) -> &mut SomeStruct {
        let mut a = 0;
        a += 1;
        let b = 0;
        a -= 1;
        self.a_vector.get_mut(b + a).unwrap()
    }
    fn my_always_mut_fn(&mut self) -> &SomeStruct {
        self.id += 10;
        self.a_vector.get(0).unwrap()
    }
    fn my_always_mut_fn_mut(&mut self) -> &mut SomeStruct {
        self.id += 10;
        self.a_vector.get_mut(0).unwrap()
    }
    fn children(&self) -> &Vec<SomeStruct> {
        &self.a_vector
    }
    fn children_mut(&mut self) -> &mut Vec<SomeStruct> {
        &mut self.a_vector
    }
}

fn let_b(v: &str) -> Tree {
    node("let", vec![ident("b"), tok(v)])
}

fn accessor_body(if_mut: Tree, not_mut: Tree, getter: &str) -> Tree {
    block(vec![
        node("let", vec![tok("mut"), ident("a"), tok("0")]),
        node("assign_op", vec![path("a"), tok("+="), tok("1")]),
        if_mut,
        not_mut,
        node("assign_op", vec![path("a"), tok("-="), tok("1")]),
        method(
            method(field(path("self"), "a_vector"), getter, vec![node("binary", vec![path("b"), tok("+"), path("a")])]),
            "unwrap",
            vec![],
        ),
    ])
}

fn always_body(getter: &str) -> Tree {
    block(vec![
        node("assign_op", vec![field(path("self"), "id"), tok("+="), tok("10")]),
        method(method(field(path("self"), "a_vector"), getter, vec![tok("0")]), "unwrap", vec![]),
    ])
}

#[test]
fn struct_test() {
    let accessor = FnItem {
        name: s("my_maybe_mut_accessor"),
        inputs: vec![Tree::Receiver(true)],
        output: reference(false, ty_args("MaybeMut", vec![ty("SomeStruct")])),
        body: accessor_body(
            tagged("if_mut", vec![let_b("0")]),
            tagged("not_mut", vec![let_b("1")]),
            "get_maybe_mut",
        ),
    };
    let (ro, mu) = maybe_mut(&no_flags(), accessor).unwrap();
    assert_eq!(
        ro,
        FnItem {
            name: s("my_accessor"),
            inputs: vec![Tree::Receiver(false)],
            output: reference(false, ty("SomeStruct")),
            body: accessor_body(empty_block(), raw(vec![let_b("1")]), "get"),
        }
    );
    assert_eq!(
        mu,
        FnItem {
            name: s("my_mut_accessor"),
            inputs: vec![Tree::Receiver(true)],
            output: reference(true, ty("SomeStruct")),
            body: accessor_body(raw(vec![let_b("0")]), empty_block(), "get_mut"),
        }
    );

    let always = FnItem {
        name: s("my_always_mut_fn_mwt"),
        inputs: vec![Tree::Receiver(true)],
        output: reference(false, ty_args("Mwt", vec![ty("SomeStruct")])),
        body: always_body("get_mwt"),
    };
    let (ro, mu) = mwt(&vec![s("ignore_self")], always).unwrap();
    assert_eq!(
        ro,
        FnItem {
            name: s("my_always_mut_fn"),
            inputs: vec![Tree::Receiver(true)],
            output: reference(false, ty("SomeStruct")),
            body: always_body("get"),
        }
    );
    assert_eq!(
        mu,
        FnItem {
            name: s("my_always_mut_fn_mut"),
            inputs: vec![Tree::Receiver(true)],
            output: reference(true, ty("SomeStruct")),
            body: always_body("get_mut"),
        }
    );

    let children = FnItem {
        name: s("children_mwt"),
        inputs: vec![Tree::Receiver(true)],
        output: reference(false, ty_args("Mwt", vec![ty_args("Vec", vec![ty("SomeStruct")])])),
        body: block(vec![node(
            "reference",
            vec![tok("&"), call(path("mwt"), vec![field(path("self"), "a_vector")])],
        )]),
    };
    let (ro, mu) = mwt(&no_flags(), children).unwrap();
    assert_eq!(
        ro,
        FnItem {
            name: s("children"),
            inputs: vec![Tree::Receiver(false)],
            output: reference(false, ty_args("Vec", vec![ty("SomeStruct")])),
            body: block(vec![node(
                "reference",
                vec![tok("&"), Tree::Splice(false, vec![field(path("self"), "a_vector")])],
            )]),
        }
    );
    assert_eq!(
        mu,
        FnItem {
            name: s("children_mut"),
            inputs: vec![Tree::Receiver(true)],
            output: reference(true, ty_args("Vec", vec![ty("SomeStruct")])),
            body: block(vec![node(
                "reference",
                vec![tok("&"), Tree::Splice(true, vec![field(path("self"), "a_vector")])],
            )]),
        }
    );

    let a = SomeStruct {
        id: 0,
        a_vector: vec![],
    };
    let b = SomeStruct {
        id: 1,
        a_vector: vec![],
    };
    let s = SomeStruct {
        id: 2,
        a_vector: vec![a, b],
    };
    assert_eq!(s.my_accessor().id(), 1);
    let mut s = s; // following line is an error otherwise
    assert_eq!(s.my_mut_accessor().id(), 0);

    assert_eq!(s.my_always_mut_fn().id(), 0);
    assert_eq!(s.id(), 12);
    assert_eq!(s.my_always_mut_fn_mut().id(), 0);
    assert_eq!(s.id(), 22);

    for c in s.children_mut() {
        c.id += 1;
    }

    let mut children = s.children().iter().map(|c| c.id());
    assert_eq!(children.next(), Some(1));
    assert_eq!(children.next(), Some(2));
    assert_eq!(children.next(), None);
}

#[derive(PartialEq, Debug)]
struct GuardType {}

#[derive(PartialEq, Debug)]
struct GuardTypeMut {}

fn get_guard() -> GuardType {
    GuardType {}
}

fn get_guard_mut() -> GuardTypeMut {
    GuardTypeMut {}
}

#[derive(PartialEq, Debug)]
struct StructA {}

#[derive(PartialEq, Debug)]
struct StructB {}

fn get_struct() -> StructB {
    {}
    StructB {}
}

fn get_struct_mut() -> StructA {
    StructA {}
}

fn lit(name: &str) -> Tree {
    node("struct_lit", vec![path(name)])
}

#[test]
fn return_type_test() {
    let guard = FnItem {
        name: s("get_guard_mwt"),
        inputs: vec![],
        output: ty("GuardTypeMwt"),
        body: block(vec![lit("GuardTypeMwt")]),
    };
    let (ro, mu) = mwt(&no_flags(), guard).unwrap();
    assert_eq!(
        ro,
        FnItem { name: s("get_guard"), inputs: vec![], output: ty("GuardType"), body: block(vec![lit("GuardType")]) }
    );
    assert_eq!(
        mu,
        FnItem {
            name: s("get_guard_mut"),
            inputs: vec![],
            output: ty("GuardTypeMut"),
            body: block(vec![lit("GuardTypeMut")]),
        }
    );

    let pick = FnItem {
        name: s("get_struct_mwt"),
        inputs: vec![],
        output: ty_args("MwtAlt", vec![ty("StructA"), ty("StructB")]),
        body: block(vec![tagged("if_mut", vec![lit("StructA")]), tagged("not_mut", vec![lit("StructB")])]),
    };
    let (ro, mu) = mwt(&no_flags(), pick).unwrap();
    assert_eq!(
        ro,
        FnItem {
            name: s("get_struct"),
            inputs: vec![],
            output: ty("StructB"),
            body: block(vec![empty_block(), raw(vec![lit("StructB")])]),
        }
    );
    assert_eq!(
        mu,
        FnItem {
            name: s("get_struct_mut"),
            inputs: vec![],
            output: ty("StructA"),
            body: block(vec![raw(vec![lit("StructA")]), empty_block()]),
        }
    );

    let result = get_guard_mut();
    assert_eq!(GuardTypeMut {}, result);

    let result = get_guard();
    assert_eq!(GuardType {}, result);

    let result = get_struct_mut();
    assert_eq!(StructA {}, result);

    let result = get_struct();
    assert_eq!(StructB {}, result);
}

#[test]
fn fatal_reference_with_two_arguments() {
    let input = FnItem {
        name: s("pair_mwt"),
        inputs: vec![param("x", reference(false, ty_args("Mwt", vec![ty("A"), ty("B")])))],
        output: node("unit", vec![]),
        body: block(vec![]),
    };
    assert_eq!(mwt(&no_flags(), input), Err(MacroError::Shape(Fault::RefShape)));
}
