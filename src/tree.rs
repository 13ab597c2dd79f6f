//! The syntax tree of one function, as far as the rewrite rules read it, and its
//! mathematical model.
use vstd::prelude::*;

verus! {

/// One node of a function's syntax tree.
#[derive(Debug, PartialEq, Eq)]
pub enum Tree {
    /// An identifier: a binding, a declared name, a method or field name.
    Ident(Vec<char>),
    /// A lifetime, by the identifier after its quote.
    Lifetime(Vec<char>),
    /// A token that no rule reads: a literal, an operator, a keyword, a const argument.
    Token(Vec<char>),
    /// A `self` receiver; the flag tells whether it is mutable.
    Receiver(bool),
    /// A path: whether it names a type, whether it has a leading `::`, and its segments.
    Path(bool, bool, Vec<Tree>),
    /// A path segment: its name, whether its arguments stand in angle brackets, and the
    /// arguments (types, lifetimes, const tokens; or the inputs of a parenthesized form).
    Segment(Vec<char>, bool, Vec<Tree>),
    /// A reference type; the flag tells whether it is `&mut`.
    Ref(bool, Box<Tree>),
    /// A block: the names of its attributes, and its statements.
    Block(Vec<Vec<char>>, Vec<Tree>),
    /// A call: the callee and the arguments.
    Call(Box<Tree>, Vec<Tree>),
    /// Tokens spliced in as written: `mut` first where the flag is set, then the trees.
    Splice(bool, Vec<Tree>),
    /// Any other node: its kind and its children, in order.
    Node(Vec<char>, Vec<Tree>),
}

/// The mathematical model of a `Tree`.
pub enum Ast {
    Ident(Seq<char>),
    Lifetime(Seq<char>),
    Token(Seq<char>),
    Receiver(bool),
    Path(bool, bool, Seq<Ast>),
    Segment(Seq<char>, bool, Seq<Ast>),
    Ref(bool, Box<Ast>),
    Block(Seq<Seq<char>>, Seq<Ast>),
    Call(Box<Ast>, Seq<Ast>),
    Splice(bool, Seq<Ast>),
    Node(Seq<char>, Seq<Ast>),
}

pub open spec fn names_of(v: Seq<Vec<char>>) -> Seq<Seq<char>> {
    v.map_values(|n: Vec<char>| n@)
}

/// The model of a tree.
pub open spec fn ast(t: Tree) -> Ast
    decreases t,
{
    match t {
        Tree::Ident(s) => Ast::Ident(s@),
        Tree::Lifetime(s) => Ast::Lifetime(s@),
        Tree::Token(s) => Ast::Token(s@),
        Tree::Receiver(b) => Ast::Receiver(b),
        Tree::Path(ty, lead, segs) => Ast::Path(ty, lead, asts(segs@)),
        Tree::Segment(n, br, args) => Ast::Segment(n@, br, asts(args@)),
        Tree::Ref(m, e) => Ast::Ref(m, Box::new(ast(*e))),
        Tree::Block(attrs, ss) => Ast::Block(names_of(attrs@), asts(ss@)),
        Tree::Call(f, args) => Ast::Call(Box::new(ast(*f)), asts(args@)),
        Tree::Splice(b, ts) => Ast::Splice(b, asts(ts@)),
        Tree::Node(k, cs) => Ast::Node(k@, asts(cs@)),
    }
}

/// The models of a sequence of trees.
pub open spec fn asts(ts: Seq<Tree>) -> Seq<Ast>
    decreases ts,
{
    if ts.len() == 0 {
        seq![]
    } else {
        asts(ts.subrange(0, ts.len() - 1)).push(ast(ts[ts.len() - 1]))
    }
}

pub proof fn lemma_asts(ts: Seq<Tree>)
    ensures
        asts(ts).len() == ts.len(),
        forall|i: int| 0 <= i < ts.len() ==> #[trigger] asts(ts)[i] == ast(ts[i]),
    decreases ts.len(),
{
    if ts.len() > 0 {
        lemma_asts(ts.subrange(0, ts.len() - 1));
    }
}

pub proof fn lemma_asts_prefix(ts: Seq<Tree>, i: int)
    requires
        0 <= i < ts.len(),
    ensures
        asts(ts.subrange(0, i + 1)) == asts(ts.subrange(0, i)).push(ast(ts[i])),
{
    assert(ts.subrange(0, i + 1).subrange(0, i) =~= ts.subrange(0, i));
}


/// One function definition: its name, its inputs (receiver and typed parameters),
/// its return type (an empty `Node` where it has none) and its body.
#[derive(Debug, PartialEq, Eq)]
pub struct FnItem {
    pub name: Vec<char>,
    pub inputs: Vec<Tree>,
    pub output: Tree,
    pub body: Tree,
}

/// The mathematical model of a `FnItem`.
pub struct FnAst {
    pub name: Seq<char>,
    pub inputs: Seq<Ast>,
    pub output: Ast,
    pub body: Ast,
}

pub open spec fn fn_ast(f: FnItem) -> FnAst {
    FnAst { name: f.name@, inputs: asts(f.inputs@), output: ast(f.output), body: ast(f.body) }
}

fn copy_chars(v: &Vec<char>) -> (r: Vec<char>)
    ensures
        r@ == v@,
{
    let mut r: Vec<char> = Vec::new();
    let mut i: usize = 0;
    while i < v.len()
        invariant
            i <= v@.len(),
            r@ == v@.subrange(0, i as int),
        decreases v@.len() - i,
    {
        r.push(v[i]);
        i = i + 1;
        assert(v@.subrange(0, i as int) =~= v@.subrange(0, i - 1) + seq![v@[i - 1]]);
    }
    assert(v@.subrange(0, i as int) =~= v@);
    r
}

fn copy_names(v: &Vec<Vec<char>>) -> (r: Vec<Vec<char>>)
    ensures
        names_of(r@) == names_of(v@),
{
    let mut r: Vec<Vec<char>> = Vec::new();
    let mut i: usize = 0;
    while i < v.len()
        invariant
            i <= v@.len(),
            r@.len() == i,
            forall|j: int| 0 <= j < i ==> #[trigger] r@[j]@ == v@[j]@,
        decreases v@.len() - i,
    {
        r.push(copy_chars(&v[i]));
        i = i + 1;
    }
    assert(names_of(r@) =~= names_of(v@));
    r
}

/// An independent copy of a tree.
pub fn copy_tree(t: &Tree) -> (r: Tree)
    ensures
        ast(r) == ast(*t),
    decreases t,
{
    match t {
        Tree::Ident(s) => Tree::Ident(copy_chars(s)),
        Tree::Lifetime(s) => Tree::Lifetime(copy_chars(s)),
        Tree::Token(s) => Tree::Token(copy_chars(s)),
        Tree::Receiver(b) => Tree::Receiver(*b),
        Tree::Path(ty, lead, segs) => Tree::Path(*ty, *lead, copy_all(segs)),
        Tree::Segment(n, br, args) => Tree::Segment(copy_chars(n), *br, copy_all(args)),
        Tree::Ref(m, e) => Tree::Ref(*m, Box::new(copy_tree(e))),
        Tree::Block(attrs, ss) => Tree::Block(copy_names(attrs), copy_all(ss)),
        Tree::Call(f, args) => Tree::Call(Box::new(copy_tree(f)), copy_all(args)),
        Tree::Splice(b, ts) => Tree::Splice(*b, copy_all(ts)),
        Tree::Node(k, cs) => Tree::Node(copy_chars(k), copy_all(cs)),
    }
}

/// An independent copy of a sequence of trees.
pub fn copy_all(ts: &Vec<Tree>) -> (r: Vec<Tree>)
    ensures
        asts(r@) == asts(ts@),
    decreases ts,
{
    let mut r: Vec<Tree> = Vec::new();
    let mut i: usize = 0;
    proof { lemma_asts(ts@); }
    while i < ts.len()
        invariant
            i <= ts@.len(),
            r@.len() == i,
            forall|j: int| 0 <= j < i ==> #[trigger] ast(r@[j]) == ast(ts@[j]),
        decreases ts@.len() - i,
    {
        proof { assert(decreases_to!(ts => ts@[i as int])); }
        let c = copy_tree(&ts[i]);
        r.push(c);
        i = i + 1;
    }
    proof {
        lemma_asts(r@);
        lemma_asts(ts@);
        assert(asts(r@) =~= asts(ts@));
    }
    r
}

/// An independent copy of a function definition.
pub fn copy_fn(f: &FnItem) -> (r: FnItem)
    ensures
        fn_ast(r) == fn_ast(*f),
{
    FnItem {
        name: copy_chars(&f.name),
        inputs: copy_all(&f.inputs),
        output: copy_tree(&f.output),
        body: copy_tree(&f.body),
    }
}

}
