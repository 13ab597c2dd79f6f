//! The rewrite of one tree into one variant.
use vstd::prelude::*;
use crate::args::{Args, Markers};
use crate::names::{ident_out, segment_out, rename_ident, rename_segment, occurs_at};
use crate::tree::{Tree, Ast, ast, asts, names_of, lemma_asts, lemma_asts_prefix};

verus! {

/// A marker written in a shape that it does not take.
#[derive(Clone, Copy, Debug, PartialEq, Eq, Structural)]
pub enum Fault {
    /// The reference marker without exactly one type argument in angle brackets.
    RefShape,
    /// The type-switch marker without angle brackets.
    SwitchUnbracketed,
    /// The type-switch marker with other than two arguments.
    SwitchArity,
    /// The type-switch marker's first argument, picked in the mutable variant, is no type.
    SwitchFirst,
    /// The type-switch marker's second argument, picked in the read-only variant, is no type.
    SwitchSecond,
}

pub open spec fn if_mut_tag() -> Seq<char> {
    seq!['i', 'f', '_', 'm', 'u', 't']
}

pub open spec fn not_mut_tag() -> Seq<char> {
    seq!['n', 'o', 't', '_', 'm', 'u', 't']
}

/// A generic argument is a type unless it is a lifetime or a bare token.
pub open spec fn is_type(a: Ast) -> bool {
    !(a is Lifetime) && !(a is Token)
}

/// A path of exactly one segment, whose name is `n`.
pub open spec fn single_named(a: Ast, n: Seq<char>) -> bool {
    &&& a matches Ast::Path(_, _, segs)
    &&& segs.len() == 1
    &&& segs[0] matches Ast::Segment(name, _, _)
    &&& name == n
}

/// A type named by the type-switch marker alone: `S<A, B>`.
pub open spec fn is_switch(k: Markers, a: Ast) -> bool {
    &&& a matches Ast::Path(ty, lead, _)
    &&& ty && !lead
    &&& single_named(a, k.switch)
}

/// The callee of an escape form: the identifier marker, bare.
pub open spec fn is_escape(k: Markers, f: Ast) -> bool {
    &&& f matches Ast::Path(_, lead, segs)
    &&& !lead
    &&& single_named(f, k.ident)
    &&& segs[0] matches Ast::Segment(_, br, args)
    &&& !br && args.len() == 0
}

/// What the type switch `seg` resolves to.
pub open spec fn pick(mutable: bool, seg: Ast) -> Result<Ast, Fault> {
    match seg {
        Ast::Segment(_, br, args) => if !br {
            Err(Fault::SwitchUnbracketed)
        } else if args.len() != 2 {
            Err(Fault::SwitchArity)
        } else if mutable {
            if is_type(args[0]) { Ok(args[0]) } else { Err(Fault::SwitchFirst) }
        } else {
            if is_type(args[1]) { Ok(args[1]) } else { Err(Fault::SwitchSecond) }
        },
        _ => Err(Fault::SwitchUnbracketed),
    }
}

/// What a reference to the reference marker `seg<T>` resolves to: `&T` or `&mut T`.
pub open spec fn ref_target(mutable: bool, seg: Ast) -> Result<Ast, Fault> {
    match seg {
        Ast::Segment(_, br, args) => if br && args.len() == 1 && is_type(args[0]) {
            Ok(Ast::Ref(mutable, Box::new(args[0])))
        } else {
            Err(Fault::RefShape)
        },
        _ => Err(Fault::RefShape),
    }
}

/// A tree in the given variant, or the first fault met, in order of writing.
pub open spec fn rend(k: Markers, mutable: bool, t: Ast) -> Result<Ast, Fault>
    decreases t,
{
    match t {
        Ast::Ident(s) => Ok(Ast::Ident(ident_out(k.ident, mutable, s))),
        Ast::Lifetime(s) => Ok(Ast::Lifetime(ident_out(k.ident, mutable, s))),
        Ast::Token(_) => Ok(t),
        Ast::Receiver(_) => Ok(t),
        Ast::Splice(_, _) => Ok(t),
        Ast::Path(ty, lead, segs) => if is_switch(k, t) {
            pick(mutable, segs[0])
        } else {
            match rend_all(k, mutable, segs) {
                Ok(r) => Ok(Ast::Path(ty, lead, r)),
                Err(e) => Err(e),
            }
        },
        Ast::Segment(n, br, args) => match rend_all(k, mutable, args) {
            Ok(r) => Ok(Ast::Segment(segment_out(k.ident, k.ty, mutable, n), br, r)),
            Err(e) => Err(e),
        },
        Ast::Ref(m, e) => if single_named(*e, k.reference) {
            ref_target(mutable, e->Path_2[0])
        } else {
            match rend(k, mutable, *e) {
                Ok(r) => Ok(Ast::Ref(m, Box::new(r))),
                Err(e) => Err(e),
            }
        },
        Ast::Block(attrs, ss) => if attrs.contains(if_mut_tag()) {
            if mutable { Ok(Ast::Splice(false, ss)) } else { Ok(Ast::Block(seq![], seq![])) }
        } else if attrs.contains(not_mut_tag()) {
            if mutable { Ok(Ast::Block(seq![], seq![])) } else { Ok(Ast::Splice(false, ss)) }
        } else {
            match rend_all(k, mutable, ss) {
                Ok(r) => Ok(Ast::Block(attrs, r)),
                Err(e) => Err(e),
            }
        },
        Ast::Call(f, args) => if is_escape(k, *f) {
            Ok(Ast::Splice(mutable, args))
        } else {
            match rend(k, mutable, *f) {
                Err(e) => Err(e),
                Ok(g) => match rend_all(k, mutable, args) {
                    Ok(r) => Ok(Ast::Call(Box::new(g), r)),
                    Err(e) => Err(e),
                },
            }
        },
        Ast::Node(kind, cs) => match rend_all(k, mutable, cs) {
            Ok(r) => Ok(Ast::Node(kind, r)),
            Err(e) => Err(e),
        },
    }
}

/// A sequence of trees in the given variant, or the first fault met.
pub open spec fn rend_all(k: Markers, mutable: bool, ts: Seq<Ast>) -> Result<Seq<Ast>, Fault>
    decreases ts,
{
    if ts.len() == 0 {
        Ok(seq![])
    } else {
        match rend_all(k, mutable, ts.subrange(0, ts.len() - 1)) {
            Err(e) => Err(e),
            Ok(p) => match rend(k, mutable, ts[ts.len() - 1]) {
                Err(e) => Err(e),
                Ok(a) => Ok(p.push(a)),
            },
        }
    }
}

pub open spec fn res_ast(r: Result<Tree, Fault>) -> Result<Ast, Fault> {
    match r {
        Ok(t) => Ok(ast(t)),
        Err(e) => Err(e),
    }
}

pub open spec fn res_asts(r: Result<Vec<Tree>, Fault>) -> Result<Seq<Ast>, Fault> {
    match r {
        Ok(v) => Ok(asts(v@)),
        Err(e) => Err(e),
    }
}

/// Whether two names are equal.
pub fn same_name(a: &Vec<char>, b: &Vec<char>) -> (r: bool)
    ensures
        r == (a@ == b@),
{
    if a.len() != b.len() {
        return false;
    }
    let r = occurs_at(a, b, 0);
    assert(a@.subrange(0, a@.len() as int) =~= a@);
    r
}

fn has_tag(attrs: &Vec<Vec<char>>, tag: &Vec<char>) -> (r: bool)
    ensures
        r == names_of(attrs@).contains(tag@),
{
    let mut i: usize = 0;
    while i < attrs.len()
        invariant
            i <= attrs@.len(),
            forall|j: int| 0 <= j < i ==> attrs@[j]@ != tag@,
        decreases attrs@.len() - i,
    {
        if same_name(&attrs[i], tag) {
            assert(names_of(attrs@)[i as int] == tag@);
            return true;
        }
        i = i + 1;
    }
    assert(!names_of(attrs@).contains(tag@)) by {
        if names_of(attrs@).contains(tag@) {
            let j = choose|j: int| 0 <= j < names_of(attrs@).len() && names_of(attrs@)[j] == tag@;
            assert(attrs@[j]@ == tag@);
        }
    }
    false
}

fn is_type_tree(t: &Tree) -> (r: bool)
    ensures
        r == is_type(ast(*t)),
{
    match t {
        Tree::Lifetime(_) => false,
        Tree::Token(_) => false,
        _ => true,
    }
}

/// Whether `t` is a path of exactly one segment named `n`.
fn single_named_tree(t: &Tree, n: &Vec<char>) -> (r: bool)
    ensures
        r == single_named(ast(*t), n@),
{
    match t {
        Tree::Path(_, _, segs) => {
            proof { lemma_asts(segs@); }
            if segs.len() != 1 {
                return false;
            }
            match &segs[0] {
                Tree::Segment(name, _, _) => same_name(name, n),
                _ => false,
            }
        },
        _ => false,
    }
}


fn is_switch_tree(a: &Args, t: &Tree) -> (r: bool)
    ensures
        r == is_switch(a.markers(), ast(*t)),
{
    match t {
        Tree::Path(ty, lead, _) => *ty && !*lead && single_named_tree(t, &a.type_switch_string),
        _ => false,
    }
}

fn is_escape_tree(a: &Args, f: &Tree) -> (r: bool)
    ensures
        r == is_escape(a.markers(), ast(*f)),
{
    match f {
        Tree::Path(_, lead, segs) => {
            proof { lemma_asts(segs@); }
            if *lead || segs.len() != 1 {
                return false;
            }
            match &segs[0] {
                Tree::Segment(n, br, args) => {
                    proof { lemma_asts(args@); }
                    !*br && args.len() == 0 && same_name(n, &a.ident_string)
                },
                _ => false,
            }
        },
        _ => false,
    }
}

/// The segment of a path of one segment.
fn only_segment(t: Tree) -> (r: Tree)
    requires
        ast(t) matches Ast::Path(_, _, segs) && segs.len() == 1,
    ensures
        ast(r) == ast(t)->Path_2[0],
{
    match t {
        Tree::Path(_, _, mut segs) => {
            proof { lemma_asts(segs@); }
            segs.remove(0)
        },
        _ => t,
    }
}

fn pick_tree(mutable: bool, seg: Tree) -> (r: Result<Tree, Fault>)
    ensures
        res_ast(r) == pick(mutable, ast(seg)),
{
    match seg {
        Tree::Segment(_, br, mut args) => {
            proof { lemma_asts(args@); }
            if !br {
                Err(Fault::SwitchUnbracketed)
            } else if args.len() != 2 {
                Err(Fault::SwitchArity)
            } else if mutable {
                let x = args.remove(0);
                if is_type_tree(&x) { Ok(x) } else { Err(Fault::SwitchFirst) }
            } else {
                let x = args.remove(1);
                if is_type_tree(&x) { Ok(x) } else { Err(Fault::SwitchSecond) }
            }
        },
        _ => Err(Fault::SwitchUnbracketed),
    }
}

fn ref_tree(mutable: bool, seg: Tree) -> (r: Result<Tree, Fault>)
    ensures
        res_ast(r) == ref_target(mutable, ast(seg)),
{
    match seg {
        Tree::Segment(_, br, mut args) => {
            proof { lemma_asts(args@); }
            if br && args.len() == 1 {
                let x = args.remove(0);
                if is_type_tree(&x) {
                    return Ok(Tree::Ref(mutable, Box::new(x)));
                }
            }
            Err(Fault::RefShape)
        },
        _ => Err(Fault::RefShape),
    }
}

proof fn lemma_asts_push(s: Seq<Tree>, y: Tree)
    ensures
        asts(s.push(y)) == asts(s).push(ast(y)),
{
    assert(s.push(y).subrange(0, s.len() as int) =~= s);
}

proof fn lemma_asts_empty()
    ensures
        asts(Seq::<Tree>::empty()) == Seq::<Ast>::empty(),
        names_of(Seq::<Vec<char>>::empty()) == Seq::<Seq<char>>::empty(),
{
    assert(names_of(Seq::<Vec<char>>::empty()) =~= Seq::<Seq<char>>::empty());
}

/// A fault in a prefix is the fault of the whole sequence.
proof fn lemma_rend_all_err(k: Markers, mutable: bool, ts: Seq<Ast>, j: int)
    requires
        0 <= j <= ts.len(),
        rend_all(k, mutable, ts.subrange(0, j)) is Err,
    ensures
        rend_all(k, mutable, ts) == rend_all(k, mutable, ts.subrange(0, j)),
    decreases ts.len() - j,
{
    if j == ts.len() {
        assert(ts.subrange(0, j) =~= ts);
    } else {
        let p = ts.subrange(0, ts.len() - 1);
        assert(p.subrange(0, j) =~= ts.subrange(0, j));
        lemma_rend_all_err(k, mutable, p, j);
    }
}

/// Renders a tree into the given variant (`mutable` or read-only).
pub fn render(a: &Args, mutable: bool, t: Tree) -> (r: Result<Tree, Fault>)
    ensures
        res_ast(r) == rend(a.markers(), mutable, ast(t)),
    decreases t,
{
    proof { lemma_asts_empty(); }
    if is_switch_tree(a, &t) {
        let seg = only_segment(t);
        return pick_tree(mutable, seg);
    }
    match t {
        Tree::Ident(s) => Ok(Tree::Ident(rename_ident(&a.ident_string, mutable, &s))),
        Tree::Lifetime(s) => Ok(Tree::Lifetime(rename_ident(&a.ident_string, mutable, &s))),
        Tree::Token(s) => Ok(Tree::Token(s)),
        Tree::Receiver(b) => Ok(Tree::Receiver(b)),
        Tree::Splice(b, ts) => Ok(Tree::Splice(b, ts)),
        Tree::Path(ty, lead, segs) => match render_all(a, mutable, segs) {
            Ok(r) => Ok(Tree::Path(ty, lead, r)),
            Err(e) => Err(e),
        },
        Tree::Segment(n, br, args) => {
            let n2 = rename_segment(&a.ident_string, &a.type_string, mutable, &n);
            match render_all(a, mutable, args) {
                Ok(r) => Ok(Tree::Segment(n2, br, r)),
                Err(e) => Err(e),
            }
        },
        Tree::Ref(m, e) => {
            if single_named_tree(&e, &a.ref_string) {
                let seg = only_segment(*e);
                ref_tree(mutable, seg)
            } else {
                match render(a, mutable, *e) {
                    Ok(r) => Ok(Tree::Ref(m, Box::new(r))),
                    Err(e) => Err(e),
                }
            }
        },
        Tree::Block(attrs, ss) => {
            let if_mut: Vec<char> = vec!['i', 'f', '_', 'm', 'u', 't'];
            let not_mut: Vec<char> = vec!['n', 'o', 't', '_', 'm', 'u', 't'];
            assert(if_mut@ =~= if_mut_tag());
            assert(not_mut@ =~= not_mut_tag());
            if has_tag(&attrs, &if_mut) {
                if mutable {
                    Ok(Tree::Splice(false, ss))
                } else {
                    Ok(Tree::Block(Vec::new(), Vec::new()))
                }
            } else if has_tag(&attrs, &not_mut) {
                if mutable {
                    Ok(Tree::Block(Vec::new(), Vec::new()))
                } else {
                    Ok(Tree::Splice(false, ss))
                }
            } else {
                match render_all(a, mutable, ss) {
                    Ok(r) => Ok(Tree::Block(attrs, r)),
                    Err(e) => Err(e),
                }
            }
        },
        Tree::Call(f, args) => {
            if is_escape_tree(a, &f) {
                Ok(Tree::Splice(mutable, args))
            } else {
                match render(a, mutable, *f) {
                    Err(e) => Err(e),
                    Ok(g) => match render_all(a, mutable, args) {
                        Ok(r) => Ok(Tree::Call(Box::new(g), r)),
                        Err(e) => Err(e),
                    },
                }
            }
        },
        Tree::Node(kind, cs) => match render_all(a, mutable, cs) {
            Ok(r) => Ok(Tree::Node(kind, r)),
            Err(e) => Err(e),
        },
    }
}

/// Renders a sequence of trees into the given variant, stopping at the first fault.
pub fn render_all(a: &Args, mutable: bool, ts: Vec<Tree>) -> (r: Result<Vec<Tree>, Fault>)
    ensures
        res_asts(r) == rend_all(a.markers(), mutable, asts(ts@)),
    decreases ts,
{
    let ghost orig = ts@;
    let ghost k = a.markers();
    let n: usize = ts.len();
    let mut rest = ts;
    let mut out: Vec<Tree> = Vec::new();
    let mut i: usize = 0;
    proof {
        lemma_asts(orig);
        lemma_asts_empty();
        assert(orig.subrange(0, 0) =~= Seq::<Tree>::empty());
    }
    while rest.len() > 0
        invariant
            i <= orig.len(),
            n == orig.len(),
            rest@ == orig.subrange(i as int, orig.len() as int),
            orig == ts@,
            k == a.markers(),
            rend_all(k, mutable, asts(orig.subrange(0, i as int))) == Ok::<Seq<Ast>, Fault>(asts(out@)),
        decreases rest@.len(),
    {
        assert(i < orig.len());
        let x = rest.remove(0);
        assert(x == orig[i as int]);
        proof {
            lemma_asts_prefix(orig, i as int);
            lemma_asts(orig.subrange(0, i as int));
            let pre = asts(orig.subrange(0, i as int));
            assert(pre.push(ast(x)).subrange(0, i as int) =~= pre);
            assert(decreases_to!(ts => ts@[i as int]));
        }
        match render(a, mutable, x) {
            Err(e) => {
                proof {
                    lemma_asts(orig);
                    lemma_asts(orig.subrange(0, i + 1));
                    assert(asts(orig).subrange(0, i + 1) =~= asts(orig.subrange(0, i + 1)));
                    lemma_rend_all_err(k, mutable, asts(orig), i + 1);
                }
                return Err(e);
            },
            Ok(y) => {
                proof { lemma_asts_push(out@, y); }
                out.push(y);
                i = i + 1;
            },
        }
    }
    assert(orig.subrange(0, i as int) =~= orig);
    Ok(out)
}

}
