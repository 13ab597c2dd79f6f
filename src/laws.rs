//! Properties that relate the rewrite of a tree to its input.
use vstd::prelude::*;
use crate::args::{Markers, convert, strip_receivers, settle_receiver};
use crate::engine::{Fault, rend, rend_all, is_switch, is_escape, single_named, if_mut_tag, not_mut_tag};
use crate::tree::{Ast, FnAst};

verus! {

/// A sequence is rendered without fault exactly when each of its trees is, and then
/// element by element.
pub proof fn lemma_rend_all_each(k: Markers, mutable: bool, ts: Seq<Ast>)
    ensures
        rend_all(k, mutable, ts) is Ok <==> forall|i: int| 0 <= i < ts.len() ==> #[trigger] rend(k, mutable, ts[i]) is Ok,
        rend_all(k, mutable, ts) matches Ok(rs) ==> rs.len() == ts.len()
            && forall|i: int| 0 <= i < ts.len() ==> #[trigger] rend(k, mutable, ts[i]) == Ok::<Ast, Fault>(rs[i]),
    decreases ts.len(),
{
    if ts.len() > 0 {
        let p = ts.subrange(0, ts.len() - 1);
        let last = ts[ts.len() - 1];
        lemma_rend_all_each(k, mutable, p);
        assert forall|i: int| 0 <= i < ts.len() - 1 implies ts[i] == p[i] by {}
        match rend_all(k, mutable, p) {
            Err(_) => {
                let i = choose|i: int| 0 <= i < p.len() && !(#[trigger] rend(k, mutable, p[i]) is Ok);
                assert(ts[i] == p[i]);
            },
            Ok(ps) => match rend(k, mutable, last) {
                Err(_) => {
                    assert(!(rend(k, mutable, ts[ts.len() - 1]) is Ok));
                },
                Ok(a) => {
                    let rs = ps.push(a);
                    assert forall|i: int| 0 <= i < ts.len() implies #[trigger] rend(k, mutable, ts[i])
                        == Ok::<Ast, Fault>(rs[i]) by {
                        if i < ts.len() - 1 {
                            assert(ts[i] == p[i]);
                        }
                    }
                },
            },
        }
    }
}

/// Leaves that no rule reads come out of either variant as they went in.
pub proof fn lemma_leaves_unchanged(k: Markers, mutable: bool, t: Ast)
    requires
        t is Token || t is Receiver || t is Splice,
    ensures
        rend(k, mutable, t) == Ok::<Ast, Fault>(t),
{
}

/// A node of any other kind keeps its kind and its number of children in both variants,
/// each child being rendered in its place; it fails only where a child fails.
pub proof fn lemma_node_kept(k: Markers, mutable: bool, kind: Seq<char>, cs: Seq<Ast>)
    ensures
        rend(k, mutable, Ast::Node(kind, cs)) is Ok <==> forall|i: int| 0 <= i < cs.len() ==> #[trigger] rend(k, mutable, cs[i]) is Ok,
        rend(k, mutable, Ast::Node(kind, cs)) matches Ok(r) ==> (r matches Ast::Node(kind2, rs)
            && kind2 == kind && rs.len() == cs.len()
            && forall|i: int| 0 <= i < cs.len() ==> #[trigger] rend(k, mutable, cs[i]) == Ok::<Ast, Fault>(rs[i])),
{
    lemma_rend_all_each(k, mutable, cs);
}

/// Where both variants of a node of any other kind render, they are nodes of that kind
/// with as many children as it has.
pub proof fn lemma_node_variants_alike(k: Markers, kind: Seq<char>, cs: Seq<Ast>)
    requires
        rend(k, false, Ast::Node(kind, cs)) is Ok,
        rend(k, true, Ast::Node(kind, cs)) is Ok,
    ensures
        rend(k, false, Ast::Node(kind, cs))->Ok_0 matches Ast::Node(ro_kind, ro)
            && rend(k, true, Ast::Node(kind, cs))->Ok_0 matches Ast::Node(mu_kind, mu)
            && ro_kind == mu_kind && ro_kind == kind && ro.len() == mu.len() && ro.len() == cs.len(),
{
    lemma_node_kept(k, false, kind, cs);
    lemma_node_kept(k, true, kind, cs);
}

/// With the receiver not kept, a mutable receiver is immutable in the read-only variant
/// and stays mutable in the mutable one.
pub proof fn lemma_self_receiver(k: Markers, f: FnAst, i: int)
    requires
        0 <= i < f.inputs.len(),
        f.inputs[i] == Ast::Receiver(true),
    ensures
        convert(k, false, false, f) matches Ok(ro) ==> ro.inputs[i] == Ast::Receiver(false),
        convert(k, false, true, f) matches Ok(mu) ==> mu.inputs[i] == Ast::Receiver(true),
{
    let ins = strip_receivers(f.inputs);
    assert(ins[i] == settle_receiver(f.inputs[i]));
    assert(rend(k, false, ins[i]) == Ok::<Ast, Fault>(Ast::Receiver(false)));
    assert(rend(k, true, f.inputs[i]) == Ok::<Ast, Fault>(Ast::Receiver(true)));
    lemma_rend_all_each(k, false, ins);
    lemma_rend_all_each(k, true, f.inputs);
}

pub open spec fn tagged(attrs: Seq<Seq<char>>) -> bool {
    attrs.contains(if_mut_tag()) || attrs.contains(not_mut_tag())
}

/// No block tagged for one variant stands in the tree, raw splices aside.
pub open spec fn untagged(t: Ast) -> bool
    decreases t,
{
    match t {
        Ast::Path(_, _, segs) => untagged_all(segs),
        Ast::Segment(_, _, args) => untagged_all(args),
        Ast::Ref(_, e) => untagged(*e),
        Ast::Block(attrs, ss) => !tagged(attrs) && untagged_all(ss),
        Ast::Call(f, args) => untagged(*f) && untagged_all(args),
        Ast::Node(_, cs) => untagged_all(cs),
        _ => true,
    }
}

pub open spec fn untagged_all(ts: Seq<Ast>) -> bool
    decreases ts,
{
    ts.len() == 0 || (untagged_all(ts.subrange(0, ts.len() - 1)) && untagged(ts[ts.len() - 1]))
}

/// The types that the reference and type-switch markers carry, which are copied as
/// written, hold no tagged block.
pub open spec fn clean(k: Markers, t: Ast) -> bool
    decreases t,
{
    match t {
        Ast::Path(_, _, segs) => if is_switch(k, t) {
            segs[0] matches Ast::Segment(_, _, args) ==> untagged_all(args)
        } else {
            clean_all(k, segs)
        },
        Ast::Segment(_, _, args) => clean_all(k, args),
        Ast::Ref(_, e) => if single_named(*e, k.reference) {
            e->Path_2[0] matches Ast::Segment(_, _, args) ==> untagged_all(args)
        } else {
            clean(k, *e)
        },
        Ast::Block(attrs, ss) => tagged(attrs) || clean_all(k, ss),
        Ast::Call(f, args) => is_escape(k, *f) || (clean(k, *f) && clean_all(k, args)),
        Ast::Node(_, cs) => clean_all(k, cs),
        _ => true,
    }
}

pub open spec fn clean_all(k: Markers, ts: Seq<Ast>) -> bool
    decreases ts,
{
    ts.len() == 0 || (clean_all(k, ts.subrange(0, ts.len() - 1)) && clean(k, ts[ts.len() - 1]))
}

proof fn lemma_untagged_each(ts: Seq<Ast>, i: int)
    requires
        untagged_all(ts),
        0 <= i < ts.len(),
    ensures
        untagged(ts[i]),
    decreases ts.len(),
{
    if i < ts.len() - 1 {
        let p = ts.subrange(0, ts.len() - 1);
        lemma_untagged_each(p, i);
        assert(p[i] == ts[i]);
    }
}

/// Every tagged block is resolved: where the marker payloads hold none, no tagged block
/// is left in either variant outside raw splices.
pub proof fn lemma_tags_resolved(k: Markers, mutable: bool, t: Ast)
    requires
        clean(k, t),
        rend(k, mutable, t) is Ok,
    ensures
        untagged(rend(k, mutable, t)->Ok_0),
    decreases t,
{
    match t {
        Ast::Path(_, _, segs) => if is_switch(k, t) {
            if let Ast::Segment(_, _, args) = segs[0] {
                if mutable {
                    lemma_untagged_each(args, 0);
                } else {
                    lemma_untagged_each(args, 1);
                }
            }
        } else {
            lemma_tags_resolved_all(k, mutable, segs);
        },
        Ast::Segment(_, _, args) => lemma_tags_resolved_all(k, mutable, args),
        Ast::Ref(_, e) => if single_named(*e, k.reference) {
            if let Ast::Segment(_, _, args) = e->Path_2[0] {
                lemma_untagged_each(args, 0);
            }
        } else {
            lemma_tags_resolved(k, mutable, *e);
        },
        Ast::Block(attrs, ss) => if !tagged(attrs) {
            lemma_tags_resolved_all(k, mutable, ss);
        } else {
            assert(untagged_all(Seq::<Ast>::empty()));
            assert(!tagged(Seq::<Seq<char>>::empty()));
        },
        Ast::Call(f, args) => if !is_escape(k, *f) {
            lemma_tags_resolved(k, mutable, *f);
            lemma_tags_resolved_all(k, mutable, args);
        },
        Ast::Node(_, cs) => lemma_tags_resolved_all(k, mutable, cs),
        _ => {},
    }
}

/// `lemma_tags_resolved` over a sequence of trees.
pub proof fn lemma_tags_resolved_all(k: Markers, mutable: bool, ts: Seq<Ast>)
    requires
        clean_all(k, ts),
        rend_all(k, mutable, ts) is Ok,
    ensures
        untagged_all(rend_all(k, mutable, ts)->Ok_0),
    decreases ts,
{
    if ts.len() > 0 {
        let p = ts.subrange(0, ts.len() - 1);
        lemma_tags_resolved_all(k, mutable, p);
        lemma_tags_resolved(k, mutable, ts[ts.len() - 1]);
        let ps = rend_all(k, mutable, p)->Ok_0;
        let a = rend(k, mutable, ts[ts.len() - 1])->Ok_0;
        assert(ps.push(a).subrange(0, ps.len() as int) =~= ps);
    }
}

}
