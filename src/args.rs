//! The markers and the flag that one invocation works with.
use vstd::prelude::*;
use crate::engine::{Fault, rend, rend_all, render, render_all};
use crate::names::{ident_out, rename_ident};
use crate::tree::{Tree, Ast, FnItem, FnAst, fn_ast, ast, asts, lemma_asts};

verus! {

/// The marker names of one invocation, the flag that keeps a mutable receiver in the
/// read-only variant, and the variant being rendered.
#[derive(Clone, Debug, PartialEq, Eq)]
pub struct Args {
    pub mut_version: bool,
    pub ignore_self: bool,
    pub ident_string: Vec<char>,
    pub type_string: Vec<char>,
    pub type_switch_string: Vec<char>,
    pub ref_string: Vec<char>,
}

/// Why an invocation gives no output.
#[derive(Clone, Copy, Debug, PartialEq, Eq, Structural)]
pub enum MacroError {
    /// A flag other than `ignore_self`.
    InvalidArgument,
    /// A marker written in a shape that it does not take.
    Shape(Fault),
}

/// The marker names, as sequences of characters.
pub struct Markers {
    pub ident: Seq<char>,
    pub ty: Seq<char>,
    pub switch: Seq<char>,
    pub reference: Seq<char>,
}

impl Args {
    pub open spec fn markers(&self) -> Markers {
        Markers {
            ident: self.ident_string@,
            ty: self.type_string@,
            switch: self.type_switch_string@,
            reference: self.ref_string@,
        }
    }

    /// Sets the marker that identifiers carry.
    pub fn set_ident_str(&mut self, s: Vec<char>)
        ensures
            final(self).ident_string@ == s@,
            final(self).type_string@ == old(self).type_string@,
            final(self).type_switch_string@ == old(self).type_switch_string@,
            final(self).ref_string@ == old(self).ref_string@,
            final(self).ignore_self == old(self).ignore_self,
            final(self).mut_version == old(self).mut_version,
    {
        self.ident_string = s;
    }

    /// Sets the marker that type names carry.
    pub fn set_type_str(&mut self, s: Vec<char>)
        ensures
            final(self).type_string@ == s@,
            final(self).ident_string@ == old(self).ident_string@,
            final(self).type_switch_string@ == old(self).type_switch_string@,
            final(self).ref_string@ == old(self).ref_string@,
            final(self).ignore_self == old(self).ignore_self,
            final(self).mut_version == old(self).mut_version,
    {
        self.type_string = s;
    }

    /// Sets the two-argument marker that picks a type by variant.
    pub fn set_type_switch_str(&mut self, s: Vec<char>)
        ensures
            final(self).type_switch_string@ == s@,
            final(self).ident_string@ == old(self).ident_string@,
            final(self).type_string@ == old(self).type_string@,
            final(self).ref_string@ == old(self).ref_string@,
            final(self).ignore_self == old(self).ignore_self,
            final(self).mut_version == old(self).mut_version,
    {
        self.type_switch_string = s;
    }

    /// Sets the one-argument marker that stands for a reference of either kind.
    pub fn set_ref_str(&mut self, s: Vec<char>)
        ensures
            final(self).ref_string@ == s@,
            final(self).ident_string@ == old(self).ident_string@,
            final(self).type_string@ == old(self).type_string@,
            final(self).type_switch_string@ == old(self).type_switch_string@,
            final(self).ignore_self == old(self).ignore_self,
            final(self).mut_version == old(self).mut_version,
    {
        self.ref_string = s;
    }

    /// The argument list of an invocation: each flag must be `ignore_self`. The markers
    /// are those of `mwt`.
    pub fn parse(tokens: &Vec<Vec<char>>) -> (r: Result<Args, MacroError>)
        ensures
            r is Ok <==> all_ignore_self(tokens@),
            !all_ignore_self(tokens@) ==> r == Err::<Args, MacroError>(MacroError::InvalidArgument),
            r matches Ok(a) ==> a.markers() == mwt_markers() && a.ignore_self == (tokens@.len() > 0)
                && !a.mut_version,
    {
        let word: Vec<char> = vec!['i', 'g', 'n', 'o', 'r', 'e', '_', 's', 'e', 'l', 'f'];
        assert(word@ =~= ignore_self_word());
        let mut ignore_self = false;
        let mut i: usize = 0;
        while i < tokens.len()
            invariant
                i <= tokens@.len(),
                word@ == ignore_self_word(),
                ignore_self == (i > 0),
                forall|j: int| 0 <= j < i ==> #[trigger] tokens@[j]@ == ignore_self_word(),
            decreases tokens@.len() - i,
        {
            if !crate::engine::same_name(&tokens[i], &word) {
                return Err(MacroError::InvalidArgument);
            }
            ignore_self = true;
            i = i + 1;
        }
        let r = Args {
            mut_version: false,
            ignore_self,
            ident_string: vec!['m', 'w', 't'],
            type_string: vec!['M', 'w', 't'],
            type_switch_string: vec!['M', 'w', 't', 'A', 'l', 't'],
            ref_string: vec!['M', 'w', 't'],
        };
        assert(r.markers() =~= mwt_markers());
        assert(r.ident_string@ =~= mwt_markers().ident);
        assert(r.type_string@ =~= mwt_markers().ty);
        assert(r.type_switch_string@ =~= mwt_markers().switch);
        assert(r.ref_string@ =~= mwt_markers().reference);
        Ok(r)
    }

    /// The function in the given variant: in the read-only one, unless `ignore_self` is
    /// set, a mutable receiver loses its mutability; then every rule applies to the name,
    /// the inputs, the return type and the body, in that order.
    pub fn convert_fn(&mut self, mut_version: bool, root: FnItem) -> (r: Result<FnItem, Fault>)
        ensures
            final(self).mut_version == mut_version,
            final(self).ignore_self == old(self).ignore_self,
            final(self).markers() == old(self).markers(),
            res_fn(r) == convert(old(self).markers(), old(self).ignore_self, mut_version, fn_ast(root)),
    {
        self.mut_version = mut_version;
        let FnItem { name, inputs, output, body } = root;
        let inputs = if !mut_version && !self.ignore_self {
            strip_receivers_exec(inputs)
        } else {
            inputs
        };
        let name2 = rename_ident(&self.ident_string, mut_version, &name);
        let a: &Args = self;
        let inputs2 = match render_all(a, mut_version, inputs) {
            Err(e) => return Err(e),
            Ok(v) => v,
        };
        let output2 = match render(a, mut_version, output) {
            Err(e) => return Err(e),
            Ok(v) => v,
        };
        let body2 = match render(a, mut_version, body) {
            Err(e) => return Err(e),
            Ok(v) => v,
        };
        Ok(FnItem { name: name2, inputs: inputs2, output: output2, body: body2 })
    }
}

pub open spec fn ignore_self_word() -> Seq<char> {
    seq!['i', 'g', 'n', 'o', 'r', 'e', '_', 's', 'e', 'l', 'f']
}

/// Every flag of the list is `ignore_self`.
pub open spec fn all_ignore_self(tokens: Seq<Vec<char>>) -> bool {
    forall|j: int| 0 <= j < tokens.len() ==> #[trigger] tokens[j]@ == ignore_self_word()
}

/// The markers of `mwt`.
pub open spec fn mwt_markers() -> Markers {
    Markers {
        ident: seq!['m', 'w', 't'],
        ty: seq!['M', 'w', 't'],
        switch: seq!['M', 'w', 't', 'A', 'l', 't'],
        reference: seq!['M', 'w', 't'],
    }
}

/// The markers of `maybe_mut`.
pub open spec fn maybe_mut_markers() -> Markers {
    Markers {
        ident: seq!['m', 'a', 'y', 'b', 'e', '_', 'm', 'u', 't'],
        ty: seq!['M', 'a', 'y', 'b', 'e', 'M', 'u', 't'],
        switch: seq!['M', 'u', 't', 'O', 'r', 'E', 'l', 's', 'e'],
        reference: seq!['M', 'a', 'y', 'b', 'e', 'M', 'u', 't'],
    }
}

/// An input in the read-only variant when the receiver is not kept: every receiver is
/// immutable.
pub open spec fn settle_receiver(a: Ast) -> Ast {
    if a is Receiver {
        Ast::Receiver(false)
    } else {
        a
    }
}

pub open spec fn strip_receivers(ins: Seq<Ast>) -> Seq<Ast> {
    ins.map_values(|a: Ast| settle_receiver(a))
}

/// A function in the given variant, or the first fault met.
pub open spec fn convert(k: Markers, keep_self: bool, mutable: bool, f: FnAst) -> Result<FnAst, Fault> {
    let ins = if !mutable && !keep_self {
        strip_receivers(f.inputs)
    } else {
        f.inputs
    };
    match rend_all(k, mutable, ins) {
        Err(e) => Err(e),
        Ok(i2) => match rend(k, mutable, f.output) {
            Err(e) => Err(e),
            Ok(o2) => match rend(k, mutable, f.body) {
                Err(e) => Err(e),
                Ok(b2) => Ok(
                    FnAst { name: ident_out(k.ident, mutable, f.name), inputs: i2, output: o2, body: b2 },
                ),
            },
        },
    }
}

pub open spec fn res_fn(r: Result<FnItem, Fault>) -> Result<FnAst, Fault> {
    match r {
        Ok(f) => Ok(fn_ast(f)),
        Err(e) => Err(e),
    }
}

fn strip_receivers_exec(ins: Vec<Tree>) -> (r: Vec<Tree>)
    ensures
        asts(r@) == strip_receivers(asts(ins@)),
{
    let ghost orig = ins@;
    let n: usize = ins.len();
    let mut rest = ins;
    let mut out: Vec<Tree> = Vec::new();
    let mut i: usize = 0;
    while rest.len() > 0
        invariant
            i <= n,
            n == orig.len(),
            rest@ == orig.subrange(i as int, n as int),
            out@.len() == i,
            forall|j: int| 0 <= j < i ==> #[trigger] ast(out@[j]) == settle_receiver(ast(orig[j])),
        decreases rest@.len(),
    {
        assert(i < n);
        let x = rest.remove(0);
        assert(x == orig[i as int]);
        match x {
            Tree::Receiver(_) => out.push(Tree::Receiver(false)),
            other => out.push(other),
        }
        i = i + 1;
    }
    proof {
        lemma_asts(out@);
        lemma_asts(orig);
        assert(asts(out@) =~= strip_receivers(asts(orig)));
    }
    out
}

}
