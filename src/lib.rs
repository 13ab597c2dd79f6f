//! Two variants, read-only and mutable, of one function's syntax tree.
//!
//! Marker names in identifiers, type names, reference types, type switches, tagged
//! blocks and escape calls decide how each variant is written.
use vstd::prelude::*;

pub mod names;
pub mod tree;
pub mod args;
pub mod engine;
pub mod laws;

use crate::args::{Args, MacroError, Markers, convert, all_ignore_self, mwt_markers, maybe_mut_markers};
use crate::tree::{FnItem, FnAst, fn_ast, copy_fn};

verus! {

/// Both variants of a function, read-only first, or the first fault met.
pub open spec fn expand(k: Markers, keep_self: bool, f: FnAst) -> Result<(FnAst, FnAst), MacroError> {
    match convert(k, keep_self, false, f) {
        Err(e) => Err(MacroError::Shape(e)),
        Ok(a) => match convert(k, keep_self, true, f) {
            Err(e) => Err(MacroError::Shape(e)),
            Ok(b) => Ok((a, b)),
        },
    }
}

pub open spec fn res_pair(r: Result<(FnItem, FnItem), MacroError>) -> Result<(FnAst, FnAst), MacroError> {
    match r {
        Ok((a, b)) => Ok((fn_ast(a), fn_ast(b))),
        Err(e) => Err(e),
    }
}

/// Renders two independent copies of `input`: the read-only variant, then the mutable one.
pub fn do_parse(args: Args, input: FnItem) -> (r: Result<(FnItem, FnItem), MacroError>)
    ensures
        res_pair(r) == expand(args.markers(), args.ignore_self, fn_ast(input)),
{
    let mut args = args;
    let copy = copy_fn(&input);
    let read_only = match args.convert_fn(false, copy) {
        Err(e) => return Err(MacroError::Shape(e)),
        Ok(f) => f,
    };
    let mutable = match args.convert_fn(true, input) {
        Err(e) => return Err(MacroError::Shape(e)),
        Ok(f) => f,
    };
    Ok((read_only, mutable))
}

/// Both variants of `input` under the markers `mwt`, `Mwt` and `MwtAlt`, given the flags
/// of the invocation.
pub fn mwt(args: &Vec<Vec<char>>, input: FnItem) -> (r: Result<(FnItem, FnItem), MacroError>)
    ensures
        !all_ignore_self(args@) ==> r == Err::<(FnItem, FnItem), MacroError>(MacroError::InvalidArgument),
        all_ignore_self(args@) ==> res_pair(r) == expand(mwt_markers(), args@.len() > 0, fn_ast(input)),
{
    match Args::parse(args) {
        Err(e) => Err(e),
        Ok(a) => do_parse(a, input),
    }
}

/// Both variants of `input` under the markers `maybe_mut`, `MaybeMut` and `MutOrElse`,
/// given the flags of the invocation.
pub fn maybe_mut(args: &Vec<Vec<char>>, input: FnItem) -> (r: Result<(FnItem, FnItem), MacroError>)
    ensures
        !all_ignore_self(args@) ==> r == Err::<(FnItem, FnItem), MacroError>(MacroError::InvalidArgument),
        all_ignore_self(args@) ==> res_pair(r) == expand(maybe_mut_markers(), args@.len() > 0, fn_ast(input)),
{
    match Args::parse(args) {
        Err(e) => Err(e),
        Ok(a) => {
            let mut a = a;
            a.set_ident_str(vec!['m', 'a', 'y', 'b', 'e', '_', 'm', 'u', 't']);
            a.set_type_str(vec!['M', 'a', 'y', 'b', 'e', 'M', 'u', 't']);
            a.set_type_switch_str(vec!['M', 'u', 't', 'O', 'r', 'E', 'l', 's', 'e']);
            a.set_ref_str(vec!['M', 'a', 'y', 'b', 'e', 'M', 'u', 't']);
            assert(a.markers() =~= maybe_mut_markers());
            assert(a.ident_string@ =~= maybe_mut_markers().ident);
            assert(a.type_string@ =~= maybe_mut_markers().ty);
            assert(a.type_switch_string@ =~= maybe_mut_markers().switch);
            assert(a.ref_string@ =~= maybe_mut_markers().reference);
            do_parse(a, input)
        },
    }
}

}
