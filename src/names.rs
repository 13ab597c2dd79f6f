//! Identifier rewriting: substring replacement and affix trimming on names.
use vstd::prelude::*;

verus! {

/// The name with every non-overlapping occurrence of `p` (scanned from position `i`,
/// left to right) replaced by `r`. An empty pattern matches before every character
/// and at the end.
pub open spec fn replace_from(s: Seq<char>, p: Seq<char>, r: Seq<char>, i: int) -> Seq<char>
    decreases s.len() - i,
{
    if i < 0 || i > s.len() {
        seq![]
    } else if p.len() == 0 {
        if i == s.len() {
            r
        } else {
            r + seq![s[i]] + replace_from(s, p, r, i + 1)
        }
    } else if i + p.len() <= s.len() && s.subrange(i, i + p.len()) == p {
        r + replace_from(s, p, r, i + p.len())
    } else if i == s.len() {
        seq![]
    } else {
        seq![s[i]] + replace_from(s, p, r, i + 1)
    }
}

/// `s` with every occurrence of `p` replaced by `r`, as `str::replace` does.
pub open spec fn replace_all(s: Seq<char>, p: Seq<char>, r: Seq<char>) -> Seq<char> {
    replace_from(s, p, r, 0)
}

/// What is left of `s` from position `i` after removing copies of `p` there, repeatedly.
pub open spec fn trim_start_from(s: Seq<char>, p: Seq<char>, i: int) -> Seq<char>
    decreases s.len() - i,
{
    if i < 0 || i > s.len() {
        seq![]
    } else if p.len() > 0 && i + p.len() <= s.len() && s.subrange(i, i + p.len()) == p {
        trim_start_from(s, p, i + p.len())
    } else {
        s.subrange(i, s.len() as int)
    }
}

/// `s` without its leading copies of `p`, as `str::trim_start_matches` does.
pub open spec fn trim_start(s: Seq<char>, p: Seq<char>) -> Seq<char> {
    trim_start_from(s, p, 0)
}

/// What is left of the first `j` characters of `s` after removing copies of `p` at their end.
pub open spec fn trim_end_to(s: Seq<char>, p: Seq<char>, j: int) -> Seq<char>
    decreases j,
{
    if j < 0 || j > s.len() {
        seq![]
    } else if p.len() > 0 && j >= p.len() && s.subrange(j - p.len(), j) == p {
        trim_end_to(s, p, j - p.len())
    } else {
        s.subrange(0, j)
    }
}

/// `s` without its trailing copies of `p`, as `str::trim_end_matches` does.
pub open spec fn trim_end(s: Seq<char>, p: Seq<char>) -> Seq<char> {
    trim_end_to(s, p, s.len() as int)
}

pub open spec fn mut_word() -> Seq<char> {
    seq!['m', 'u', 't']
}

pub open spec fn mut_type_word() -> Seq<char> {
    seq!['M', 'u', 't']
}

/// The read-only form of a name: the marker goes together with one adjacent underscore.
/// `a_k_b` becomes `a_b`, then a leading `k_` and a trailing `_k` are removed.
pub open spec fn strip_marker(s: Seq<char>, k: Seq<char>) -> Seq<char> {
    let under = seq!['_'];
    trim_end(
        trim_start(replace_all(s, under + k + under, under), k + under),
        under + k,
    )
}

/// An identifier in the given variant: the marker becomes `mut` in the mutable one and
/// is removed in the read-only one.
pub open spec fn ident_out(k: Seq<char>, mutable: bool, s: Seq<char>) -> Seq<char> {
    if mutable {
        replace_all(s, k, mut_word())
    } else {
        strip_marker(s, k)
    }
}

/// A path segment's name in the given variant: the type marker becomes `Mut` (or goes),
/// then the identifier marker is treated as in any identifier.
pub open spec fn segment_out(k: Seq<char>, tk: Seq<char>, mutable: bool, s: Seq<char>) -> Seq<char> {
    if mutable {
        replace_all(replace_all(s, tk, mut_type_word()), k, mut_word())
    } else {
        strip_marker(replace_all(s, tk, seq![]), k)
    }
}

/// Whether `p` stands in `s` at position `i`.
pub fn occurs_at(s: &Vec<char>, p: &Vec<char>, i: usize) -> (b: bool)
    ensures
        b == (i + p@.len() <= s@.len() && s@.subrange(i as int, i + p@.len()) == p@),
{
    if p.len() > s.len() || i > s.len() - p.len() {
        return false;
    }
    let mut j: usize = 0;
    while j < p.len()
        invariant
            j <= p@.len(),
            i + p@.len() <= s@.len(),
            i + p.len() <= s.len(),
            forall|k: int| 0 <= k < j ==> s@[i + k] == p@[k],
        decreases p@.len() - j,
    {
        if s[i + j] != p[j] {
            assert(s@.subrange(i as int, i + p@.len())[j as int] != p@[j as int]);
            return false;
        }
        j = j + 1;
    }
    assert(s@.subrange(i as int, i + p@.len()) =~= p@);
    true
}

fn append(out: &mut Vec<char>, r: &Vec<char>)
    ensures
        final(out)@ == old(out)@ + r@,
{
    let mut j: usize = 0;
    while j < r.len()
        invariant
            j <= r@.len(),
            out@ == old(out)@ + r@.subrange(0, j as int),
        decreases r@.len() - j,
    {
        out.push(r[j]);
        j = j + 1;
        assert(r@.subrange(0, j as int) =~= r@.subrange(0, j - 1) + seq![r@[j - 1]]);
    }
    assert(r@.subrange(0, j as int) =~= r@);
}

/// `s` with every occurrence of `p` replaced by `r`.
pub fn replace(s: &Vec<char>, p: &Vec<char>, r: &Vec<char>) -> (out: Vec<char>)
    ensures
        out@ == replace_all(s@, p@, r@),
{
    let mut out: Vec<char> = Vec::new();
    let mut i: usize = 0;
    while i < s.len()
        invariant
            i <= s@.len(),
            replace_all(s@, p@, r@) == out@ + replace_from(s@, p@, r@, i as int),
        decreases s@.len() - i,
    {
        if p.len() == 0 {
            append(&mut out, r);
            out.push(s[i]);
            i = i + 1;
        } else if occurs_at(s, p, i) {
            append(&mut out, r);
            i = i + p.len();
        } else {
            out.push(s[i]);
            i = i + 1;
        }
        assert(replace_all(s@, p@, r@) == out@ + replace_from(s@, p@, r@, i as int));
    }
    if p.len() == 0 {
        append(&mut out, r);
    }
    assert(replace_all(s@, p@, r@) =~= out@);
    out
}

/// `s` without its leading copies of `p`.
pub fn strip_leading(s: &Vec<char>, p: &Vec<char>) -> (out: Vec<char>)
    ensures
        out@ == trim_start(s@, p@),
{
    let mut i: usize = 0;
    if p.len() > 0 {
        loop
            invariant
                p@.len() > 0,
                i <= s@.len(),
                trim_start(s@, p@) == trim_start_from(s@, p@, i as int),
            ensures
                i <= s@.len(),
                trim_start(s@, p@) == s@.subrange(i as int, s@.len() as int),
            decreases s@.len() - i,
        {
            if !occurs_at(s, p, i) {
                break;
            }
            assert(i + p.len() <= s.len());
            i = i + p.len();
        }
    }
    let mut out: Vec<char> = Vec::new();
    let mut j: usize = i;
    while j < s.len()
        invariant
            i <= j <= s@.len(),
            out@ == s@.subrange(i as int, j as int),
        decreases s@.len() - j,
    {
        out.push(s[j]);
        j = j + 1;
        assert(s@.subrange(i as int, j as int) =~= s@.subrange(i as int, j - 1) + seq![s@[j - 1]]);
    }
    out
}

/// `s` without its trailing copies of `p`.
pub fn strip_trailing(s: &Vec<char>, p: &Vec<char>) -> (out: Vec<char>)
    ensures
        out@ == trim_end(s@, p@),
{
    let mut j: usize = s.len();
    if p.len() > 0 {
        loop
            invariant
                p@.len() > 0,
                j <= s@.len(),
                trim_end(s@, p@) == trim_end_to(s@, p@, j as int),
            ensures
                j <= s@.len(),
                trim_end(s@, p@) == s@.subrange(0, j as int),
            decreases j,
        {
            if j < p.len() || !occurs_at(s, p, j - p.len()) {
                break;
            }
            j = j - p.len();
        }
    }
    let mut out: Vec<char> = Vec::new();
    let mut k: usize = 0;
    while k < j
        invariant
            k <= j <= s@.len(),
            out@ == s@.subrange(0, k as int),
        decreases j - k,
    {
        out.push(s[k]);
        k = k + 1;
        assert(s@.subrange(0, k as int) =~= s@.subrange(0, k - 1) + seq![s@[k - 1]]);
    }
    out
}


fn strip_marker_exec(s: &Vec<char>, k: &Vec<char>) -> (out: Vec<char>)
    ensures
        out@ == strip_marker(s@, k@),
{
    let mut inner: Vec<char> = vec!['_'];
    append(&mut inner, k);
    inner.push('_');
    let mut lead: Vec<char> = Vec::new();
    append(&mut lead, k);
    lead.push('_');
    let mut trail: Vec<char> = vec!['_'];
    append(&mut trail, k);
    let under: Vec<char> = vec!['_'];
    assert(under@ =~= seq!['_']);
    assert(inner@ =~= seq!['_'] + k@ + seq!['_']);
    assert(lead@ =~= k@ + seq!['_']);
    assert(trail@ =~= seq!['_'] + k@);
    let a = replace(s, &inner, &under);
    let b = strip_leading(&a, &lead);
    strip_trailing(&b, &trail)
}

/// An identifier as it stands in the given variant.
pub fn rename_ident(k: &Vec<char>, mutable: bool, s: &Vec<char>) -> (out: Vec<char>)
    ensures
        out@ == ident_out(k@, mutable, s@),
{
    if mutable {
        let w: Vec<char> = vec!['m', 'u', 't'];
        replace(s, k, &w)
    } else {
        strip_marker_exec(s, k)
    }
}

/// A path segment's name as it stands in the given variant.
pub fn rename_segment(k: &Vec<char>, tk: &Vec<char>, mutable: bool, s: &Vec<char>) -> (out: Vec<char>)
    ensures
        out@ == segment_out(k@, tk@, mutable, s@),
{
    if mutable {
        let tw: Vec<char> = vec!['M', 'u', 't'];
        let w: Vec<char> = vec!['m', 'u', 't'];
        let a = replace(s, tk, &tw);
        replace(&a, k, &w)
    } else {
        let none: Vec<char> = Vec::new();
        let a = replace(s, tk, &none);
        assert(none@ =~= Seq::<char>::empty());
        strip_marker_exec(&a, k)
    }
}

}
