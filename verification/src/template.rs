//! `{{var}}` template substitution over a variable map.
//!
//! Substitution scans left to right: each `{{name}}` whose name is bound
//! in the map becomes the bound value; a placeholder with an unbound name
//! is kept verbatim.

use vstd::prelude::*;

verus! {

use crate::strutil::{StrMap, chars_of, map_get, push_char, string_of};

/// A closing `}}` starts at this position.
pub open spec fn close_at(s: Seq<char>, l: int) -> bool {
    l + 2 <= s.len() && s[l] == '}' && s[l + 1] == '}'
}

/// The first position at or after `i` where a closing `}}` starts.
pub open spec fn find_close(s: Seq<char>, i: int) -> Option<int>
    decreases s.len() - i,
{
    if i < 0 || i + 2 > s.len() {
        None
    } else if s[i] == '}' && s[i + 1] == '}' {
        Some(i)
    } else {
        find_close(s, i + 1)
    }
}

pub proof fn lemma_find_close(s: Seq<char>, i: int)
    requires
        0 <= i,
    ensures
        match find_close(s, i) {
            Some(j) => i <= j && close_at(s, j) && forall|l: int| i <= l < j ==> !close_at(s, l),
            None => forall|l: int| i <= l ==> !close_at(s, l),
        },
    decreases s.len() - i,
{
    if i + 2 > s.len() {
    } else if s[i] == '}' && s[i + 1] == '}' {
    } else {
        lemma_find_close(s, i + 1);
    }
}

/// Substitution applied to the suffix of `s` that starts at `i`.
pub open spec fn spec_apply_vars_from(
    s: Seq<char>,
    m: Seq<(Seq<char>, Seq<char>)>,
    i: int,
) -> Seq<char>
    decreases s.len() - i, 1nat,
{
    if i < 0 || i >= s.len() {
        Seq::<char>::empty()
    } else if i + 1 < s.len() && s[i] == '{' && s[i + 1] == '{' {
        spec_apply_vars_open(s, m, i)
    } else {
        seq![s[i]] + spec_apply_vars_from(s, m, i + 1)
    }
}

/// Substitution at a position where `{{` starts.
pub open spec fn spec_apply_vars_open(
    s: Seq<char>,
    m: Seq<(Seq<char>, Seq<char>)>,
    i: int,
) -> Seq<char>
    decreases s.len() - i, 0nat,
{
    if 0 <= i && i + 1 < s.len() {
        match find_close(s, i + 2) {
            Some(j) => if i + 2 <= j && j + 2 <= s.len() {
                match map_get(m, s.subrange(i + 2, j)) {
                    Some(v) => v + spec_apply_vars_from(s, m, j + 2),
                    None => seq![s[i]] + spec_apply_vars_from(s, m, i + 1),
                }
            } else {
                seq![s[i]] + spec_apply_vars_from(s, m, i + 1)
            },
            None => seq![s[i]] + spec_apply_vars_from(s, m, i + 1),
        }
    } else {
        Seq::<char>::empty()
    }
}

/// The whole substituted text.
pub open spec fn spec_apply_vars(s: Seq<char>, m: Seq<(Seq<char>, Seq<char>)>) -> Seq<char> {
    spec_apply_vars_from(s, m, 0)
}

/// A copy of the characters of `v` between two positions.
pub fn subvec(v: &Vec<char>, a: usize, b: usize) -> (r: Vec<char>)
    requires
        a <= b <= v@.len(),
    ensures
        r@ == v@.subrange(a as int, b as int),
{
    let mut r: Vec<char> = Vec::new();
    let mut i: usize = a;
    while i < b
        invariant
            a <= i <= b <= v@.len(),
            r@ == v@.subrange(a as int, i as int),
        decreases b - i,
    {
        r.push(v[i]);
        assert(r@ =~= v@.subrange(a as int, i + 1));
        i = i + 1;
    }
    r
}

fn find_close_exec(cs: &Vec<char>, i: usize) -> (r: Option<usize>)
    ensures
        match r {
            Some(j) => Some(j as int) == find_close(cs@, i as int),
            None => find_close(cs@, i as int) is None,
        },
{
    let n = cs.len();
    if n < 2 || i > n - 2 {
        return None;
    }
    let mut j: usize = i;
    while j < n - 1
        invariant
            i <= j,
            2 <= n == cs@.len(),
            forall|l: int| i <= l < j ==> !close_at(cs@, l),
        decreases n - j,
    {
        if cs[j] == '}' && cs[j + 1] == '}' {
            proof {
                lemma_find_close(cs@, i as int);
                assert(close_at(cs@, j as int));
                match find_close(cs@, i as int) {
                    Some(j2) => {
                        if j2 < j {
                            assert(!close_at(cs@, j2));
                        }
                        if j < j2 {
                            assert(!close_at(cs@, j as int));
                        }
                    },
                    None => {
                        assert(!close_at(cs@, j as int));
                    },
                }
            }
            return Some(j);
        }
        j = j + 1;
    }
    proof {
        lemma_find_close(cs@, i as int);
        match find_close(cs@, i as int) {
            Some(j2) => {
                assert(close_at(cs@, j2));
                assert(!close_at(cs@, j2));
            },
            None => {},
        }
    }
    None
}

/// One substitution step at a position where `{{` starts: appends what the
/// placeholder (or its first character) becomes and says where to go on.
fn step_open(cs: &Vec<char>, vars: &StrMap, out: &mut String, i: usize) -> (ni: usize)
    requires
        vars.wf(),
        i + 1 < cs@.len(),
        cs@[i as int] == '{',
        cs@[i as int + 1] == '{',
    ensures
        i < ni <= cs@.len(),
        old(out)@ + spec_apply_vars_from(cs@, vars@, i as int) == final(out)@
            + spec_apply_vars_from(cs@, vars@, ni as int),
{
    let ghost s = cs@;
    let ghost m = vars@;
    let ghost pre = out@;
    let n = cs.len();
    assert(spec_apply_vars_from(s, m, i as int) == spec_apply_vars_open(s, m, i as int));
    match find_close_exec(cs, i + 2) {
        Some(j) => {
            proof {
                lemma_find_close(s, i + 2);
            }
            assert(i + 2 <= j && j + 2 <= cs@.len());
            let name_chars = subvec(cs, i + 2, j);
            let name = string_of(&name_chars);
            assert(name@ == s.subrange(i + 2, j as int));
            match vars.get(name.as_str()) {
                Some(v) => {
                    let ghost vv = v@;
                    let copy: String = v.clone();
                    out.append(copy.as_str());
                    assert(out@ == pre + vv);
                    assert(spec_apply_vars_open(s, m, i as int) == vv + spec_apply_vars_from(
                        s,
                        m,
                        j + 2,
                    ));
                    assert(pre + (vv + spec_apply_vars_from(s, m, j + 2)) =~= (pre + vv)
                        + spec_apply_vars_from(s, m, j + 2));
                    return j + 2;
                },
                None => {
                    push_char(out, '{');
                    assert(out@ == pre.push('{'));
                    assert(spec_apply_vars_open(s, m, i as int) == seq![s[i as int]]
                        + spec_apply_vars_from(s, m, i as int + 1));
                    assert(pre + (seq![s[i as int]] + spec_apply_vars_from(s, m, i as int + 1))
                        =~= pre.push('{') + spec_apply_vars_from(s, m, i as int + 1));
                    return i + 1;
                },
            }
        },
        None => {
            push_char(out, '{');
            assert(out@ == pre.push('{'));
            assert(spec_apply_vars_open(s, m, i as int) == seq![s[i as int]]
                + spec_apply_vars_from(s, m, i as int + 1));
            assert(pre + (seq![s[i as int]] + spec_apply_vars_from(s, m, i as int + 1))
                =~= pre.push('{') + spec_apply_vars_from(s, m, i as int + 1));
            return i + 1;
        },
    }
}

/// Replaces each `{{name}}` whose name is bound in `vars` by the bound
/// value; placeholders with unbound names stay verbatim.
pub fn apply_vars(input: &str, vars: &StrMap) -> (out: String)
    requires
        vars.wf(),
    ensures
        out@ == spec_apply_vars(input@, vars@),
{
    let cs = chars_of(input);
    let n = cs.len();
    let mut out = String::new();
    assert(out@ + spec_apply_vars_from(cs@, vars@, 0) =~= spec_apply_vars(cs@, vars@));
    let mut i: usize = 0;
    while i < n
        invariant
            vars.wf(),
            i <= n,
            n == cs@.len(),
            cs@ == input@,
            out@ + spec_apply_vars_from(cs@, vars@, i as int) == spec_apply_vars(cs@, vars@),
        decreases n - i,
    {
        let ghost pre = out@;
        if i + 1 < n && cs[i] == '{' && cs[i + 1] == '{' {
            i = step_open(&cs, vars, &mut out, i);
        } else {
            push_char(&mut out, cs[i]);
            assert(out@ == pre.push(cs@[i as int]));
            assert(spec_apply_vars_from(cs@, vars@, i as int) == seq![cs@[i as int]]
                + spec_apply_vars_from(cs@, vars@, i as int + 1));
            assert(pre + (seq![cs@[i as int]] + spec_apply_vars_from(cs@, vars@, i as int + 1))
                =~= pre.push(cs@[i as int]) + spec_apply_vars_from(cs@, vars@, i as int + 1));
            i = i + 1;
        }
    }
    assert(spec_apply_vars_from(cs@, vars@, n as int) == Seq::<char>::empty());
    assert(out@ + Seq::<char>::empty() =~= out@);
    out
}

} // verus!
