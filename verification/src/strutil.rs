//! Character-level string utilities and a small string-keyed map.
//!
//! Contracts over strings are stated on their views (`Seq<char>`); the
//! helpers here move between `String`/`&str` and `Vec<char>` so the rest
//! of the library can work on plain character vectors.

use vstd::prelude::*;

verus! {

use vstd::string::StrSliceExecFns;

/// Relies on `String::push`: appends one character at the end of the string.
#[verifier::external_body]
pub(crate) fn push_char(s: &mut String, c: char)
    ensures
        final(s)@ == old(s)@.push(c),
{
    s.push(c);
}

/// Relies on `str`'s equality: two string slices are equal exactly when
/// their character sequences are.
#[verifier::external_body]
pub(crate) fn str_eq(a: &str, b: &str) -> (r: bool)
    ensures
        r == (a@ == b@),
{
    a == b
}

/// The characters of a string slice, as a vector.
pub fn chars_of(s: &str) -> (v: Vec<char>)
    ensures
        v@ == s@,
{
    let n = s.unicode_len();
    let mut v: Vec<char> = Vec::new();
    let mut i: usize = 0;
    while i < n
        invariant
            i <= n,
            n == s@.len(),
            v@ == s@.take(i as int),
        decreases n - i,
    {
        let c = s.get_char(i);
        v.push(c);
        assert(v@ =~= s@.take(i + 1));
        i = i + 1;
    }
    assert(v@ =~= s@);
    v
}

/// A string holding exactly the given characters.
pub fn string_of(v: &Vec<char>) -> (s: String)
    ensures
        s@ == v@,
{
    let mut s = String::new();
    let mut i: usize = 0;
    while i < v.len()
        invariant
            i <= v.len(),
            s@ == v@.take(i as int),
        decreases v.len() - i,
    {
        push_char(&mut s, v[i]);
        assert(s@ =~= v@.take(i + 1));
        i = i + 1;
    }
    assert(s@ =~= v@);
    s
}

/// The decimal digit character for a value below ten.
pub open spec fn spec_digit(d: int) -> char {
    if d == 0 { '0' }
    else if d == 1 { '1' }
    else if d == 2 { '2' }
    else if d == 3 { '3' }
    else if d == 4 { '4' }
    else if d == 5 { '5' }
    else if d == 6 { '6' }
    else if d == 7 { '7' }
    else if d == 8 { '8' }
    else { '9' }
}

/// Decimal rendering of a nonnegative integer, most significant digit first.
pub open spec fn spec_dec(n: int) -> Seq<char>
    decreases n,
{
    if n < 10 {
        seq![spec_digit(n)]
    } else {
        spec_dec(n / 10).push(spec_digit(n % 10))
    }
}

fn digit_char(d: u64) -> (c: char)
    requires
        d < 10,
    ensures
        c == spec_digit(d as int),
{
    if d == 0 { '0' }
    else if d == 1 { '1' }
    else if d == 2 { '2' }
    else if d == 3 { '3' }
    else if d == 4 { '4' }
    else if d == 5 { '5' }
    else if d == 6 { '6' }
    else if d == 7 { '7' }
    else if d == 8 { '8' }
    else { '9' }
}

fn push_dec(out: &mut String, n: u64)
    ensures
        final(out)@ == old(out)@ + spec_dec(n as int),
    decreases n,
{
    if n < 10 {
        push_char(out, digit_char(n));
    } else {
        push_dec(out, n / 10);
        push_char(out, digit_char(n % 10));
    }
}

/// The decimal text of a number.
pub fn u64_dec_str(n: u64) -> (s: String)
    ensures
        s@ == spec_dec(n as int),
{
    let mut s = String::new();
    push_dec(&mut s, n);
    assert(s@ =~= spec_dec(n as int));
    s
}

/// A key/value sequence holds a key.
pub open spec fn map_has(m: Seq<(Seq<char>, Seq<char>)>, k: Seq<char>) -> bool {
    exists|i: int| 0 <= i < m.len() && m[i].0 == k
}

/// An index at which a key/value sequence holds the key.
pub open spec fn map_idx(m: Seq<(Seq<char>, Seq<char>)>, k: Seq<char>) -> int {
    choose|i: int| 0 <= i < m.len() && m[i].0 == k
}

/// The value bound to a key, if any.
pub open spec fn map_get(m: Seq<(Seq<char>, Seq<char>)>, k: Seq<char>) -> Option<Seq<char>> {
    if map_has(m, k) {
        Some(m[map_idx(m, k)].1)
    } else {
        None
    }
}

/// Binding a key: replaces the entry holding the key, or appends a new one.
pub open spec fn map_set(
    m: Seq<(Seq<char>, Seq<char>)>,
    k: Seq<char>,
    v: Seq<char>,
) -> Seq<(Seq<char>, Seq<char>)> {
    if map_has(m, k) {
        m.update(map_idx(m, k), (k, v))
    } else {
        m.push((k, v))
    }
}

/// No key occurs twice.
pub open spec fn map_wf(m: Seq<(Seq<char>, Seq<char>)>) -> bool {
    forall|i: int, j: int| 0 <= i < j < m.len() ==> m[i].0 != m[j].0
}

/// The views of a sequence of string pairs.
pub open spec fn pairs_view(s: Seq<(String, String)>) -> Seq<(Seq<char>, Seq<char>)> {
    Seq::new(s.len(), |i: int| (s[i].0@, s[i].1@))
}

/// A map from strings to strings, kept as a vector of entries with
/// pairwise distinct keys.
pub struct StrMap {
    pub entries: Vec<(String, String)>,
}

impl View for StrMap {
    type V = Seq<(Seq<char>, Seq<char>)>;

    open spec fn view(&self) -> Seq<(Seq<char>, Seq<char>)> {
        Seq::new(self.entries@.len(), |i: int| (self.entries@[i].0@, self.entries@[i].1@))
    }
}

impl StrMap {
    /// Keys are pairwise distinct.
    pub open spec fn wf(&self) -> bool {
        map_wf(self@)
    }

    /// An empty map.
    pub fn new() -> (m: StrMap)
        ensures
            m@ =~= Seq::<(Seq<char>, Seq<char>)>::empty(),
            m.wf(),
    {
        StrMap { entries: Vec::new() }
    }

    /// How many keys are bound.
    pub fn len(&self) -> (n: usize)
        ensures
            n == self@.len(),
    {
        self.entries.len()
    }

    /// The value bound to the key, if any.
    pub fn get(&self, k: &str) -> (r: Option<&String>)
        requires
            self.wf(),
        ensures
            match r {
                Some(v) => map_get(self@, k@) == Some(v@),
                None => map_get(self@, k@) is None,
            },
    {
        let mut i: usize = 0;
        while i < self.entries.len()
            invariant
                self.wf(),
                i <= self.entries.len(),
                forall|j: int| 0 <= j < i ==> self@[j].0 != k@,
            decreases self.entries.len() - i,
        {
            if str_eq(self.entries[i].0.as_str(), k) {
                assert(self@[i as int].0 == k@);
                assert(map_has(self@, k@));
                assert(self@[map_idx(self@, k@)].0 == k@);
                assert(map_idx(self@, k@) == i as int);
                return Some(&self.entries[i].1);
            }
            i = i + 1;
        }
        assert(!map_has(self@, k@));
        None
    }

    /// Whether the key is bound.
    pub fn contains_key(&self, k: &str) -> (r: bool)
        requires
            self.wf(),
        ensures
            r == map_has(self@, k@),
    {
        match self.get(k) {
            Some(_) => true,
            None => false,
        }
    }

    /// Binds the key to the value, replacing any earlier binding.
    pub fn insert(&mut self, k: String, v: String)
        requires
            old(self).wf(),
        ensures
            final(self).wf(),
            final(self)@ == map_set(old(self)@, k@, v@),
    {
        let ghost m0 = old(self)@;
        let mut i: usize = 0;
        while i < self.entries.len()
            invariant
                self.wf(),
                self@ == m0,
                m0 == old(self)@,
                i <= self.entries.len(),
                forall|j: int| 0 <= j < i ==> self@[j].0 != k@,
            decreases self.entries.len() - i,
        {
            if str_eq(self.entries[i].0.as_str(), k.as_str()) {
                assert(m0[i as int].0 == k@);
                assert(map_has(m0, k@));
                assert(m0[map_idx(m0, k@)].0 == k@);
                assert(map_idx(m0, k@) == i as int);
                self.entries.set(i, (k, v));
                assert(self@ =~= map_set(m0, k@, v@));
                assert forall|a: int, b: int| 0 <= a < b < self@.len() implies self@[a].0
                    != self@[b].0 by {
                    assert(forall|j: int|
                        0 <= j < self@.len() && j != i ==> self@[j].0 == m0[j].0);
                }
                return ;
            }
            i = i + 1;
        }
        assert(!map_has(m0, k@));
        self.entries.push((k, v));
        assert(self@ =~= map_set(m0, k@, v@));
        assert forall|a: int, b: int| 0 <= a < b < self@.len() implies self@[a].0
            != self@[b].0 by {
            assert(forall|j: int| 0 <= j < m0.len() ==> self@[j] == m0[j]);
            assert(self@[self@.len() - 1].0 == k@);
        }
    }
}

/// After binding a key, reading it back gives the new value, and every
/// other key keeps its old binding; well-formedness is preserved.
pub proof fn lemma_map_set_get(m: Seq<(Seq<char>, Seq<char>)>, k: Seq<char>, v: Seq<char>)
    requires
        map_wf(m),
    ensures
        map_wf(map_set(m, k, v)),
        map_get(map_set(m, k, v), k) == Some(v),
        forall|k2: Seq<char>| k2 != k ==> map_get(map_set(m, k, v), k2) == map_get(m, k2),
{
    let m2 = map_set(m, k, v);
    if map_has(m, k) {
        let i = map_idx(m, k);
        assert(0 <= i < m.len() && m[i].0 == k);
        assert(forall|j: int| 0 <= j < m2.len() && j != i ==> m2[j] == m[j]);
        assert(m2[i] == (k, v));
        assert forall|a: int, b: int| 0 <= a < b < m2.len() implies m2[a].0 != m2[b].0 by {}
        assert(m2[map_idx(m2, k)].0 == k);
        assert(map_idx(m2, k) == i);
        assert forall|k2: Seq<char>| k2 != k implies map_get(m2, k2) == map_get(m, k2) by {
            if map_has(m, k2) {
                let j = map_idx(m, k2);
                assert(j != i);
                assert(m2[j].0 == k2);
                assert(map_has(m2, k2));
                assert(map_idx(m2, k2) == j);
            } else {
                assert forall|j: int| 0 <= j < m2.len() implies m2[j].0 != k2 by {
                    if j != i {
                        assert(m2[j] == m[j]);
                    }
                }
            }
        }
    } else {
        assert(forall|j: int| 0 <= j < m.len() ==> m2[j] == m[j]);
        assert(m2[m.len() as int] == (k, v));
        assert forall|a: int, b: int| 0 <= a < b < m2.len() implies m2[a].0 != m2[b].0 by {
            if b == m.len() {
                assert(m[a].0 != k);
            }
        }
        assert(map_has(m2, k));
        assert(m2[map_idx(m2, k)].0 == k);
        assert(map_idx(m2, k) == m.len());
        assert forall|k2: Seq<char>| k2 != k implies map_get(m2, k2) == map_get(m, k2) by {
            if map_has(m, k2) {
                let j = map_idx(m, k2);
                assert(m2[j].0 == k2);
                assert(map_has(m2, k2));
                assert(map_idx(m2, k2) == j);
            } else {
                assert forall|j: int| 0 <= j < m2.len() implies m2[j].0 != k2 by {
                    if j < m.len() {
                        assert(m2[j] == m[j]);
                    }
                }
            }
        }
    }
}


/// The pattern occurs in `s` at position `k`.
pub open spec fn has_sub_at(s: Seq<char>, p: Seq<char>, k: int) -> bool {
    0 <= k && k + p.len() <= s.len() && s.subrange(k, k + p.len()) == p
}

/// The pattern occurs somewhere in `s`.
pub open spec fn contains_sub(s: Seq<char>, p: Seq<char>) -> bool {
    exists|k: int| has_sub_at(s, p, k)
}

fn sub_at(s: &Vec<char>, p: &Vec<char>, k: usize) -> (r: bool)
    requires
        k + p@.len() <= s@.len(),
    ensures
        r == has_sub_at(s@, p@, k as int),
{
    let m = p.len();
    let slen = s.len();
    let mut j: usize = 0;
    while j < m
        invariant
            j <= m,
            m == p@.len(),
            slen == s@.len(),
            k + m <= slen,
            forall|l: int| 0 <= l < j ==> s@[k + l] == p@[l],
        decreases m - j,
    {
        if s[k + j] != p[j] {
            assert(s@.subrange(k as int, k + m) != p@) by {
                assert(s@.subrange(k as int, k + m)[j as int] != p@[j as int]);
            }
            return false;
        }
        j = j + 1;
    }
    assert(s@.subrange(k as int, k + m) =~= p@);
    true
}

/// Whether the text holds the pattern, as `contains_sub` describes.
pub fn str_contains(s: &str, p: &str) -> (r: bool)
    ensures
        r == contains_sub(s@, p@),
{
    let sc = chars_of(s);
    let pc = chars_of(p);
    let n = sc.len();
    let m = pc.len();
    if m == 0 {
        assert(s@.subrange(0, 0) =~= p@);
        assert(has_sub_at(s@, p@, 0));
        return true;
    }
    if m > n {
        proof {
            if contains_sub(s@, p@) {
                let k = choose|k: int| has_sub_at(s@, p@, k);
                assert(k + m <= n);
            }
        }
        return false;
    }
    let mut k: usize = 0;
    while k <= n - m
        invariant
            1 <= m <= n,
            n == sc@.len(),
            m == pc@.len(),
            sc@ == s@,
            pc@ == p@,
            k <= n - m + 1,
            forall|l: int| 0 <= l < k ==> !has_sub_at(s@, p@, l),
        decreases n - k,
    {
        if sub_at(&sc, &pc, k) {
            return true;
        }
        k = k + 1;
    }
    proof {
        if contains_sub(s@, p@) {
            let w = choose|w: int| has_sub_at(s@, p@, w);
            assert(w <= n - m);
            assert(!has_sub_at(s@, p@, w));
        }
    }
    false
}


/// The views of a sequence of strings.
pub open spec fn strs_view(s: Seq<String>) -> Seq<Seq<char>> {
    Seq::new(s.len(), |i: int| s[i]@)
}

/// The lower-case code point of an ASCII letter; any other character is
/// its own code point.
pub open spec fn lchar(c: char) -> int {
    if 'A' <= c <= 'Z' {
        c as int + 32
    } else {
        c as int
    }
}

/// The texts are equal up to ASCII case.
pub open spec fn eq_nocase(a: Seq<char>, b: Seq<char>) -> bool {
    a.len() == b.len() && forall|i: int| 0 <= i < a.len() ==> lchar(a[i]) == lchar(b[i])
}

fn lower_code(c: char) -> (r: u32)
    ensures
        r as int == lchar(c),
{
    if 'A' <= c && c <= 'Z' {
        (c as u32) + 32
    } else {
        c as u32
    }
}

/// Whether the texts are equal up to ASCII case, as `eq_nocase`
/// describes.
pub fn nocase_eq(a: &str, b: &str) -> (r: bool)
    ensures
        r == eq_nocase(a@, b@),
{
    let ac = chars_of(a);
    let bc = chars_of(b);
    let n = ac.len();
    if n != bc.len() {
        return false;
    }
    let mut i: usize = 0;
    while i < n
        invariant
            i <= n,
            n == ac@.len(),
            n == bc@.len(),
            ac@ == a@,
            bc@ == b@,
            forall|j: int| 0 <= j < i ==> lchar(a@[j]) == lchar(b@[j]),
        decreases n - i,
    {
        if lower_code(ac[i]) != lower_code(bc[i]) {
            return false;
        }
        i = i + 1;
    }
    true
}

} // verus!
