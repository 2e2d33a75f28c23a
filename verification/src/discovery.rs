//! Plugin discovery and the per-process registration set.
//!
//! Discovery filters a directory listing down to the file names whose
//! extension matches the platform's library suffix, keeping the listing
//! order. The registration set remembers which plugins already announced
//! their API, so a plugin is registered once per process run.

use vstd::prelude::*;

verus! {

use vstd::string::StrSliceExecFns;
use vstd::string::StringExecFns;
use crate::strutil::{strs_view, eq_nocase, nocase_eq, chars_of, string_of, str_eq};
use crate::template::subvec;

/// The position of the last `.` in a file name, if any.
pub open spec fn last_dot(s: Seq<char>) -> Option<int>
    decreases s.len(),
{
    if s.len() == 0 {
        None
    } else if s[s.len() - 1] == '.' {
        Some(s.len() - 1)
    } else {
        last_dot(s.drop_last())
    }
}

pub proof fn lemma_last_dot(s: Seq<char>)
    ensures
        match last_dot(s) {
            Some(d) => 0 <= d < s.len() && s[d] == '.' && forall|l: int|
                d < l < s.len() ==> s[l] != '.',
            None => forall|l: int| 0 <= l < s.len() ==> s[l] != '.',
        },
    decreases s.len(),
{
    if s.len() == 0 {
    } else if s[s.len() - 1] == '.' {
    } else {
        lemma_last_dot(s.drop_last());
        assert(forall|l: int| 0 <= l < s.len() - 1 ==> s.drop_last()[l] == s[l]);
    }
}

/// A file name's extension: what follows the last `.`, unless the dot
/// is the leading character (a hidden file) or there is none.
pub open spec fn ext_of(name: Seq<char>) -> Option<Seq<char>> {
    match last_dot(name) {
        Some(d) => if d == 0 {
            None
        } else {
            Some(name.skip(d + 1))
        },
        None => None,
    }
}

/// The name's extension matches, up to ASCII case.
pub open spec fn ext_matches(name: Seq<char>, ext: Seq<char>) -> bool {
    match ext_of(name) {
        Some(e) => eq_nocase(e, ext),
        None => false,
    }
}

/// The names with a matching extension, from index `k` on, in order.
pub open spec fn spec_discover_from(names: Seq<Seq<char>>, ext: Seq<char>, k: int) -> Seq<
    Seq<char>,
>
    decreases names.len() - k,
{
    if k < 0 || k >= names.len() {
        Seq::<Seq<char>>::empty()
    } else if ext_matches(names[k], ext) {
        seq![names[k]] + spec_discover_from(names, ext, k + 1)
    } else {
        spec_discover_from(names, ext, k + 1)
    }
}

/// The names with a matching extension, in listing order.
pub open spec fn spec_discover(names: Seq<Seq<char>>, ext: Seq<char>) -> Seq<Seq<char>> {
    spec_discover_from(names, ext, 0)
}

fn find_last_dot(cs: &Vec<char>) -> (r: Option<usize>)
    ensures
        match r {
            Some(d) => Some(d as int) == last_dot(cs@),
            None => last_dot(cs@) is None,
        },
{
    proof {
        lemma_last_dot(cs@);
    }
    let n = cs.len();
    let mut e: usize = n;
    while e > 0
        invariant
            e <= n,
            n == cs@.len(),
            forall|l: int| e <= l < n ==> cs@[l] != '.',
        decreases e,
    {
        if cs[e - 1] == '.' {
            proof {
                lemma_last_dot(cs@);
                match last_dot(cs@) {
                    Some(d) => {
                        if d < e - 1 {
                            assert(cs@[e - 1] != '.');
                        }
                        if e - 1 < d {
                            assert(cs@[d] != '.');
                        }
                    },
                    None => {
                        assert(cs@[e - 1] != '.');
                    },
                }
            }
            return Some(e - 1);
        }
        e = e - 1;
    }
    proof {
        lemma_last_dot(cs@);
        match last_dot(cs@) {
            Some(d) => {
                assert(cs@[d] != '.');
            },
            None => {},
        }
    }
    None
}

/// A file name's extension, as `ext_of` describes.
pub fn file_extension(name: &str) -> (r: Option<String>)
    ensures
        match r {
            Some(e) => ext_of(name@) == Some(e@),
            None => ext_of(name@) is None,
        },
{
    let cs = chars_of(name);
    match find_last_dot(&cs) {
        Some(d) => {
            if d == 0 {
                None
            } else {
                proof {
                    lemma_last_dot(cs@);
                }
                let n = cs.len();
                assert(d < n);
                let tail = subvec(&cs, d + 1, n);
                let e = string_of(&tail);
                assert(e@ =~= cs@.skip(d + 1));
                Some(e)
            }
        },
        None => None,
    }
}

fn name_matches(name: &String, ext: &str) -> (r: bool)
    ensures
        r == ext_matches(name@, ext@),
{
    match file_extension(name.as_str()) {
        Some(e) => nocase_eq(e.as_str(), ext),
        None => false,
    }
}

/// Filters a directory listing down to the names whose extension
/// matches, up to ASCII case, keeping the listing order. The same
/// listing always gives the same result: see `spec_discover`.
pub fn discover_plugins(names: &Vec<String>, ext: &str) -> (r: Vec<String>)
    ensures
        strs_view(r@) == spec_discover(strs_view(names@), ext@),
{
    let ghost ns = strs_view(names@);
    let n = names.len();
    let mut r: Vec<String> = Vec::new();
    let mut k: usize = 0;
    while k < n
        invariant
            k <= n,
            n == names@.len(),
            ns == strs_view(names@),
            ns.len() == n,
            spec_discover(ns, ext@) == strs_view(r@) + spec_discover_from(ns, ext@, k as int),
        decreases n - k,
    {
        let ghost pre = strs_view(r@);
        if name_matches(&names[k], ext) {
            r.push(names[k].clone());
            assert(strs_view(r@) =~= pre.push(ns[k as int]));
            assert(pre + (seq![ns[k as int]] + spec_discover_from(ns, ext@, k + 1)) =~= pre.push(
                ns[k as int],
            ) + spec_discover_from(ns, ext@, k + 1));
        }
        k = k + 1;
    }
    assert(strs_view(r@) + spec_discover_from(ns, ext@, n as int) =~= strs_view(r@));
    r
}

/// Discovery is a function of the listing and the extension: two calls
/// over the same listing return the same names.
pub proof fn lemma_discover_deterministic(
    names: Seq<Seq<char>>,
    ext: Seq<char>,
    r1: Seq<Seq<char>>,
    r2: Seq<Seq<char>>,
)
    requires
        r1 == spec_discover(names, ext),
        r2 == spec_discover(names, ext),
    ensures
        r1 == r2,
{
}

/// A set member with this name exists.
pub open spec fn has_name(s: Seq<Seq<char>>, n: Seq<char>) -> bool {
    exists|i: int| 0 <= i < s.len() && s[i] == n
}

/// Registration: a new name is appended, a known one changes nothing.
pub open spec fn spec_register(s: Seq<Seq<char>>, n: Seq<char>) -> Seq<Seq<char>> {
    if has_name(s, n) {
        s
    } else {
        s.push(n)
    }
}

/// The per-process set of plugins whose API was already registered.
pub struct RegisteredSet {
    pub names: Vec<String>,
}

impl View for RegisteredSet {
    type V = Seq<Seq<char>>;

    open spec fn view(&self) -> Seq<Seq<char>> {
        strs_view(self.names@)
    }
}

impl RegisteredSet {
    /// No name occurs twice.
    pub open spec fn wf(&self) -> bool {
        forall|i: int, j: int| 0 <= i < j < self@.len() ==> self@[i] != self@[j]
    }

    /// An empty set.
    pub fn new() -> (s: RegisteredSet)
        ensures
            s@ =~= Seq::<Seq<char>>::empty(),
            s.wf(),
    {
        RegisteredSet { names: Vec::new() }
    }

    /// Whether the name was registered already.
    pub fn contains(&self, name: &str) -> (r: bool)
        ensures
            r == has_name(self@, name@),
    {
        let mut i: usize = 0;
        while i < self.names.len()
            invariant
                i <= self.names@.len(),
                forall|j: int| 0 <= j < i ==> self@[j] != name@,
            decreases self.names@.len() - i,
        {
            if str_eq(self.names[i].as_str(), name) {
                assert(self@[i as int] == name@);
                return true;
            }
            i = i + 1;
        }
        proof {
            if has_name(self@, name@) {
                let w = choose|w: int| 0 <= w < self@.len() && self@[w] == name@;
                assert(self@[w] != name@);
            }
        }
        false
    }

    /// Registers the name; true exactly when it was new.
    pub fn register(&mut self, name: String) -> (fresh: bool)
        requires
            old(self).wf(),
        ensures
            final(self).wf(),
            fresh == !has_name(old(self)@, name@),
            final(self)@ == spec_register(old(self)@, name@),
    {
        if self.contains(name.as_str()) {
            return false;
        }
        let ghost s0 = self@;
        self.names.push(name);
        assert(self@ =~= s0.push(name@));
        assert forall|i: int, j: int| 0 <= i < j < self@.len() implies self@[i] != self@[j] by {
            if j == s0.len() {
                assert(self@[i] == s0[i]);
                if s0[i] == name@ {
                    assert(has_name(s0, name@));
                }
            }
        }
        true
    }
}

/// Registration happens once: after a name is registered, registering
/// it again changes nothing, and the set reports it present.
pub proof fn lemma_register_once(s: Seq<Seq<char>>, n: Seq<char>)
    ensures
        has_name(spec_register(s, n), n),
        spec_register(spec_register(s, n), n) == spec_register(s, n),
{
    if !has_name(s, n) {
        assert(spec_register(s, n)[s.len() as int] == n);
    }
}

/// How the plugin host is configured.
pub struct PluginConfig {
    pub mode: Option<String>,
    pub dev_dir: Option<String>,
    pub prod_dir: Option<String>,
    pub name_pattern: Option<String>,
    pub default_interval: Option<u64>,
}

/// The directory plugins are discovered in: in `prod` or `release` mode
/// the configured production directory (default `plugins-bin`),
/// otherwise the configured development directory (default
/// `target/debug`).
pub fn resolve_plugin_dir(mode: &str, cfg: &PluginConfig) -> (r: String)
    ensures
        ((mode@ == "prod"@ || mode@ == "release"@) ==> r@ == (match cfg.prod_dir {
            Some(ref d) => d@,
            None => "plugins-bin"@,
        })),
        (!(mode@ == "prod"@ || mode@ == "release"@) ==> r@ == (match cfg.dev_dir {
            Some(ref d) => d@,
            None => "target/debug"@,
        })),
{
    if str_eq(mode, "prod") || str_eq(mode, "release") {
        match &cfg.prod_dir {
            Some(d) => d.clone(),
            None => String::from_str("plugins-bin"),
        }
    } else {
        match &cfg.dev_dir {
            Some(d) => d.clone(),
            None => String::from_str("target/debug"),
        }
    }
}

/// The native library suffix of the platform the host runs on, by the
/// operating system's name: `dll` on windows, `dylib` on macos, `so`
/// anywhere else.
pub fn plugin_ext(os: &str) -> (r: &'static str)
    ensures
        (os@ == "windows"@ ==> r@ == "dll"@),
        (os@ == "macos"@ ==> r@ == "dylib"@),
        (os@ != "windows"@ && os@ != "macos"@ ==> r@ == "so"@),
{
    proof {
        reveal_strlit("windows");
        reveal_strlit("macos");
        assert("windows"@.len() != "macos"@.len());
    }
    if str_eq(os, "windows") {
        "dll"
    } else if str_eq(os, "macos") {
        "dylib"
    } else {
        "so"
    }
}

} // verus!
