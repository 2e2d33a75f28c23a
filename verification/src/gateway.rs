//! The plugin API gateway: a registry of plugin base addresses and the
//! shape of the forwarded request.
//!
//! A request for `/plugin-api/{plugin}/{rest}` is forwarded to the
//! plugin's base address with the same method and body, all headers but
//! `Host`, and `rest` appended behind a single slash; an unknown plugin
//! is answered 404 with a body naming it.

use vstd::prelude::*;

verus! {

use vstd::string::StrSliceExecFns;
use vstd::string::StringExecFns;
use crate::strutil::{StrMap, map_get, pairs_view, chars_of, string_of, push_char};

/// How many bytes of a request body the gateway forwards at most; a
/// longer body is forwarded as empty.
pub const MAX_PROXY_BODY: usize = 1048576;

/// The text with its trailing slashes removed.
pub open spec fn trim_end_slash(s: Seq<char>) -> Seq<char>
    decreases s.len(),
{
    if s.len() > 0 && s[s.len() - 1] == '/' {
        trim_end_slash(s.drop_last())
    } else {
        s
    }
}

/// The text with its leading slashes removed.
pub open spec fn trim_start_slash(s: Seq<char>) -> Seq<char>
    decreases s.len(),
{
    if s.len() > 0 && s[0] == '/' {
        trim_start_slash(s.drop_first())
    } else {
        s
    }
}

/// Where a forwarded request goes: the base address without trailing
/// slashes, then, if there is a rest, one slash and the rest without
/// leading slashes.
pub open spec fn spec_proxy_target(base: Seq<char>, rest: Seq<char>) -> Seq<char> {
    if rest.len() == 0 {
        trim_end_slash(base)
    } else {
        trim_end_slash(base) + seq!['/'] + trim_start_slash(rest)
    }
}

pub proof fn lemma_trim_end(s: Seq<char>, e: int)
    requires
        0 <= e <= s.len(),
        forall|l: int| e <= l < s.len() ==> s[l] == '/',
        e == 0 || s[e - 1] != '/',
    ensures
        trim_end_slash(s) == s.take(e),
    decreases s.len(),
{
    if s.len() > 0 && s[s.len() - 1] == '/' {
        assert(e < s.len());
        lemma_trim_end(s.drop_last(), e);
        assert(s.drop_last().take(e) =~= s.take(e));
    } else {
        assert(e == s.len());
        assert(s.take(e) =~= s);
    }
}

pub proof fn lemma_trim_start(s: Seq<char>, b: int)
    requires
        0 <= b <= s.len(),
        forall|l: int| 0 <= l < b ==> s[l] == '/',
        b == s.len() || s[b] != '/',
    ensures
        trim_start_slash(s) == s.skip(b),
    decreases s.len(),
{
    if s.len() > 0 && s[0] == '/' {
        assert(b > 0);
        lemma_trim_start(s.drop_first(), b - 1);
        assert(s.drop_first().skip(b - 1) =~= s.skip(b));
    } else {
        assert(b == 0);
        assert(s.skip(0) =~= s);
    }
}

/// What trimming leaves: no slash remains at the trimmed end, so the
/// target's seam holds exactly one slash.
pub proof fn lemma_single_slash_seam(base: Seq<char>, rest: Seq<char>)
    ensures
        trim_end_slash(base).len() > 0 ==> trim_end_slash(base)[trim_end_slash(base).len() - 1]
            != '/',
        trim_start_slash(rest).len() > 0 ==> trim_start_slash(rest)[0] != '/',
    decreases base.len() + rest.len(),
{
    if base.len() > 0 && base[base.len() - 1] == '/' {
        lemma_single_slash_seam(base.drop_last(), rest);
    } else if rest.len() > 0 && rest[0] == '/' {
        lemma_single_slash_seam(base, rest.drop_first());
    }
}

/// The text with its trailing slashes removed, as `trim_end_slash`
/// describes.
pub fn trim_end_slash_exec(s: &str) -> (r: String)
    ensures
        r@ == trim_end_slash(s@),
{
    let cs = chars_of(s);
    let n = cs.len();
    let mut e: usize = n;
    while e > 0 && cs[e - 1] == '/'
        invariant
            e <= n,
            n == cs@.len(),
            forall|l: int| e <= l < n ==> cs@[l] == '/',
        decreases e,
    {
        e = e - 1;
    }
    let ghost e0 = e as int;
    proof {
        lemma_trim_end(cs@, e0);
    }
    let kept = crate::template::subvec(&cs, 0, e);
    let r = string_of(&kept);
    assert(r@ =~= cs@.take(e0));
    r
}

fn trim_start_slash_exec(s: &str) -> (r: String)
    ensures
        r@ == trim_start_slash(s@),
{
    let cs = chars_of(s);
    let n = cs.len();
    let mut b: usize = 0;
    while b < n && cs[b] == '/'
        invariant
            b <= n,
            n == cs@.len(),
            forall|l: int| 0 <= l < b ==> cs@[l] == '/',
        decreases n - b,
    {
        b = b + 1;
    }
    let ghost b0 = b as int;
    proof {
        lemma_trim_start(cs@, b0);
    }
    let kept = crate::template::subvec(&cs, b, n);
    let r = string_of(&kept);
    assert(r@ =~= cs@.skip(b0));
    r
}

/// Builds the address a request is forwarded to, as `spec_proxy_target`
/// describes.
pub fn proxy_target(base_url: &str, rest: &str) -> (r: String)
    ensures
        r@ == spec_proxy_target(base_url@, rest@),
{
    let mut out = trim_end_slash_exec(base_url);
    if rest.unicode_len() == 0 {
        return out;
    }
    push_char(&mut out, '/');
    let tail = trim_start_slash_exec(rest);
    out.append(tail.as_str());
    assert(out@ =~= trim_end_slash(base_url@) + seq!['/'] + trim_start_slash(rest@));
    out
}

/// The upstream status as the gateway returns it: statuses outside the
/// standard range 100..=999 come back as 502.
pub open spec fn spec_clamp_status(code: u16) -> u16 {
    if 100 <= code <= 999 {
        code
    } else {
        502
    }
}

/// Clamps an upstream status, as `spec_clamp_status` describes.
pub fn clamp_status(code: u16) -> (r: u16)
    ensures
        r == spec_clamp_status(code),
{
    if 100 <= code && code <= 999 {
        code
    } else {
        502
    }
}

/// The lower-case code point of an ASCII letter; other characters are
/// themselves.
pub open spec fn lchar(c: char) -> int {
    if 'A' <= c <= 'Z' {
        c as int + 32
    } else {
        c as int
    }
}

/// The header name is `Host`, in any case.
pub open spec fn is_host_name(k: Seq<char>) -> bool {
    k.len() == 4 && lchar(k[0]) == 'h' as int && lchar(k[1]) == 'o' as int && lchar(k[2])
        == 's' as int && lchar(k[3]) == 't' as int
}

fn key_is_host(k: &str) -> (r: bool)
    ensures
        r == is_host_name(k@),
{
    let cs = chars_of(k);
    if cs.len() != 4 {
        return false;
    }
    let c0 = cs[0];
    let c1 = cs[1];
    let c2 = cs[2];
    let c3 = cs[3];
    (c0 == 'h' || c0 == 'H') && (c1 == 'o' || c1 == 'O') && (c2 == 's' || c2 == 'S') && (c3 == 't'
        || c3 == 'T')
}

/// The headers that are forwarded, from index `k` on: all of them, in
/// order, except `Host`.
pub open spec fn spec_filter_headers_from(
    hs: Seq<(Seq<char>, Seq<char>)>,
    k: int,
) -> Seq<(Seq<char>, Seq<char>)>
    decreases hs.len() - k,
{
    if k < 0 || k >= hs.len() {
        Seq::<(Seq<char>, Seq<char>)>::empty()
    } else if is_host_name(hs[k].0) {
        spec_filter_headers_from(hs, k + 1)
    } else {
        seq![hs[k]] + spec_filter_headers_from(hs, k + 1)
    }
}

/// The headers the gateway forwards: every incoming header except
/// `Host`, in order.
pub open spec fn spec_filter_headers(hs: Seq<(Seq<char>, Seq<char>)>) -> Seq<
    (Seq<char>, Seq<char>),
> {
    spec_filter_headers_from(hs, 0)
}

/// Drops the `Host` header, as `spec_filter_headers` describes.
pub fn filter_headers(headers: &Vec<(String, String)>) -> (r: Vec<(String, String)>)
    ensures
        pairs_view(r@) == spec_filter_headers(pairs_view(headers@)),
{
    let ghost hs = pairs_view(headers@);
    let n = headers.len();
    let mut r: Vec<(String, String)> = Vec::new();
    let mut i: usize = 0;
    while i < n
        invariant
            i <= n,
            n == headers@.len(),
            hs == pairs_view(headers@),
            hs.len() == n,
            spec_filter_headers(hs) == pairs_view(r@) + spec_filter_headers_from(hs, i as int),
        decreases n - i,
    {
        let ghost pre = pairs_view(r@);
        if !key_is_host(headers[i].0.as_str()) {
            let k = headers[i].0.clone();
            let v = headers[i].1.clone();
            r.push((k, v));
            assert(pairs_view(r@) =~= pre.push(hs[i as int]));
            assert(pre + (seq![hs[i as int]] + spec_filter_headers_from(hs, i + 1)) =~= pre.push(
                hs[i as int],
            ) + spec_filter_headers_from(hs, i + 1));
        }
        i = i + 1;
    }
    assert(pairs_view(r@) + spec_filter_headers_from(hs, n as int) =~= pairs_view(r@));
    r
}

/// What the gateway decides for one request.
pub enum ProxyPlan {
    /// The plugin is not registered: answer 404 with this body.
    NotFound { body: String },
    /// Forward: to this address, with this method and these headers.
    Forward { target: String, method: String, headers: Vec<(String, String)> },
}

/// Decides a request to `/plugin-api/{plugin}/{rest}`: an unknown
/// plugin is refused with a body naming it; a known one yields the
/// forwarded request, with the method kept and `Host` dropped.
pub fn proxy_plan(
    registry: &StrMap,
    plugin: &str,
    rest: &str,
    method: String,
    headers: &Vec<(String, String)>,
) -> (r: ProxyPlan)
    requires
        registry.wf(),
    ensures
        (map_get(registry@, plugin@) is None ==> (r matches ProxyPlan::NotFound { body } && body@
            == "unknown plugin or unregistered API: "@ + plugin@)),
        (map_get(registry@, plugin@) matches Some(base) ==> (r matches ProxyPlan::Forward {
            target,
            method: m,
            headers: hs,
        } && target@ == spec_proxy_target(base, rest@) && m@ == method@ && pairs_view(hs@)
            == spec_filter_headers(pairs_view(headers@)))),
{
    match registry.get(plugin) {
        None => {
            let mut body = String::from_str("unknown plugin or unregistered API: ");
            body.append(plugin);
            ProxyPlan::NotFound { body }
        },
        Some(base) => {
            let target = proxy_target(base.as_str(), rest);
            let filtered = filter_headers(headers);
            ProxyPlan::Forward { target, method, headers: filtered }
        },
    }
}

} // verus!
