//! The Route Resolver: prefix normalization, matching of the inbound path
//! against the mounted route, and validation of the captured remainder as
//! an absolute target URL.

use vstd::prelude::*;
use vstd::slice::{slice_subrange, slice_to_vec};
use crate::errors::ProxyError;

verus! {

/// The path separator byte, `/`.
pub open spec fn slash() -> u8 {
    47
}

/// The text with its leading path separators removed.
pub open spec fn trim_leading_slashes(s: Seq<u8>) -> Seq<u8>
    decreases s.len(),
{
    if s.len() > 0 && s[0] == slash() {
        trim_leading_slashes(s.skip(1))
    } else {
        s
    }
}

/// The text with its trailing path separators removed.
pub open spec fn trim_trailing_slashes(s: Seq<u8>) -> Seq<u8>
    decreases s.len(),
{
    if s.len() > 0 && s.last() == slash() {
        trim_trailing_slashes(s.drop_last())
    } else {
        s
    }
}

/// A prefix as mounted: no leading and no trailing path separator.
pub open spec fn trimmed(s: Seq<u8>) -> Seq<u8> {
    trim_trailing_slashes(trim_leading_slashes(s))
}

/// Whether the prefix is already in its mounted form.
pub open spec fn is_trimmed(s: Seq<u8>) -> bool {
    trimmed(s) == s
}

proof fn lemma_trim_leading_is_skip(s: Seq<u8>, i: int)
    requires
        0 <= i <= s.len(),
        forall|k: int| 0 <= k < i ==> s[k] == slash(),
        i < s.len() ==> s[i] != slash(),
    ensures
        trim_leading_slashes(s) == s.skip(i),
    decreases i,
{
    if i == 0 {
        assert(s.skip(0) =~= s);
    } else {
        lemma_trim_leading_is_skip(s.skip(1), i - 1);
        assert(s.skip(1).skip(i - 1) =~= s.skip(i));
    }
}

proof fn lemma_trim_trailing_is_take(s: Seq<u8>, j: int)
    requires
        0 <= j <= s.len(),
        forall|k: int| j <= k < s.len() ==> s[k] == slash(),
        j > 0 ==> s[j - 1] != slash(),
    ensures
        trim_trailing_slashes(s) == s.take(j),
    decreases s.len() - j,
{
    if j == s.len() {
        assert(s.take(j) =~= s);
    } else {
        lemma_trim_trailing_is_take(s.drop_last(), j);
        assert(s.drop_last().take(j) =~= s.take(j));
    }
}

/// Normalize a configured prefix once at startup: trim every leading and
/// trailing path separator. The result is in mounted form, so normalizing
/// it again changes nothing.
pub fn normalize_prefix(prefix: &Vec<u8>) -> (r: Vec<u8>)
    ensures
        r@ == trimmed(prefix@),
        is_trimmed(r@),
{
    let mut start: usize = 0;
    while start < prefix.len() && prefix[start] == 47
        invariant
            start <= prefix.len(),
            forall|k: int| 0 <= k < start ==> prefix@[k] == slash(),
        decreases prefix.len() - start,
    {
        start += 1;
    }
    let mut end: usize = prefix.len();
    while end > start && prefix[end - 1] == 47
        invariant
            start <= end <= prefix.len(),
            forall|k: int| 0 <= k < start ==> prefix@[k] == slash(),
            forall|k: int| end <= k < prefix.len() ==> prefix@[k] == slash(),
        decreases end,
    {
        end -= 1;
    }
    let r = slice_to_vec(slice_subrange(prefix.as_slice(), start, end));
    proof {
        lemma_trim_leading_is_skip(prefix@, start as int);
        let t = prefix@.skip(start as int);
        lemma_trim_trailing_is_take(t, end - start);
        assert(t.take(end - start) =~= prefix@.subrange(start as int, end as int));
        assert(r@ == trimmed(prefix@));
        if r@.len() > 0 {
            assert(r@[0] == prefix@[start as int]);
            assert(r@.last() == prefix@[end - 1]);
            assert(trim_leading_slashes(r@) == r@);
            assert(trim_trailing_slashes(r@) == r@);
        } else {
            assert(trim_leading_slashes(r@) == r@);
            assert(trim_trailing_slashes(r@) == r@);
        }
    }
    r
}

/// The route as mounted for a prefix: `/<prefix>/` before the wildcard, or
/// a bare `/` when the prefix is empty.
pub open spec fn mount(prefix: Seq<u8>) -> Seq<u8> {
    if prefix.len() == 0 {
        seq![slash()]
    } else {
        seq![slash()] + prefix + seq![slash()]
    }
}

/// The wildcard remainder when the inbound path (with its query string
/// appended, when present) lies under the mounted route, and nothing
/// otherwise. The remainder must be non-empty for the route to match.
pub open spec fn route_remainder(path: Seq<u8>, prefix: Seq<u8>) -> Option<Seq<u8>> {
    if path.len() > mount(prefix).len() && path.take(mount(prefix).len() as int) == mount(prefix) {
        Some(path.skip(mount(prefix).len() as int))
    } else {
        None
    }
}

/// Match the inbound path against the mounted route and capture the
/// remainder that encodes the target URL.
pub fn match_route(path: &Vec<u8>, prefix: &Vec<u8>) -> (r: Option<Vec<u8>>)
    ensures
        match r {
            Some(rem) => route_remainder(path@, prefix@) == Some(rem@),
            None => route_remainder(path@, prefix@) is None,
        },
{
    if prefix.len() == 0 {
        if path.len() <= 1 {
            return None;
        }
        if path[0] != 47 {
            proof {
                assert(path@.take(1)[0] == path@[0]);
            }
            return None;
        }
        proof {
            assert(path@.take(1) =~= mount(prefix@));
        }
        return Some(slice_to_vec(slice_subrange(path.as_slice(), 1, path.len())));
    }
    if path.len() <= 2 || path.len() - 2 <= prefix.len() {
        return None;
    }
    let mount_len: usize = prefix.len() + 2;
    if path[0] != 47 {
        proof {
            assert(path@.take(mount_len as int)[0] != mount(prefix@)[0]);
        }
        return None;
    }
    let mut i: usize = 0;
    while i < prefix.len()
        invariant
            i <= prefix.len(),
            prefix.len() + 2 < path@.len(),
            mount_len == prefix@.len() + 2,
            forall|k: int| 0 <= k < i ==> path@[k + 1] == prefix@[k],
        decreases prefix.len() - i,
    {
        if path[i + 1] != prefix[i] {
            proof {
                let ml: int = mount_len as int;
                let j: int = i as int + 1;
                assert(mount(prefix@) == seq![slash()] + prefix@ + seq![slash()]);
                assert(mount(prefix@)[j] == prefix@[i as int]);
                assert(path@.take(ml)[j] == path@[j]);
                assert(path@.take(ml)[j] != mount(prefix@)[j]);
            }
            return None;
        }
        i += 1;
    }
    if path[prefix.len() + 1] != 47 {
        proof {
            let ml = mount_len as int;
            assert(path@.take(ml)[ml - 1] != mount(prefix@)[ml - 1]);
        }
        return None;
    }
    proof {
        assert(path@.take(mount_len as int) =~= mount(prefix@));
    }
    Some(slice_to_vec(slice_subrange(path.as_slice(), mount_len, path.len())))
}

/// The text of `candidate` parsed as a syntactically valid absolute URL
/// (scheme and authority both present) and rendered back from its parts,
/// or nothing when it does not so parse. A function of the candidate bytes
/// alone.
pub uninterp spec fn absolute_url_of(candidate: Seq<u8>) -> Option<Seq<u8>>;

/// Relies on `http::Uri`: `FromStr` accepts exactly the URI grammar that
/// crate implements, `scheme` and `authority` report whether those parts
/// were present, and `Display` renders the URI back from its parts. The
/// whole is a pure function of the candidate bytes.
#[verifier::external_body]
fn parse_absolute_url(candidate: &Vec<u8>) -> (r: Option<Vec<u8>>)
    ensures
        match r {
            Some(u) => absolute_url_of(candidate@) == Some(u@),
            None => absolute_url_of(candidate@) is None,
        },
{
    let text = match core::str::from_utf8(candidate.as_slice()) {
        Ok(t) => t,
        Err(_) => return None,
    };
    let uri: http::Uri = match text.parse() {
        Ok(u) => u,
        Err(_) => return None,
    };
    if uri.scheme().is_none() || uri.authority().is_none() {
        return None;
    }
    Some(uri.to_string().into_bytes())
}

/// A syntactically valid absolute target URL, rendered as text.
#[derive(Debug)]
pub struct TargetUrl {
    pub text: Vec<u8>,
}

/// The capture artifact undone: one extra leading `/`, when present, is
/// dropped before the remainder is read as a URL.
pub open spec fn strip_lead_slash(s: Seq<u8>) -> Seq<u8> {
    if s.len() > 0 && s[0] == slash() {
        s.skip(1)
    } else {
        s
    }
}

/// What resolving a captured remainder yields: the rendered absolute URL,
/// or nothing when the candidate text is not one.
pub open spec fn resolution_of(remainder: Seq<u8>) -> Option<Seq<u8>> {
    absolute_url_of(strip_lead_slash(remainder))
}

/// Turn the captured path remainder into the target URL, or reject the
/// request: exactly the remainders whose candidate text (after the
/// single-leading-slash normalization) parses as an absolute URL yield a
/// target.
pub fn resolve_target(remainder: &Vec<u8>) -> (r: Result<TargetUrl, ProxyError>)
    ensures
        match r {
            Ok(t) => resolution_of(remainder@) == Some(t.text@),
            Err(e) => e == ProxyError::InvalidTarget && resolution_of(remainder@) is None,
        },
{
    let candidate: Vec<u8> = if remainder.len() > 0 && remainder[0] == 47 {
        slice_to_vec(slice_subrange(remainder.as_slice(), 1, remainder.len()))
    } else {
        slice_to_vec(remainder.as_slice())
    };
    proof {
        assert(candidate@ =~= strip_lead_slash(remainder@));
    }
    match parse_absolute_url(&candidate) {
        Some(text) => Ok(TargetUrl { text }),
        None => Err(ProxyError::InvalidTarget),
    }
}

/// The full inbound path that asks the proxy for a given remainder: the
/// mounted route followed by the remainder.
pub open spec fn mounted_path(prefix: Seq<u8>, rest: Seq<u8>) -> Seq<u8> {
    mount(prefix) + rest
}

/// Every syntactically valid absolute URL placed after the mounted prefix
/// is matched by the route and resolves to exactly that URL. A valid
/// absolute URL begins with its scheme, so one that begins with `/` is
/// outside this law: the single-leading-slash normalization would alter it.
pub proof fn lemma_valid_url_resolves(prefix: Seq<u8>, url: Seq<u8>)
    requires
        absolute_url_of(url) is Some,
        url.len() > 0,
        url[0] != slash(),
    ensures
        route_remainder(mounted_path(prefix, url), prefix) == Some(url),
        resolution_of(url) == absolute_url_of(url),
{
    let path = mounted_path(prefix, url);
    let ml = mount(prefix).len() as int;
    assert(path.take(ml) =~= mount(prefix));
    assert(path.skip(ml) =~= url);
}

} // verus!
