//! Canonical-domain redirect: whether the host a request arrived at requires
//! a redirect to the service's public domain. The comparison ignores ASCII
//! case and an optional port suffix; outside development, the boundary
//! redirects any request whose effective host does not match.

use vstd::prelude::*;
use vstd::string::StrSliceExecFns;

verus! {

/// The service's public domain, character by character.
pub open spec fn spec_domain() -> Seq<char> {
    seq!['w', 'e', 'b', 't', 'a', 'r', 'o', 't', '.', 'i', 'o']
}

/// Upper-case forms of the domain's letters fold to them; every other
/// character only matches itself.
pub open spec fn fold_host_char(c: char) -> char {
    if c == 'W' {
        'w'
    } else if c == 'E' {
        'e'
    } else if c == 'B' {
        'b'
    } else if c == 'T' {
        't'
    } else if c == 'A' {
        'a'
    } else if c == 'R' {
        'r'
    } else if c == 'O' {
        'o'
    } else if c == 'I' {
        'i'
    } else {
        c
    }
}

/// The host up to an optional ":port" suffix.
pub open spec fn spec_host_without_port(host: Seq<char>) -> Seq<char>
    decreases host.len(),
{
    if host.len() == 0 {
        host
    } else if host[0] == ':' {
        Seq::empty()
    } else {
        seq![host[0]] + spec_host_without_port(host.drop_first())
    }
}

/// The host names the public domain: ignoring ASCII case and the port, it is
/// exactly `webtarot.io`.
pub open spec fn spec_host_is_canonical(host: Seq<char>) -> bool {
    let bare = spec_host_without_port(host);
    bare.len() == spec_domain().len() && (forall|k: int|
        0 <= k < bare.len() ==> fold_host_char(#[trigger] bare[k]) == spec_domain()[k])
}

proof fn lemma_host_without_port_is_prefix(host: Seq<char>, cut: int)
    requires
        0 <= cut <= host.len(),
        forall|k: int| 0 <= k < cut ==> host[k] != ':',
        cut < host.len() ==> host[cut] == ':',
    ensures
        spec_host_without_port(host) == host.subrange(0, cut),
    decreases host.len(),
{
    if host.len() == 0 {
        assert(host.subrange(0, cut) =~= host);
    } else if host[0] == ':' {
        assert(host.subrange(0, cut) =~= Seq::<char>::empty());
    } else {
        lemma_host_without_port_is_prefix(host.drop_first(), cut - 1);
        assert(host.drop_first().subrange(0, cut - 1) =~= host.subrange(1, cut));
        assert(seq![host[0]] + host.subrange(1, cut) =~= host.subrange(0, cut));
    }
}

fn fold_char(c: char) -> (r: char)
    ensures
        r == fold_host_char(c),
{
    if c == 'W' {
        'w'
    } else if c == 'E' {
        'e'
    } else if c == 'B' {
        'b'
    } else if c == 'T' {
        't'
    } else if c == 'A' {
        'a'
    } else if c == 'R' {
        'r'
    } else if c == 'O' {
        'o'
    } else if c == 'I' {
        'i'
    } else {
        c
    }
}

fn domain_char(k: usize) -> (r: char)
    requires
        k < 11,
    ensures
        r == spec_domain()[k as int],
{
    if k == 0 {
        'w'
    } else if k == 1 {
        'e'
    } else if k == 2 {
        'b'
    } else if k == 3 {
        't'
    } else if k == 4 {
        'a'
    } else if k == 5 {
        'r'
    } else if k == 6 {
        'o'
    } else if k == 7 {
        't'
    } else if k == 8 {
        '.'
    } else if k == 9 {
        'i'
    } else {
        'o'
    }
}

/// Whether a request for this host has to be redirected to the public
/// domain: exactly when the host, without its port and regardless of ASCII
/// case, is not `webtarot.io`. The boundary skips the check in development
/// and when no host can be determined.
pub fn host_requires_redirect(host: &str) -> (r: bool)
    ensures
        r == !spec_host_is_canonical(host@),
{
    let n: usize = host.unicode_len();
    let mut cut: usize = 0;
    let mut seen_colon = false;
    while cut < n && !seen_colon
        invariant
            cut <= n,
            n == host@.len(),
            forall|k: int| 0 <= k < cut ==> host@[k] != ':',
            seen_colon ==> cut < n && host@[cut as int] == ':',
        decreases n - cut + if seen_colon {
            0int
        } else {
            1int
        },
    {
        if host.get_char(cut) == ':' {
            seen_colon = true;
        } else {
            cut = cut + 1;
        }
    }
    proof {
        lemma_host_without_port_is_prefix(host@, cut as int);
    }
    if cut != 11 {
        return true;
    }
    let mut k: usize = 0;
    let mut all_match = true;
    while k < 11
        invariant
            k <= 11,
            cut == 11,
            n == host@.len(),
            11 <= n,
            spec_host_without_port(host@) == host@.subrange(0, 11),
            all_match <==> (forall|w: int|
                0 <= w < k ==> fold_host_char(#[trigger] host@.subrange(0, 11)[w])
                    == spec_domain()[w]),
        decreases 11 - k,
    {
        proof {
            assert(host@.subrange(0, 11)[k as int] == host@[k as int]);
        }
        if fold_char(host.get_char(k)) != domain_char(k) {
            all_match = false;
        }
        k = k + 1;
    }
    !all_match
}

} // verus!
