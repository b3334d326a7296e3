//! Language negotiation: which of the supported locales a request header
//! resolves to. The locale is always passed explicitly to whatever formats a
//! localized message, never kept in ambient state.

use vstd::prelude::*;
use vstd::string::StrSliceExecFns;
use vstd::string::StringExecFns;

verus! {

/// The language code chosen for a request: always `"pt"` or `"en"`.
#[derive(Clone, Debug)]
pub struct Locale(pub String);

/// The two characters a header may begin with are compared without regard to
/// ASCII case; only the four letters of the supported codes matter.
pub open spec fn lower_ascii(c: char) -> char {
    if c == 'P' {
        'p'
    } else if c == 'T' {
        't'
    } else if c == 'E' {
        'e'
    } else if c == 'N' {
        'n'
    } else {
        c
    }
}

pub open spec fn is_space(c: char) -> bool {
    c == ' ' || c == '\t'
}

/// The code a header value resolves to: spaces and tabs before the first
/// item are skipped, and the item decides by its first two characters,
/// compared without regard to case; only `pt` and `en` are supported, and
/// Portuguese is the default.
pub open spec fn chosen_language(s: Seq<char>) -> Seq<char>
    decreases s.len(),
{
    if s.len() > 0 && is_space(s[0]) {
        chosen_language(s.drop_first())
    } else if s.len() >= 2 && lower_ascii(s[0]) == 'p' && lower_ascii(s[1]) == 't' {
        seq!['p', 't']
    } else if s.len() >= 2 && lower_ascii(s[0]) == 'e' && lower_ascii(s[1]) == 'n' {
        seq!['e', 'n']
    } else {
        seq!['p', 't']
    }
}

proof fn lemma_chosen_language_skip(s: Seq<char>, i: int)
    requires
        0 <= i <= s.len(),
        forall|k: int| 0 <= k < i ==> is_space(s[k]),
    ensures
        chosen_language(s) == chosen_language(s.subrange(i, s.len() as int)),
    decreases i,
{
    if i > 0 {
        assert(s.subrange(1, s.len() as int) =~= s.drop_first());
        lemma_chosen_language_skip(s.drop_first(), i - 1);
        assert(s.drop_first().subrange(i - 1, s.drop_first().len() as int) =~= s.subrange(
            i,
            s.len() as int,
        ));
    } else {
        assert(s.subrange(0, s.len() as int) =~= s);
    }
}

fn lower_char(c: char) -> (r: char)
    ensures
        r == lower_ascii(c),
{
    if c == 'P' {
        'p'
    } else if c == 'T' {
        't'
    } else if c == 'E' {
        'e'
    } else if c == 'N' {
        'n'
    } else {
        c
    }
}

fn space_char(c: char) -> (r: bool)
    ensures
        r == is_space(c),
{
    c == ' ' || c == '\t'
}

/// Index of the first character of the header that is not a space or a tab.
fn skip_spaces(h: &str, n: usize) -> (i: usize)
    requires
        n == h@.len(),
    ensures
        i <= n,
        forall|k: int| 0 <= k < i ==> is_space(h@[k]),
        i < n ==> !is_space(h@[i as int]),
{
    let mut i: usize = 0;
    let mut stopped = false;
    while i < n && !stopped
        invariant
            i <= n,
            n == h@.len(),
            forall|k: int| 0 <= k < i ==> is_space(h@[k]),
            stopped ==> i < n && !is_space(h@[i as int]),
        decreases n - i + if stopped {
            0int
        } else {
            1int
        },
    {
        if space_char(h.get_char(i)) {
            i = i + 1;
        } else {
            stopped = true;
        }
    }
    i
}

fn pt_string() -> (r: String)
    ensures
        r@ == seq!['p', 't'],
{
    proof {
        reveal_strlit("pt");
    }
    let r = String::from_str("pt");
    proof {
        assert(r@ =~= seq!['p', 't']);
    }
    r
}

fn en_string() -> (r: String)
    ensures
        r@ == seq!['e', 'n'],
{
    proof {
        reveal_strlit("en");
    }
    let r = String::from_str("en");
    proof {
        assert(r@ =~= seq!['e', 'n']);
    }
    r
}

impl Locale {
    /// Whether the locale is Portuguese; anything else renders as English.
    pub open spec fn spec_is_portuguese(self) -> bool {
        self.0@ == seq!['p', 't']
    }

    pub fn is_portuguese(&self) -> (r: bool)
        ensures
            r == self.spec_is_portuguese(),
    {
        if self.0.unicode_len() == 2 {
            let c0 = self.0.as_str().get_char(0);
            let c1 = self.0.as_str().get_char(1);
            let r = c0 == 'p' && c1 == 't';
            proof {
                if r {
                    assert(self.0@ =~= seq!['p', 't']);
                }
            }
            r
        } else {
            false
        }
    }

    /// Resolves a request's language header (if any) to a supported code,
    /// defaulting to Portuguese.
    pub fn choose_language(header: Option<&str>) -> (code: String)
        ensures
            match header {
                Option::None => code@ == seq!['p', 't'],
                Option::Some(h) => code@ == chosen_language(h@),
            },
            code@ == seq!['p', 't'] || code@ == seq!['e', 'n'],
    {
        match header {
            Option::None => pt_string(),
            Option::Some(h) => {
                let n: usize = h.unicode_len();
                let i = skip_spaces(h, n);
                proof {
                    lemma_chosen_language_skip(h@, i as int);
                }
                let ghost tail = h@.subrange(i as int, h@.len() as int);
                if i < n && i + 1 < n {
                    let c0 = lower_char(h.get_char(i));
                    let c1 = lower_char(h.get_char(i + 1));
                    proof {
                        assert(tail.len() >= 2);
                        assert(tail[0] == h@[i as int] && tail[1] == h@[i as int + 1]);
                    }
                    if c0 == 'p' && c1 == 't' {
                        pt_string()
                    } else if c0 == 'e' && c1 == 'n' {
                        en_string()
                    } else {
                        pt_string()
                    }
                } else {
                    proof {
                        assert(tail.len() < 2);
                    }
                    pt_string()
                }
            },
        }
    }
}

} // verus!
