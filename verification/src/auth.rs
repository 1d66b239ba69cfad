//! The auth extractor and the ownership guard.
//!
//! The extractor locates a bearer credential in the `Authorization` header
//! value and produces verified claims through the token codec; the guard is
//! the binary ownership check applied before any mutation.

use vstd::prelude::*;
use vstd::string::StrSliceExecFns;

use crate::errors::TalliiError;
use crate::token::Claims;
use crate::token::TokenCodec;

verus! {

/// ASCII whitespace: what is trimmed around the token material.
pub open spec fn is_space(c: char) -> bool {
    c == ' ' || c == '\t' || c == '\n' || c == '\r' || c == '\u{c}'
}

/// The literal scheme prefix an `Authorization` value must start with.
pub open spec fn bearer_prefix() -> Seq<char> {
    seq!['B', 'e', 'a', 'r', 'e', 'r']
}

/// `s` with its leading whitespace removed.
pub open spec fn trim_left(s: Seq<char>) -> Seq<char>
    decreases s.len(),
{
    if s.len() > 0 && is_space(s[0]) {
        trim_left(s.drop_first())
    } else {
        s
    }
}

/// `s` with its trailing whitespace removed.
pub open spec fn trim_right(s: Seq<char>) -> Seq<char>
    decreases s.len(),
{
    if s.len() > 0 && is_space(s[s.len() - 1]) {
        trim_right(s.drop_last())
    } else {
        s
    }
}

/// `s` with whitespace removed from both ends.
pub open spec fn trimmed(s: Seq<char>) -> Seq<char> {
    trim_right(trim_left(s))
}

/// The token material of an `Authorization` header value: defined when the
/// value starts with the literal `Bearer` scheme and carries non-blank
/// material after it, as that material with surrounding whitespace trimmed.
pub open spec fn spec_token_in(header: Seq<char>) -> Option<Seq<char>> {
    if header.len() >= 6 && header.subrange(0, 6) == bearer_prefix() {
        let material = trimmed(header.subrange(6, header.len() as int));
        if material.len() > 0 {
            Some(material)
        } else {
            None
        }
    } else {
        None
    }
}

proof fn lemma_trim_left_is_skip(s: Seq<char>, i: int)
    requires
        0 <= i <= s.len(),
        forall|k: int| 0 <= k < i ==> is_space(s[k]),
        i < s.len() ==> !is_space(s[i]),
    ensures
        trim_left(s) == s.skip(i),
    decreases i,
{
    if i == 0 {
        assert(s.skip(0) =~= s);
    } else {
        lemma_trim_left_is_skip(s.drop_first(), i - 1);
        assert(s.drop_first().skip(i - 1) =~= s.skip(i));
    }
}

proof fn lemma_trim_right_is_take(s: Seq<char>, j: int)
    requires
        0 <= j <= s.len(),
        forall|k: int| j <= k < s.len() ==> is_space(s[k]),
        j > 0 ==> !is_space(s[j - 1]),
    ensures
        trim_right(s) == s.take(j),
    decreases s.len() - j,
{
    if j == s.len() {
        assert(s.take(j) =~= s);
    } else {
        lemma_trim_right_is_take(s.drop_last(), j);
        assert(s.drop_last().take(j) =~= s.take(j));
    }
}

/// Whether `c` counts as whitespace around the token material.
fn is_space_char(c: char) -> (r: bool)
    ensures
        r == is_space(c),
{
    c == ' ' || c == '\t' || c == '\n' || c == '\r' || c == '\u{c}'
}

/// Pulls the bearer token out of an `Authorization` header value, when one
/// is there. Header absent, wrong scheme, and blank token material all yield
/// `MissingBearerToken`; extra whitespace after the scheme is tolerated.
pub fn extract_token(header: Option<&str>) -> (r: Result<String, TalliiError>)
    ensures
        header is None ==> r is Err,
        header matches Some(h) ==> (r is Err <==> spec_token_in(h@) is None),
        r matches Ok(t) ==> (header matches Some(h) && spec_token_in(h@) == Some(t@)),
        r matches Err(e) ==> e is MissingBearerToken,
{
    let h = match header {
        Some(h) => h,
        None => {
            return Err(TalliiError::MissingBearerToken);
        },
    };
    let n = h.unicode_len();
    if n < 6 {
        return Err(TalliiError::MissingBearerToken);
    }
    if !(h.get_char(0) == 'B' && h.get_char(1) == 'e' && h.get_char(2) == 'a' && h.get_char(3)
        == 'r' && h.get_char(4) == 'e' && h.get_char(5) == 'r') {
        proof {
            assert(h@.subrange(0, 6) != bearer_prefix()) by {
                if h@.subrange(0, 6) == bearer_prefix() {
                    assert(h@[0] == 'B' && h@[1] == 'e' && h@[2] == 'a' && h@[3] == 'r' && h@[4]
                        == 'e' && h@[5] == 'r') by {
                        assert(forall|k: int|
                            0 <= k < 6 ==> h@.subrange(0, 6)[k] == bearer_prefix()[k]);
                    }
                }
            }
        }
        return Err(TalliiError::MissingBearerToken);
    }
    proof {
        assert(h@.subrange(0, 6) =~= bearer_prefix());
    }
    let mut i: usize = 6;
    while i < n && is_space_char(h.get_char(i))
        invariant
            6 <= i <= n,
            n == h@.len(),
            forall|k: int| 6 <= k < i ==> is_space(h@[k]),
        decreases n - i,
    {
        i = i + 1;
    }
    let mut j: usize = n;
    while j > i && is_space_char(h.get_char(j - 1))
        invariant
            i <= j <= n,
            n == h@.len(),
            forall|k: int| j <= k < n ==> is_space(h@[k]),
        decreases j,
    {
        j = j - 1;
    }
    proof {
        let rest = h@.subrange(6, n as int);
        lemma_trim_left_is_skip(rest, i - 6);
        assert(rest.skip(i - 6) =~= h@.subrange(i as int, n as int));
        lemma_trim_right_is_take(h@.subrange(i as int, n as int), j - i);
        assert(h@.subrange(i as int, n as int).take(j - i) =~= h@.subrange(i as int, j as int));
        assert(trimmed(rest) == h@.subrange(i as int, j as int));
    }
    if i == j {
        return Err(TalliiError::MissingBearerToken);
    }
    let token = h.substring_char(i, j).to_owned();
    Ok(token)
}

/// Locates the bearer token in the `Authorization` header value and verifies
/// it with the codec: the hard gate every authenticated request passes
/// through exactly once, before any handler logic runs. Extraction failures
/// yield `MissingBearerToken`; verification failures pass `InvalidToken`
/// through unchanged.
pub fn authenticate(codec: &TokenCodec, header: Option<&str>, now: i64) -> (r: Result<
    Claims,
    TalliiError,
>)
    ensures
        header is None ==> (r matches Err(e) && e is MissingBearerToken),
        header matches Some(h) ==> (spec_token_in(h@) is None ==> (r matches Err(e)
            && e is MissingBearerToken)),
        r matches Ok(c) ==> (header matches Some(h) && spec_token_in(h@) matches Some(t)
            && crate::token::well_signed(t, codec.spec_secret()) && crate::token::spec_claims_of(t)
            == Some((c.sub as int, c.email@, c.exp as int)) && c.exp >= now),
        header matches Some(h) ==> (spec_token_in(h@) matches Some(t) ==> (
        crate::token::spec_claims_of(t) matches Some(p) ==> ((crate::token::well_signed(
            t,
            codec.spec_secret(),
        ) && i32::MIN <= p.0 <= i32::MAX && now <= p.2 <= i64::MAX) ==> (r matches Ok(c)
            && c.sub as int == p.0 && c.email@ == p.1 && c.exp as int == p.2)))),
        r matches Err(e) ==> (e is MissingBearerToken || e is InvalidToken),
{
    let token = match extract_token(header) {
        Ok(token) => token,
        Err(e) => {
            return Err(e);
        },
    };
    codec.verify(&token, now)
}

/// Locates the bearer token in the `Authorization` header value and decodes
/// its payload with no signature or expiry check: the narrow "who is this,
/// even if stale" introspection path. The result carries no trust at all —
/// it must never authorize mutation, which is why only `authenticate` hands
/// out claims on write paths.
pub fn introspect(codec: &TokenCodec, header: Option<&str>) -> (r: Result<Claims, TalliiError>)
    ensures
        header is None ==> (r matches Err(e) && e is MissingBearerToken),
        header matches Some(h) ==> (spec_token_in(h@) is None ==> (r matches Err(e)
            && e is MissingBearerToken)),
        r matches Ok(c) ==> (header matches Some(h) && spec_token_in(h@) matches Some(t)
            && crate::token::spec_claims_of(t) == Some((c.sub as int, c.email@, c.exp as int))),
        r matches Err(e) ==> (e is MissingBearerToken || e is InvalidToken),
{
    let token = match extract_token(header) {
        Ok(token) => token,
        Err(e) => {
            return Err(e);
        },
    };
    codec.decode_unverified(&token)
}

/// The ownership guard: whether the acting identity may mutate a resource
/// recorded as owned by `resource_owner_id`. True exactly when the claims'
/// subject is that owner.
pub fn can_mutate(claims: &Claims, resource_owner_id: i32) -> (r: bool)
    ensures
        r == (claims.sub == resource_owner_id),
{
    claims.sub == resource_owner_id
}

} // verus!
