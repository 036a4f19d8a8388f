//! Decisions on header values, as plain text.
//!
//! The transport layer hands header values over as strings; which credential
//! an Authorization value carries and whether a Cache-Control value demands
//! a refresh are decisions of the proxy and are made here.

use vstd::prelude::*;
use vstd::string::StrSliceExecFns;
use vstd::string::StringExecFns;

verus! {

/// A Cache-Control value requests a forced refresh when it contains the
/// directive `no-cache` anywhere in its text.
pub open spec fn has_no_cache_directive(s: Seq<char>) -> bool {
    exists|i: int| 0 <= i <= s.len() - 8 && #[trigger] s.subrange(i, i + 8) == "no-cache"@
}

/// Whether the directive `no-cache` occurs at position `i` of `value`.
#[verifier::loop_isolation(false)]
fn no_cache_at(value: &str, i: usize) -> (r: bool)
    requires
        i + 8 <= value@.len() <= usize::MAX,
    ensures
        r == (value@.subrange(i as int, i as int + 8) == "no-cache"@),
{
    proof {
        reveal_strlit("no-cache");
    }
    let pattern = "no-cache";
    let mut j: usize = 0;
    while j < 8
        invariant
            j <= 8,
            forall|k: int| 0 <= k < j ==> value@[i + k] == pattern@[k],
        decreases 8 - j,
    {
        if value.get_char(i + j) != pattern.get_char(j) {
            proof {
                assert(value@.subrange(i as int, i as int + 8)[j as int] == value@[i + j]);
            }
            return false;
        }
        j += 1;
    }
    proof {
        assert(value@.subrange(i as int, i as int + 8) =~= "no-cache"@);
    }
    true
}

/// Whether a Cache-Control value contains the `no-cache` directive.
#[verifier::loop_isolation(false)]
pub fn requests_no_cache(value: &str) -> (r: bool)
    ensures
        r == has_no_cache_directive(value@),
{
    proof {
        reveal_strlit("no-cache");
    }
    let n = value.unicode_len();
    if n < 8 {
        return false;
    }
    let mut i: usize = 0;
    while i <= n - 8
        invariant
            8 <= n == value@.len(),
            i <= n - 8 + 1,
            forall|x: int| 0 <= x < i ==> #[trigger] value@.subrange(x, x + 8) != "no-cache"@,
        decreases n - i,
    {
        if no_cache_at(value, i) {
            return true;
        }
        i += 1;
    }
    false
}

/// The credential carried by an Authorization value of the bearer scheme:
/// everything after the prefix `"Bearer "`, or nothing when the value does
/// not use that scheme.
#[verifier::loop_isolation(false)]
pub fn bearer_token(value: &str) -> (r: Option<String>)
    ensures
        match r {
            Some(token) => {
                &&& value@.len() >= 7
                &&& value@.subrange(0, 7) == "Bearer "@
                &&& token@ == value@.skip(7)
            },
            None => !(value@.len() >= 7 && value@.subrange(0, 7) == "Bearer "@),
        },
{
    proof {
        reveal_strlit("Bearer ");
    }
    let n = value.unicode_len();
    if n < 7 {
        return None;
    }
    let prefix = "Bearer ";
    let mut j: usize = 0;
    while j < 7
        invariant
            7 <= n == value@.len(),
            j <= 7,
            forall|k: int| 0 <= k < j ==> value@[k] == prefix@[k],
        decreases 7 - j,
    {
        if value.get_char(j) != prefix.get_char(j) {
            proof {
                assert(value@.subrange(0, 7)[j as int] == value@[j as int]);
            }
            return None;
        }
        j += 1;
    }
    proof {
        assert(value@.subrange(0, 7) =~= "Bearer "@);
        assert(value@.subrange(7, n as int) =~= value@.skip(7));
    }
    Some(String::from_str(value.substring_char(7, n)))
}

} // verus!
