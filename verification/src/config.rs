//! The moderation policy configuration and the parsing of its raw
//! values.
//!
//! Reading the environment is the caller's concern; the helpers here
//! turn the raw strings it found — or did not find — into the policy
//! values, with the documented defaults on anything unparsable.

use vstd::prelude::*;
use vstd::string::StrSliceExecFns;
use vstd::string::StringExecFns;

use crate::decimal::{parse_i64, parse_i64_spec};
use crate::text::{trim_spec, trim_str};

verus! {

/// The spam score threshold used when none is configured.
pub const DEFAULT_SPAM_THRESHOLD: u8 = 70;

/// The reputation promotion threshold used when none is configured.
pub const DEFAULT_HAM_THRESHOLD: u32 = 15;

/// Process-wide moderation policy, immutable after load.
pub struct Config {
    pub bot_token: String,
    pub whitelist_path: String,
    pub spam_threshold: u8,
    pub ham_threshold: u32,
    pub tag_username: Option<String>,
    pub echo_ham: bool,
    pub ollama_model: String,
    pub notify_user_id: Option<i64>,
}

/// What parsing an unsigned decimal bounded by `max` accepts: the
/// signed grammar without a minus sign, within the bound.
pub open spec fn parse_bounded_spec(s: Seq<char>, max: int) -> Option<int> {
    match parse_i64_spec(s) {
        Some(v) => if 0 <= v <= max && !(s.len() > 0 && s[0] == '-') {
            Some(v as int)
        } else {
            None
        },
        None => None,
    }
}

fn parse_bounded(s: &str, max: u64) -> (r: Option<u64>)
    requires
        max <= i64::MAX,
    ensures
        match r {
            Some(v) => parse_bounded_spec(s@, max as int) == Some(v as int),
            None => parse_bounded_spec(s@, max as int) is None,
        },
{
    match parse_i64(s) {
        Some(v) => {
            if v < 0 || v > max as i64 {
                return None;
            }
            proof {
                assert(s@.len() > 0);
            }
            if s.get_char(0) == '-' {
                None
            } else {
                Some(v as u64)
            }
        },
        None => None,
    }
}

/// The configured spam threshold: the raw value parsed as an
/// unsigned byte, or the default when absent or unparsable.
pub fn spam_threshold_of(raw: Option<&str>) -> (t: u8)
    ensures
        t as int == match raw {
            Some(s) => match parse_bounded_spec(s@, u8::MAX as int) {
                Some(v) => v,
                None => DEFAULT_SPAM_THRESHOLD as int,
            },
            None => DEFAULT_SPAM_THRESHOLD as int,
        },
{
    match raw {
        Some(s) => match parse_bounded(s, u8::MAX as u64) {
            Some(v) => v as u8,
            None => DEFAULT_SPAM_THRESHOLD,
        },
        None => DEFAULT_SPAM_THRESHOLD,
    }
}

/// The configured reputation threshold: the raw value parsed as an
/// unsigned 32-bit number, or the default when absent or unparsable.
pub fn ham_threshold_of(raw: Option<&str>) -> (t: u32)
    ensures
        t as int == match raw {
            Some(s) => match parse_bounded_spec(s@, u32::MAX as int) {
                Some(v) => v,
                None => DEFAULT_HAM_THRESHOLD as int,
            },
            None => DEFAULT_HAM_THRESHOLD as int,
        },
{
    match raw {
        Some(s) => match parse_bounded(s, u32::MAX as u64) {
            Some(v) => v as u32,
            None => DEFAULT_HAM_THRESHOLD,
        },
        None => DEFAULT_HAM_THRESHOLD,
    }
}

/// The configured promotion notification target: the raw value
/// trimmed and parsed as a signed identifier, or none.
pub fn notify_user_id_of(raw: Option<&str>) -> (r: Option<i64>)
    ensures
        r == match raw {
            Some(s) => parse_i64_spec(trim_spec(s@)),
            None => Option::<i64>::None,
        },
{
    match raw {
        Some(s) => parse_i64(trim_str(s)),
        None => None,
    }
}

/// A handle with its leading at-signs removed.
pub open spec fn strip_ats(s: Seq<char>) -> Seq<char>
    decreases s.len(),
{
    if s.len() > 0 && s[0] == '@' {
        strip_ats(s.subrange(1, s.len() as int))
    } else {
        s
    }
}

proof fn lemma_strip_ats_skip(s: Seq<char>, k: int)
    requires
        0 <= k <= s.len(),
        forall|j: int| 0 <= j < k ==> s[j] == '@',
    ensures
        strip_ats(s) == strip_ats(s.subrange(k, s.len() as int)),
    decreases k,
{
    if k == 0 {
        assert(s.subrange(0, s.len() as int) =~= s);
    } else {
        let t = s.subrange(1, s.len() as int);
        lemma_strip_ats_skip(t, k - 1);
        assert(t.subrange(k - 1, t.len() as int) =~= s.subrange(k, s.len() as int));
    }
}

/// The configured mention handle: kept only when the raw value has
/// something other than whitespace in it, with any leading at-signs
/// removed from the raw value.
pub fn tag_username_of(raw: Option<&str>) -> (r: Option<String>)
    ensures
        match raw {
            Some(s) => if trim_spec(s@).len() == 0 {
                r is None
            } else {
                r matches Some(u) && u@ == strip_ats(s@)
            },
            None => r is None,
        },
{
    let s = match raw {
        Some(s) => s,
        None => {
            return None;
        },
    };
    let trimmed = trim_str(s);
    if trimmed.unicode_len() == 0 {
        return None;
    }
    let len = s.unicode_len();
    let mut k: usize = 0;
    while k < len && s.get_char(k) == '@'
        invariant
            0 <= k <= len,
            len == s@.len(),
            forall|j: int| 0 <= j < k ==> s@[j] == '@',
        decreases len - k,
    {
        k = k + 1;
    }
    proof {
        lemma_strip_ats_skip(s@, k as int);
        let t = s@.subrange(k as int, len as int);
        assert(strip_ats(t) == t) by {
            if t.len() > 0 {
                assert(t[0] == s@[k as int]);
            }
        }
    }
    Some(s.substring_char(k, len).to_owned())
}

} // verus!
